//! The bank service: the one entry point through which money moves.
//!
//! Every operation is all-or-nothing: either every write it performs
//! (log record and balance updates) is applied, or the service's state
//! is exactly what it was before the call and an error is returned.
use vstd::prelude::*;

use crate::account::{
    self, spec_account, spec_account_index, spec_has_account, Account,
};
use crate::account_transaction::{self, AccountTransaction, NewAccountTransaction};
use crate::amount::{rounded_div, Amount, AMOUNT_LIMIT};
use crate::bank_transaction::{self, BankTransactionType, NewBankTransaction};
use crate::db;
use crate::error::{Error, ErrorKind};
use crate::loan::{
    self, spec_has_loan, spec_has_payment, spec_loan, spec_loan_index, spec_payment,
    spec_payment_index, Loan, LoanPayment, LoanState,
};
use crate::types::{months_between, Date, Id};
use crate::user;
use crate::vault::{self, spec_has_vault, spec_vault, spec_vault_index, Vault};

verus! {

/// Supplies the current date.  Injected into the service so that all
/// date-dependent loan logic is deterministic under test.
pub trait Calendar {
    /// The current date; always a real calendar date.
    fn current_date(&self) -> (r: Date)
        ensures
            r.wf(),
    ;
}

/// The production calendar: today's date in UTC.
pub struct SystemCalendar;

impl Calendar for SystemCalendar {
    fn current_date(&self) -> (r: Date) {
        crate::types::system_today()
    }
}

/// Parameter object for creating a new service.
pub struct NewBankService<C: Calendar> {
    pub user_repo: user::Repo,
    pub vault_repo: vault::Repo,
    pub account_repo: account::Repo,
    pub bank_transaction_repo: bank_transaction::Repo,
    pub account_transaction_repo: account_transaction::Repo,
    pub loan_repo: loan::Repo,
    pub loan_payment_repo: loan::PaymentRepo,
    pub calendar: C,
}

/// The service that performs all banking operations.  It owns the
/// stores, so one operation is one unit of work over them.
pub struct BankService<C: Calendar> {
    pub user_repo: user::Repo,
    pub account_repo: account::Repo,
    pub vault_repo: vault::Repo,
    pub bank_transaction_repo: bank_transaction::Repo,
    pub account_transaction_repo: account_transaction::Repo,
    pub loan_repo: loan::Repo,
    pub loan_payments_repo: loan::PaymentRepo,
    pub calendar: C,
}

/// One account's balance moved by `delta`; every other account is
/// untouched.
pub open spec fn spec_account_bumped(
    pre: Seq<Account>,
    post: Seq<Account>,
    account_id: Id,
    delta: int,
) -> bool {
    &&& spec_has_account(pre, account_id)
    &&& post.len() == pre.len()
    &&& forall|j: int|
        0 <= j < pre.len() && j != spec_account_index(pre, account_id) ==> post[j] == (
        #[trigger] pre[j])
    &&& spec_account_same_but_amount(
        pre[spec_account_index(pre, account_id)],
        post[spec_account_index(pre, account_id)],
        spec_account(pre, account_id).amount@ + delta,
    )
}

/// `b` is `a` with its balance replaced by `amount`.
pub open spec fn spec_account_same_but_amount(a: Account, b: Account, amount: int) -> bool {
    &&& b.id == a.id
    &&& b.user_id == a.user_id
    &&& b.account_type == a.account_type
    &&& b.created_at == a.created_at
    &&& b.is_open == a.is_open
    &&& b.amount@ == amount
}

/// One vault's balance moved by `delta`; every other vault is
/// untouched.
pub open spec fn spec_vault_bumped(
    pre: Seq<Vault>,
    post: Seq<Vault>,
    name: Seq<char>,
    delta: int,
) -> bool {
    &&& spec_has_vault(pre, name)
    &&& post.len() == pre.len()
    &&& forall|j: int|
        0 <= j < pre.len() && j != spec_vault_index(pre, name) ==> post[j] == (#[trigger] pre[j])
    &&& post[spec_vault_index(pre, name)].name@ == name
    &&& post[spec_vault_index(pre, name)].amount@ == spec_vault(pre, name).amount@ + delta
}

/// The log `post` is `pre` plus one record of the given movement, with
/// a well-formed timestamp.
pub open spec fn spec_bank_logged(
    pre: Seq<crate::bank_transaction::BankTransaction>,
    post: Seq<crate::bank_transaction::BankTransaction>,
    account_id: Id,
    vault_name: Seq<char>,
    transaction_type: BankTransactionType,
    amount: int,
) -> bool {
    &&& post.len() == pre.len() + 1
    &&& forall|j: int| 0 <= j < pre.len() ==> post[j] == (#[trigger] pre[j])
    &&& post.last().account_id == account_id
    &&& post.last().vault_name@ == vault_name
    &&& post.last().transaction_type == transaction_type
    &&& post.last().amount@ == amount
    &&& post.last().created_at.wf()
}

impl<C: Calendar> BankService<C> {
    /// All stores are well formed.
    pub open spec fn wf(self) -> bool {
        &&& self.user_repo.wf()
        &&& self.account_repo.wf()
        &&& self.vault_repo.wf()
        &&& self.bank_transaction_repo.wf()
        &&& self.account_transaction_repo.wf()
        &&& self.loan_repo.wf()
        &&& self.loan_payments_repo.wf()
    }

    /// Whether an account with this id exists.
    pub open spec fn has_account(self, id: Id) -> bool {
        spec_has_account(self.account_repo@, id)
    }

    /// The account with this id.
    pub open spec fn account(self, id: Id) -> Account {
        spec_account(self.account_repo@, id)
    }

    /// Whether a vault with this name exists.
    pub open spec fn has_vault(self, name: Seq<char>) -> bool {
        spec_has_vault(self.vault_repo@, name)
    }

    /// The vault with this name.
    pub open spec fn vault(self, name: Seq<char>) -> Vault {
        spec_vault(self.vault_repo@, name)
    }

    /// Whether a loan with this id exists.
    pub open spec fn has_loan(self, id: Id) -> bool {
        spec_has_loan(self.loan_repo@, id)
    }

    /// The loan with this id.
    pub open spec fn loan(self, id: Id) -> Loan {
        spec_loan(self.loan_repo@, id)
    }

    /// Whether a scheduled payment with this id exists.
    pub open spec fn has_payment(self, id: Id) -> bool {
        spec_has_payment(self.loan_payments_repo@, id)
    }

    /// The scheduled payment with this id.
    pub open spec fn payment(self, id: Id) -> LoanPayment {
        spec_payment(self.loan_payments_repo@, id)
    }

    /// No store changed between `pre` and `post`: the failed unit of
    /// work left no partial effect.
    pub open spec fn stores_unchanged(pre: Self, post: Self) -> bool {
        &&& post.user_repo@ == pre.user_repo@
        &&& post.account_repo@ == pre.account_repo@
        &&& post.vault_repo@ == pre.vault_repo@
        &&& post.bank_transaction_repo@ == pre.bank_transaction_repo@
        &&& post.account_transaction_repo@ == pre.account_transaction_repo@
        &&& post.loan_repo@ == pre.loan_repo@
        &&& post.loan_payments_repo@ == pre.loan_payments_repo@
    }

    /// Assembles a service from its stores and calendar.
    pub fn new(v: NewBankService<C>) -> (r: Self)
        ensures
            r.user_repo == v.user_repo,
            r.account_repo == v.account_repo,
            r.vault_repo == v.vault_repo,
            r.bank_transaction_repo == v.bank_transaction_repo,
            r.account_transaction_repo == v.account_transaction_repo,
            r.loan_repo == v.loan_repo,
            r.loan_payments_repo == v.loan_payment_repo,
    {
        BankService {
            user_repo: v.user_repo,
            account_repo: v.account_repo,
            vault_repo: v.vault_repo,
            bank_transaction_repo: v.bank_transaction_repo,
            account_transaction_repo: v.account_transaction_repo,
            loan_repo: v.loan_repo,
            loan_payments_repo: v.loan_payment_repo,
            calendar: v.calendar,
        }
    }

    /// Deposits `amount` into the account via the named vault: one
    /// deposit record is logged and both the account and the vault grow
    /// by exactly `amount`.
    ///
    /// Succeeds whenever the account and the vault exist, except on the
    /// practically impossible collision of the freshly drawn record id;
    /// any failure leaves every store unchanged.
    pub fn deposit(&mut self, account_id: Id, vault_name: &str, amount: &Amount) -> (r: Result<
        Account,
        Error,
    >)
        requires
            old(self).wf(),
            amount@ > 0,
            amount.wf(),
            old(self).has_account(account_id) ==> old(self).account(account_id).amount@ + amount@
                <= AMOUNT_LIMIT as int,
            old(self).has_vault(vault_name@) ==> old(self).vault(vault_name@).amount@ + amount@
                <= AMOUNT_LIMIT as int,
        ensures
            final(self).wf(),
            match r {
                Ok(a) => {
                    &&& old(self).has_account(account_id) && old(self).has_vault(vault_name@)
                    &&& spec_account_bumped(
                        old(self).account_repo@,
                        final(self).account_repo@,
                        account_id,
                        amount@,
                    )
                    &&& spec_vault_bumped(
                        old(self).vault_repo@,
                        final(self).vault_repo@,
                        vault_name@,
                        amount@,
                    )
                    &&& spec_bank_logged(
                        old(self).bank_transaction_repo@,
                        final(self).bank_transaction_repo@,
                        account_id,
                        vault_name@,
                        BankTransactionType::Deposit,
                        amount@,
                    )
                    &&& a == final(self).account(account_id)
                    &&& a.amount@ == old(self).account(account_id).amount@ + amount@
                    &&& final(self).user_repo@ == old(self).user_repo@
                    &&& final(self).account_transaction_repo@ == old(
                        self,
                    ).account_transaction_repo@
                    &&& final(self).loan_repo@ == old(self).loan_repo@
                    &&& final(self).loan_payments_repo@ == old(self).loan_payments_repo@
                },
                Err(e) => {
                    &&& Self::stores_unchanged(*old(self), *final(self))
                    &&& match e.kind {
                        ErrorKind::Database(db::Error::RecordNotFound) => !(old(self).has_account(
                            account_id,
                        ) && old(self).has_vault(vault_name@)),
                        ErrorKind::Database(db::Error::RecordAlreadyExists) => old(
                            self,
                        ).has_account(account_id) && old(self).has_vault(vault_name@),
                        _ => false,
                    }
                },
            },
    {
        let created_at = self.calendar.current_date();
        if let Err(e) = self.account_repo.find_by_id(account_id) {
            return Err(Error::new(ErrorKind::Database(e)));
        }
        if let Err(e) = self.vault_repo.find_by_name(vault_name) {
            return Err(Error::new(ErrorKind::Database(e)));
        }
        if let Err(e) = self.bank_transaction_repo.create(
            NewBankTransaction {
                account_id,
                vault_name,
                transaction_type: BankTransactionType::Deposit,
                amount: *amount,
                created_at,
            },
        ) {
            return Err(Error::new(ErrorKind::Database(e)));
        }
        let account = match self.account_repo.increment(account_id, amount) {
            Ok(a) => a,
            Err(e) => {
                return Err(Error::new(ErrorKind::Database(e)));
            },
        };
        if let Err(e) = self.vault_repo.increment(vault_name, amount) {
            return Err(Error::new(ErrorKind::Database(e)));
        }
        proof {
            let idx = spec_account_index(old(self).account_repo@, account_id);
            account::lemma_index_identifies(self.account_repo@, account_id, idx);
        }
        Ok(account)
    }

    /// Withdraws `amount` from the account via the named vault: one
    /// withdraw record is logged and both the account and the vault
    /// shrink by exactly `amount`.  A balance below `amount` is
    /// rejected with `InadequateFunds`, so the account never goes
    /// negative here.
    ///
    /// Succeeds whenever the account and the vault exist and the funds
    /// suffice, except on the practically impossible collision of the
    /// freshly drawn record id; any failure leaves every store
    /// unchanged.
    pub fn withdraw(&mut self, account_id: Id, vault_name: &str, amount: &Amount) -> (r: Result<
        Account,
        Error,
    >)
        requires
            old(self).wf(),
            amount@ > 0,
            amount.wf(),
            old(self).has_vault(vault_name@) ==> -(AMOUNT_LIMIT as int) <= old(self).vault(
                vault_name@,
            ).amount@ - amount@,
        ensures
            final(self).wf(),
            match r {
                Ok(a) => {
                    &&& old(self).has_account(account_id) && old(self).has_vault(vault_name@)
                    &&& old(self).account(account_id).amount@ >= amount@
                    &&& spec_account_bumped(
                        old(self).account_repo@,
                        final(self).account_repo@,
                        account_id,
                        -amount@,
                    )
                    &&& spec_vault_bumped(
                        old(self).vault_repo@,
                        final(self).vault_repo@,
                        vault_name@,
                        -amount@,
                    )
                    &&& spec_bank_logged(
                        old(self).bank_transaction_repo@,
                        final(self).bank_transaction_repo@,
                        account_id,
                        vault_name@,
                        BankTransactionType::Withdraw,
                        amount@,
                    )
                    &&& a == final(self).account(account_id)
                    &&& a.amount@ == old(self).account(account_id).amount@ - amount@
                    &&& a.amount@ >= 0
                    &&& final(self).user_repo@ == old(self).user_repo@
                    &&& final(self).account_transaction_repo@ == old(
                        self,
                    ).account_transaction_repo@
                    &&& final(self).loan_repo@ == old(self).loan_repo@
                    &&& final(self).loan_payments_repo@ == old(self).loan_payments_repo@
                },
                Err(e) => {
                    &&& Self::stores_unchanged(*old(self), *final(self))
                    &&& match e.kind {
                        ErrorKind::InadequateFunds => old(self).has_account(account_id) && old(
                            self,
                        ).account(account_id).amount@ < amount@,
                        ErrorKind::Database(db::Error::RecordNotFound) => !old(self).has_account(
                            account_id,
                        ) || (old(self).account(account_id).amount@ >= amount@ && !old(
                            self,
                        ).has_vault(vault_name@)),
                        ErrorKind::Database(db::Error::RecordAlreadyExists) => old(
                            self,
                        ).has_account(account_id) && old(self).account(account_id).amount@
                            >= amount@ && old(self).has_vault(vault_name@),
                        _ => false,
                    }
                },
            },
    {
        let created_at = self.calendar.current_date();
        let account = match self.account_repo.find_by_id(account_id) {
            Ok(a) => a,
            Err(e) => {
                return Err(Error::new(ErrorKind::Database(e)));
            },
        };
        if account.amount.lt(amount) {
            return Err(Error::new(ErrorKind::InadequateFunds));
        }
        if let Err(e) = self.vault_repo.find_by_name(vault_name) {
            return Err(Error::new(ErrorKind::Database(e)));
        }
        if let Err(e) = self.bank_transaction_repo.create(
            NewBankTransaction {
                account_id,
                vault_name,
                transaction_type: BankTransactionType::Withdraw,
                amount: *amount,
                created_at,
            },
        ) {
            return Err(Error::new(ErrorKind::Database(e)));
        }
        let account = match self.account_repo.decrement(account_id, amount) {
            Ok(a) => a,
            Err(e) => {
                return Err(Error::new(ErrorKind::Database(e)));
            },
        };
        if let Err(e) = self.vault_repo.decrement(vault_name, amount) {
            return Err(Error::new(ErrorKind::Database(e)));
        }
        proof {
            let idx = spec_account_index(old(self).account_repo@, account_id);
            account::lemma_index_identifies(self.account_repo@, account_id, idx);
        }
        Ok(account)
    }

    /// Transfers `amount` from the sender's account to the receiver's:
    /// one transfer record is logged, the receiver grows by `amount`
    /// and the sender shrinks by `amount` — a zero-sum move.  A sender
    /// balance below `amount` is rejected with `InadequateFunds`, so
    /// the sender never goes negative here.
    ///
    /// Succeeds whenever both accounts exist and the funds suffice,
    /// except on the practically impossible collision of the freshly
    /// drawn record id; any failure leaves every store unchanged.
    pub fn send_funds(&mut self, sender_id: Id, receiver_id: Id, amount: &Amount) -> (r: Result<
        AccountTransaction,
        Error,
    >)
        requires
            old(self).wf(),
            amount@ > 0,
            amount.wf(),
            old(self).has_account(receiver_id) ==> old(self).account(receiver_id).amount@
                + amount@ <= AMOUNT_LIMIT as int,
        ensures
            final(self).wf(),
            match r {
                Ok(t) => {
                    &&& old(self).has_account(sender_id) && old(self).has_account(receiver_id)
                    &&& old(self).account(sender_id).amount@ >= amount@
                    &&& t.sender_id == sender_id
                    &&& t.receiver_id == receiver_id
                    &&& t.amount@ == amount@
                    &&& spec_transfer_applied(
                        old(self).account_repo@,
                        final(self).account_repo@,
                        sender_id,
                        receiver_id,
                        amount@,
                    )
                    &&& final(self).account_transaction_repo@ == old(
                        self,
                    ).account_transaction_repo@.push(t)
                    &&& final(self).user_repo@ == old(self).user_repo@
                    &&& final(self).vault_repo@ == old(self).vault_repo@
                    &&& final(self).bank_transaction_repo@ == old(self).bank_transaction_repo@
                    &&& final(self).loan_repo@ == old(self).loan_repo@
                    &&& final(self).loan_payments_repo@ == old(self).loan_payments_repo@
                },
                Err(e) => {
                    &&& Self::stores_unchanged(*old(self), *final(self))
                    &&& match e.kind {
                        ErrorKind::InadequateFunds => old(self).has_account(sender_id) && old(
                            self,
                        ).account(sender_id).amount@ < amount@,
                        ErrorKind::Database(db::Error::RecordNotFound) => !old(self).has_account(
                            sender_id,
                        ) || (old(self).account(sender_id).amount@ >= amount@ && !old(
                            self,
                        ).has_account(receiver_id)),
                        ErrorKind::Database(db::Error::RecordAlreadyExists) => old(
                            self,
                        ).has_account(sender_id) && old(self).account(sender_id).amount@ >= amount@
                            && old(self).has_account(receiver_id),
                        _ => false,
                    }
                },
            },
    {
        let created_at = self.calendar.current_date();
        let sender_account = match self.account_repo.find_by_id(sender_id) {
            Ok(a) => a,
            Err(e) => {
                return Err(Error::new(ErrorKind::Database(e)));
            },
        };
        if sender_account.amount.lt(amount) {
            return Err(Error::new(ErrorKind::InadequateFunds));
        }
        if let Err(e) = self.account_repo.find_by_id(receiver_id) {
            return Err(Error::new(ErrorKind::Database(e)));
        }
        let transaction = match self.account_transaction_repo.create(
            NewAccountTransaction { sender_id, receiver_id, amount: *amount, created_at },
        ) {
            Ok(t) => t,
            Err(e) => {
                return Err(Error::new(ErrorKind::Database(e)));
            },
        };
        let ghost mid_pre = self.account_repo@;
        if let Err(e) = self.account_repo.increment(receiver_id, amount) {
            return Err(Error::new(ErrorKind::Database(e)));
        }
        let ghost mid = self.account_repo@;
        proof {
            account::lemma_index_identifies(mid, sender_id, spec_account_index(mid_pre, sender_id));
        }
        if let Err(e) = self.account_repo.decrement(sender_id, amount) {
            return Err(Error::new(ErrorKind::Database(e)));
        }
        proof {
            lemma_transfer_shape(
                old(self).account_repo@,
                mid,
                self.account_repo@,
                sender_id,
                receiver_id,
                amount@,
            );
        }
        Ok(transaction)
    }

    /// Disburses the loan: moves the original principal from the
    /// loan's vault into the borrower's account, in one unit.  The
    /// decrease of the vault equals the increase of the account equals
    /// the original principal.
    ///
    /// Succeeds exactly when the vault and the account exist; any
    /// failure leaves every store unchanged.  Like the stores, this
    /// operation does not check the loan's state; activation is the
    /// caller's concern.
    pub fn disburse_loan(&mut self, loan: &Loan, account_id: Id) -> (r: Result<(), Error>)
        requires
            old(self).wf(),
            loan.orig_principal.wf(),
            old(self).has_vault(loan.vault_name@) ==> -(AMOUNT_LIMIT as int) <= old(self).vault(
                loan.vault_name@,
            ).amount@ - loan.orig_principal@ <= AMOUNT_LIMIT as int,
            old(self).has_account(account_id) ==> -(AMOUNT_LIMIT as int) <= old(self).account(
                account_id,
            ).amount@ + loan.orig_principal@ <= AMOUNT_LIMIT as int,
        ensures
            final(self).wf(),
            r is Ok <==> old(self).has_vault(loan.vault_name@) && old(self).has_account(
                account_id,
            ),
            match r {
                Ok(_) => {
                    &&& spec_vault_bumped(
                        old(self).vault_repo@,
                        final(self).vault_repo@,
                        loan.vault_name@,
                        -loan.orig_principal@,
                    )
                    &&& spec_account_bumped(
                        old(self).account_repo@,
                        final(self).account_repo@,
                        account_id,
                        loan.orig_principal@,
                    )
                    &&& final(self).user_repo@ == old(self).user_repo@
                    &&& final(self).bank_transaction_repo@ == old(self).bank_transaction_repo@
                    &&& final(self).account_transaction_repo@ == old(
                        self,
                    ).account_transaction_repo@
                    &&& final(self).loan_repo@ == old(self).loan_repo@
                    &&& final(self).loan_payments_repo@ == old(self).loan_payments_repo@
                },
                Err(e) => Self::stores_unchanged(*old(self), *final(self)) && e.kind == ErrorKind::Database(
                    db::Error::RecordNotFound,
                ),
            },
    {
        if let Err(e) = self.vault_repo.find_by_name(loan.vault_name.as_str()) {
            return Err(Error::new(ErrorKind::Database(e)));
        }
        if let Err(e) = self.account_repo.find_by_id(account_id) {
            return Err(Error::new(ErrorKind::Database(e)));
        }
        if let Err(e) = self.vault_repo.decrement(loan.vault_name.as_str(), &loan.orig_principal) {
            return Err(Error::new(ErrorKind::Database(e)));
        }
        if let Err(e) = self.account_repo.increment(account_id, &loan.orig_principal) {
            return Err(Error::new(ErrorKind::Database(e)));
        }
        Ok(())
    }

    /// Computes the interest accrued on the given loan's balance for
    /// one payment period and stores it on the loan, replacing — not
    /// adding to — any prior unconsumed accrual.  Recomputing from an
    /// unchanged balance therefore yields the same accrued interest
    /// (see [`lemma_accrue_idempotent`]).
    ///
    /// Succeeds exactly when the loan exists; any failure leaves every
    /// store unchanged.
    pub fn accrue(&mut self, loan: &Loan) -> (r: Result<Loan, Error>)
        requires
            old(self).wf(),
            1 <= loan.payment_frequency <= 12,
            loan.balance.wf(),
            -(AMOUNT_LIMIT as int) <= spec_annual_interest(
                loan.balance@,
                loan.interest_rate as int,
            ) <= AMOUNT_LIMIT as int,
        ensures
            final(self).wf(),
            r is Ok <==> old(self).has_loan(loan.id),
            match r {
                Ok(l) => {
                    &&& l.accrued_interest@ == spec_accrued_interest(
                        loan.balance@,
                        loan.interest_rate as int,
                        loan.payment_frequency as int,
                    )
                    &&& l == (Loan {
                        accrued_interest: l.accrued_interest,
                        ..old(self).loan(loan.id)
                    })
                    &&& final(self).loan_repo@ == old(self).loan_repo@.update(
                        spec_loan_index(old(self).loan_repo@, loan.id),
                        l,
                    )
                    &&& final(self).user_repo@ == old(self).user_repo@
                    &&& final(self).account_repo@ == old(self).account_repo@
                    &&& final(self).vault_repo@ == old(self).vault_repo@
                    &&& final(self).bank_transaction_repo@ == old(self).bank_transaction_repo@
                    &&& final(self).account_transaction_repo@ == old(
                        self,
                    ).account_transaction_repo@
                    &&& final(self).loan_payments_repo@ == old(self).loan_payments_repo@
                },
                Err(e) => Self::stores_unchanged(*old(self), *final(self)) && e.kind == ErrorKind::Database(
                    db::Error::RecordNotFound,
                ),
            },
    {
        let divisor: i16 = 12 / loan.payment_frequency;
        proof {
            let f = loan.payment_frequency as int;
            vstd::arithmetic::div_mod::lemma_div_is_ordered(f, 12, f);
            vstd::arithmetic::div_mod::lemma_div_by_self(f);
            vstd::arithmetic::div_mod::lemma_div_is_ordered_by_denominator(12, 1, f);
        }
        let annual = loan.balance.times_bps(loan.interest_rate);
        proof {
            crate::amount::lemma_rounded_div_in_range(
                annual@,
                divisor as int,
                AMOUNT_LIMIT as int,
            );
        }
        let accrued_interest = annual.div_int(divisor as u16);
        match self.loan_repo.set_accrued_interest(loan.id, &accrued_interest) {
            Ok(l) => Ok(l),
            Err(e) => Err(Error::new(ErrorKind::Database(e))),
        }
    }

    /// The requirements shared by the operations that compute dues
    /// from the given loan: its amounts are in range and the dues they
    /// produce fit in range too.
    pub open spec fn dues_computable(loan: Loan) -> bool {
        &&& loan.balance.wf()
        &&& loan.balance@ >= 0
        &&& loan.accrued_interest.wf()
        &&& 0 <= loan.payment_frequency
        &&& loan.balance@ * loan.payment_frequency <= AMOUNT_LIMIT as int
    }

    /// The dues of `p` were computed from `loan` as of the date `d`:
    /// the principal installment amortizes the current balance over
    /// the months left to maturity, and the interest due is the
    /// loan's accrued interest.
    pub open spec fn spec_dues_set(loan: Loan, d: Date, p: LoanPayment) -> bool {
        &&& p.principal_due@ == rounded_div(loan.balance@, months_between(d, loan.maturity_date))
            * loan.payment_frequency
        &&& p.interest_due == loan.accrued_interest
    }

    /// What a successful dues refresh did: some well-formed current
    /// date strictly before maturity (in months) fixed the new dues of
    /// the stored payment, and nothing else changed.
    pub open spec fn spec_dues_refreshed(
        pre: Self,
        post: Self,
        loan: Loan,
        loan_payment_id: Id,
        p: LoanPayment,
    ) -> bool {
        &&& exists|d: Date|
            d.wf() && 1 <= #[trigger] months_between(d, loan.maturity_date) <= u16::MAX
                && Self::spec_dues_set(loan, d, p)
        &&& pre.has_payment(loan_payment_id)
        &&& p == (LoanPayment {
            principal_due: p.principal_due,
            interest_due: p.interest_due,
            ..pre.payment(loan_payment_id)
        })
        &&& post.loan_payments_repo@ == pre.loan_payments_repo@.update(
            spec_payment_index(pre.loan_payments_repo@, loan_payment_id),
            p,
        )
        &&& post.user_repo@ == pre.user_repo@
        &&& post.account_repo@ == pre.account_repo@
        &&& post.vault_repo@ == pre.vault_repo@
        &&& post.bank_transaction_repo@ == pre.bank_transaction_repo@
        &&& post.account_transaction_repo@ == pre.account_transaction_repo@
        &&& post.loan_repo@ == pre.loan_repo@
    }

    /// What refreshing the dues of a stored payment may result in.
    pub open spec fn spec_update_payment_outcome(
        pre: Self,
        post: Self,
        loan: Loan,
        loan_payment_id: Id,
        r: Result<LoanPayment, Error>,
    ) -> bool {
        match r {
            Ok(p) => Self::spec_dues_refreshed(pre, post, loan, loan_payment_id, p),
            Err(e) => {
                &&& Self::stores_unchanged(pre, post)
                &&& match e.kind {
                    ErrorKind::Database(db::Error::RecordNotFound) => !pre.has_payment(
                        loan_payment_id,
                    ),
                    ErrorKind::InvalidDate(_) => exists|d: Date|
                        d.wf() && !(1 <= #[trigger] months_between(d, loan.maturity_date)
                            <= u16::MAX),
                    _ => false,
                }
            },
        }
    }

    /// Refreshes the principal and interest due on the stored payment
    /// from the given loan's current balance and accrued interest, as
    /// of the calendar's current date.
    ///
    /// Fails with `InvalidDate` when the current date leaves no whole
    /// month to maturity; any failure leaves every store unchanged.
    pub fn update_loan_payment(&mut self, loan: &Loan, loan_payment_id: Id) -> (r: Result<
        LoanPayment,
        Error,
    >)
        requires
            old(self).wf(),
            Self::dues_computable(*loan),
        ensures
            final(self).wf(),
            Self::spec_update_payment_outcome(*old(self), *final(self), *loan, loan_payment_id, r),
    {
        let today = self.calendar.current_date();
        let months = today.months_until(&loan.maturity_date);
        if months < 1 || months > 65535 {
            return Err(
                Error::new(
                    ErrorKind::InvalidDate("no whole month left until the maturity date".to_owned()),
                ),
            );
        }
        let principal_due = loan.principal_due(today);
        proof {
            lemma_mul_le_limit(loan.balance@, loan.payment_frequency as int);
        }
        match self.loan_payments_repo.set_dues(loan_payment_id, &principal_due, &loan.accrued_interest) {
            Ok(p) => Ok(p),
            Err(e) => Err(Error::new(ErrorKind::Database(e))),
        }
    }

    /// What a successfully scheduled next payment looks like: due one
    /// payment period after the latest paid payment (or after the
    /// issue date when nothing is paid yet), not beyond maturity, with
    /// dues computed from the loan as of some current date, appended
    /// unpaid to the schedule, and nothing else changed.
    pub open spec fn spec_payment_scheduled(pre: Self, post: Self, loan: Loan, p: LoanPayment) -> bool {
        &&& exists|d: Date|
            d.wf() && 1 <= #[trigger] months_between(d, loan.maturity_date) <= u16::MAX
                && Self::spec_dues_set(loan, d, p)
        &&& p.loan_id == loan.id
        &&& loan::spec_is_unpaid(p)
        &&& p.due_date == crate::types::spec_add_months(
            loan::spec_next_due_base(pre.loan_payments_repo@, loan),
            loan.payment_frequency as int,
        )
        &&& crate::types::date_le(p.due_date, loan.maturity_date)
        &&& post.loan_payments_repo@ == pre.loan_payments_repo@.push(p)
        &&& post.user_repo@ == pre.user_repo@
        &&& post.account_repo@ == pre.account_repo@
        &&& post.vault_repo@ == pre.vault_repo@
        &&& post.bank_transaction_repo@ == pre.bank_transaction_repo@
        &&& post.account_transaction_repo@ == pre.account_transaction_repo@
        &&& post.loan_repo@ == pre.loan_repo@
    }

    /// What scheduling the next payment may result in.
    /// The input-determined date checks of scheduling: the next due
    /// base advanced by the payment frequency is a real date that does
    /// not pass the maturity date.
    pub open spec fn spec_schedule_dates_ok(pre: Self, loan: Loan) -> bool {
        let base = loan::spec_next_due_base(pre.loan_payments_repo@, loan);
        &&& base.can_add_months(loan.payment_frequency as int)
        &&& !crate::types::date_lt(
            loan.maturity_date,
            crate::types::spec_add_months(base, loan.payment_frequency as int),
        )
    }

    pub open spec fn spec_create_next_outcome(
        pre: Self,
        post: Self,
        loan: Loan,
        r: Result<LoanPayment, Error>,
    ) -> bool {
        &&& match r {
            Ok(p) => Self::spec_payment_scheduled(pre, post, loan, p),
            Err(e) => {
                &&& Self::stores_unchanged(pre, post)
                &&& match e.kind {
                    ErrorKind::InvalidDate(_) => {
                        ||| !Self::spec_schedule_dates_ok(pre, loan)
                        ||| exists|d: Date|
                            d.wf() && !(1 <= #[trigger] months_between(d, loan.maturity_date)
                                <= u16::MAX)
                    },
                    ErrorKind::Database(db::Error::RecordAlreadyExists) => Self::spec_schedule_dates_ok(
                        pre,
                        loan,
                    ),
                    _ => false,
                }
            },
        }
        &&& (!Self::spec_schedule_dates_ok(pre, loan) ==> (r matches Err(e) && e.kind matches ErrorKind::InvalidDate(_)))
    }

    /// Schedules the next payment due on the loan: due one payment
    /// period after the latest paid payment, or after the issue date
    /// for the first one, with dues computed from the loan's current
    /// balance and accrued interest.
    ///
    /// An unusable schedule is always rejected: whenever the next due
    /// date would be no real date, or would pass the maturity date,
    /// the result is `InvalidDate`.  The same error can arise when
    /// the calendar's current date leaves no whole month to maturity.
    /// Any failure leaves every store unchanged.
    pub fn create_next_loan_payment(&mut self, loan: &Loan) -> (r: Result<LoanPayment, Error>)
        requires
            old(self).wf(),
            Self::dues_computable(*loan),
        ensures
            final(self).wf(),
            Self::spec_create_next_outcome(*old(self), *final(self), *loan, r),
    {
        let previous_payment = match self.loan_payments_repo.find_last_paid(loan.id) {
            Ok(v) => Some(v),
            Err(_) => None,
        };
        let months_to_add = loan.payment_frequency as u16;
        let base = match &previous_payment {
            Some(prev) => prev.due_date,
            None => loan.issue_date,
        };
        proof {
            if previous_payment is Some {
                loan::lemma_latest_paid_due_date(
                    self.loan_payments_repo@,
                    loan.id,
                    previous_payment->Some_0,
                );
            }
        }
        let due_date = match base.checked_add_months(months_to_add) {
            Some(d) => d,
            None => {
                return Err(
                    Error::new(
                        ErrorKind::InvalidDate("the due date would be no real date".to_owned()),
                    ),
                );
            },
        };
        if loan.maturity_date.lt(&due_date) {
            return Err(
                Error::new(
                    ErrorKind::InvalidDate("the due date exceeds the maturity date".to_owned()),
                ),
            );
        }
        let today = self.calendar.current_date();
        let months = today.months_until(&loan.maturity_date);
        if months < 1 || months > 65535 {
            return Err(
                Error::new(
                    ErrorKind::InvalidDate("no whole month left until the maturity date".to_owned()),
                ),
            );
        }
        let principal_due = loan.principal_due(today);
        proof {
            lemma_mul_le_limit(loan.balance@, loan.payment_frequency as int);
        }
        let interest_due = loan.accrued_interest;
        match self.loan_payments_repo.create(
            crate::loan::NewPayment { loan_id: loan.id, principal_due, interest_due, due_date },
        ) {
            Ok(p) => Ok(p),
            Err(e) => Err(Error::new(ErrorKind::Database(e))),
        }
    }

    /// The next payment due on the loan: refreshes the dues of the
    /// first unpaid payment, or schedules the next one when every
    /// stored payment of the loan is settled.
    pub fn get_next_loan_payment(&mut self, loan: &Loan) -> (r: Result<LoanPayment, Error>)
        requires
            old(self).wf(),
            Self::dues_computable(*loan),
        ensures
            final(self).wf(),
            match loan::spec_first_unpaid(old(self).loan_payments_repo@, loan.id) {
                Some(p0) => Self::spec_update_payment_outcome(
                    *old(self),
                    *final(self),
                    *loan,
                    p0.id,
                    r,
                ),
                None => Self::spec_create_next_outcome(*old(self), *final(self), *loan, r),
            },
    {
        let loan_payment = match self.loan_payments_repo.find_first_unpaid(loan.id) {
            Ok(p) => p,
            Err(_) => {
                return self.create_next_loan_payment(loan);
            },
        };
        self.update_loan_payment(loan, loan_payment.id)
    }

    /// The machine-range side conditions of settling the payment: the
    /// dues' total and every balance it touches stay within the
    /// amount range, and — the conservation invariant — the loan's
    /// balance plus its accrued interest covers the total, so the
    /// balance cannot go negative.
    pub open spec fn pay_applicable(pre: Self, loan_payment_id: Id, account_id: Id) -> bool {
        pre.has_payment(loan_payment_id) ==> {
            let p = pre.payment(loan_payment_id);
            let total = p.principal_due@ + p.interest_due@;
            &&& -(AMOUNT_LIMIT as int) <= total <= AMOUNT_LIMIT as int
            &&& pre.has_loan(p.loan_id) ==> 0 <= pre.loan(p.loan_id).balance@ + pre.loan(
                p.loan_id,
            ).accrued_interest@ - total <= AMOUNT_LIMIT as int
            &&& pre.has_account(account_id) ==> -(AMOUNT_LIMIT as int) <= pre.account(
                account_id,
            ).amount@ - total <= AMOUNT_LIMIT as int
            &&& (pre.has_loan(p.loan_id) && pre.has_vault(pre.loan(p.loan_id).vault_name@))
                ==> -(AMOUNT_LIMIT as int) <= pre.vault(pre.loan(p.loan_id).vault_name@).amount@
                + total <= AMOUNT_LIMIT as int
        }
    }

    /// The log `post` is `pre` plus a principal-repayment record of
    /// `principal` and an interest-repayment record of `interest`,
    /// both on the same account and vault, with well-formed
    /// timestamps.
    pub open spec fn spec_repayments_logged(
        pre: Seq<crate::bank_transaction::BankTransaction>,
        post: Seq<crate::bank_transaction::BankTransaction>,
        account_id: Id,
        vault_name: Seq<char>,
        principal: int,
        interest: int,
    ) -> bool {
        &&& post.len() == pre.len() + 2
        &&& forall|j: int| 0 <= j < pre.len() ==> post[j] == (#[trigger] pre[j])
        &&& post[pre.len() as int].account_id == account_id
        &&& post[pre.len() as int].vault_name@ == vault_name
        &&& post[pre.len() as int].transaction_type == BankTransactionType::PrincipalRepayment
        &&& post[pre.len() as int].amount@ == principal
        &&& post[pre.len() as int].created_at.wf()
        &&& post[pre.len() as int + 1].account_id == account_id
        &&& post[pre.len() as int + 1].vault_name@ == vault_name
        &&& post[pre.len() as int + 1].transaction_type == BankTransactionType::InterestRepayment
        &&& post[pre.len() as int + 1].amount@ == interest
        &&& post[pre.len() as int + 1].created_at.wf()
    }

    /// Settles the stored payment's dues from the given account, in
    /// one unit: logs a principal-repayment and an interest-repayment
    /// record, moves the total from the account into the loan's
    /// vault, folds the accrued interest into the loan balance and
    /// subtracts the total, stamps both transaction ids onto the
    /// payment, and marks the loan `Paid` when the balance reaches
    /// exactly zero.
    ///
    /// The precondition [`BankService::pay_applicable`] excludes the
    /// one state the stores must never reach, a loan balance below
    /// zero; on success the new balance is provably non-negative.
    /// Succeeds whenever the payment, its loan, the account and the
    /// vault exist, except on the practically impossible collision of
    /// the freshly drawn record ids; any failure leaves every store
    /// unchanged.
    pub fn pay_loan_payment_due(&mut self, loan_payment_id: Id, account_id: Id) -> (r: Result<
        LoanPayment,
        Error,
    >)
        requires
            old(self).wf(),
            Self::pay_applicable(*old(self), loan_payment_id, account_id),
        ensures
            final(self).wf(),
            match r {
                Ok(p) => {
                    let p0 = old(self).payment(loan_payment_id);
                    let l0 = old(self).loan(p0.loan_id);
                    let total = p0.principal_due@ + p0.interest_due@;
                    let l1 = final(self).loan(p0.loan_id);
                    &&& old(self).has_payment(loan_payment_id)
                    &&& old(self).has_loan(p0.loan_id)
                    &&& old(self).has_account(account_id)
                    &&& old(self).has_vault(l0.vault_name@)
                    &&& Self::spec_repayments_logged(
                        old(self).bank_transaction_repo@,
                        final(self).bank_transaction_repo@,
                        account_id,
                        l0.vault_name@,
                        p0.principal_due@,
                        p0.interest_due@,
                    )
                    &&& spec_account_bumped(
                        old(self).account_repo@,
                        final(self).account_repo@,
                        account_id,
                        -total,
                    )
                    &&& spec_vault_bumped(
                        old(self).vault_repo@,
                        final(self).vault_repo@,
                        l0.vault_name@,
                        total,
                    )
                    &&& l1.balance@ == l0.balance@ + l0.accrued_interest@ - total
                    &&& l1.balance@ >= 0
                    &&& l1.accrued_interest@ == 0
                    &&& l1.state == (if l1.balance@ == 0 {
                        LoanState::Paid
                    } else {
                        l0.state
                    })
                    &&& l1 == (Loan {
                        balance: l1.balance,
                        accrued_interest: l1.accrued_interest,
                        state: l1.state,
                        ..l0
                    })
                    &&& final(self).loan_repo@ == old(self).loan_repo@.update(
                        spec_loan_index(old(self).loan_repo@, p0.loan_id),
                        l1,
                    )
                    &&& p == (LoanPayment {
                        principle_transaction_id: p.principle_transaction_id,
                        interest_transaction_id: p.interest_transaction_id,
                        ..p0
                    })
                    &&& p.principle_transaction_id == Some(
                        final(self).bank_transaction_repo@[old(
                            self,
                        ).bank_transaction_repo@.len() as int].id,
                    )
                    &&& p.interest_transaction_id == Some(
                        final(self).bank_transaction_repo@[old(self).bank_transaction_repo@.len()
                            as int + 1].id,
                    )
                    &&& final(self).loan_payments_repo@ == old(self).loan_payments_repo@.update(
                        spec_payment_index(old(self).loan_payments_repo@, loan_payment_id),
                        p,
                    )
                    &&& final(self).user_repo@ == old(self).user_repo@
                    &&& final(self).account_transaction_repo@ == old(
                        self,
                    ).account_transaction_repo@
                },
                Err(e) => {
                    let p0 = old(self).payment(loan_payment_id);
                    &&& Self::stores_unchanged(*old(self), *final(self))
                    &&& match e.kind {
                        ErrorKind::Database(db::Error::RecordNotFound) => !(old(self).has_payment(
                            loan_payment_id,
                        ) && old(self).has_loan(p0.loan_id) && old(self).has_account(account_id)
                            && old(self).has_vault(old(self).loan(p0.loan_id).vault_name@)),
                        ErrorKind::Database(db::Error::RecordAlreadyExists) => old(
                            self,
                        ).has_payment(loan_payment_id) && old(self).has_loan(p0.loan_id) && old(
                            self,
                        ).has_account(account_id) && old(self).has_vault(
                            old(self).loan(p0.loan_id).vault_name@,
                        ),
                        _ => false,
                    }
                },
            },
    {
        let loan_payment = match self.loan_payments_repo.find_by_id(loan_payment_id) {
            Ok(p) => p,
            Err(e) => {
                return Err(Error::new(ErrorKind::Database(e)));
            },
        };
        let loan = match self.loan_repo.find_by_id(loan_payment.loan_id) {
            Ok(l) => l,
            Err(e) => {
                return Err(Error::new(ErrorKind::Database(e)));
            },
        };
        if let Err(e) = self.account_repo.find_by_id(account_id) {
            return Err(Error::new(ErrorKind::Database(e)));
        }
        if let Err(e) = self.vault_repo.find_by_name(loan.vault_name.as_str()) {
            return Err(Error::new(ErrorKind::Database(e)));
        }
        let created_at = self.calendar.current_date();
        let transactions = match self.bank_transaction_repo.create_pair(
            NewBankTransaction {
                account_id,
                vault_name: loan.vault_name.as_str(),
                transaction_type: BankTransactionType::PrincipalRepayment,
                amount: loan_payment.principal_due,
                created_at,
            },
            NewBankTransaction {
                account_id,
                vault_name: loan.vault_name.as_str(),
                transaction_type: BankTransactionType::InterestRepayment,
                amount: loan_payment.interest_due,
                created_at,
            },
        ) {
            Ok(pair) => pair,
            Err(e) => {
                return Err(Error::new(ErrorKind::Database(e)));
            },
        };
        let total_payment = loan_payment.principal_due.add(&loan_payment.interest_due);
        if let Err(e) = self.account_repo.decrement(account_id, &total_payment) {
            return Err(Error::new(ErrorKind::Database(e)));
        }
        if let Err(e) = self.vault_repo.increment(loan.vault_name.as_str(), &total_payment) {
            return Err(Error::new(ErrorKind::Database(e)));
        }
        let ghost loans_pre = self.loan_repo@;
        let updated_loan = match self.loan_repo.decrement(loan.id, &total_payment) {
            Ok(l) => l,
            Err(e) => {
                return Err(Error::new(ErrorKind::Database(e)));
            },
        };
        let stamped = match self.loan_payments_repo.set_transaction_ids(
            loan_payment_id,
            transactions.0.id,
            transactions.1.id,
        ) {
            Ok(p) => p,
            Err(e) => {
                return Err(Error::new(ErrorKind::Database(e)));
            },
        };
        if updated_loan.balance.is_zero() {
            proof {
                let lidx = spec_loan_index(loans_pre, loan.id);
                loan::lemma_loan_index_identifies(self.loan_repo@, loan.id, lidx);
            }
            if let Err(e) = self.loan_repo.set_state(loan.id, LoanState::Paid) {
                return Err(Error::new(ErrorKind::Database(e)));
            }
            proof {
                let lidx = spec_loan_index(loans_pre, loan.id);
                assert(self.loan_repo@ =~= loans_pre.update(
                    lidx,
                    self.loan_repo@[lidx],
                ));
            }
        }
        Ok(stamped)
    }
}

/// Account and vault balances after applying a sequence of signed
/// deposit/withdraw flows: each flow moves both balances by the same
/// signed amount, exactly as `deposit` (by `+amount`) and `withdraw`
/// (by `-amount`) ensure.
pub open spec fn spec_apply_flows(account: int, vault: int, flows: Seq<int>) -> (int, int)
    decreases flows.len(),
{
    if flows.len() == 0 {
        (account, vault)
    } else {
        spec_apply_flows(account + flows[0], vault + flows[0], flows.skip(1))
    }
}

/// Conservation of funds: over any sequence of deposits and
/// withdrawals on an account and a vault, the account's total balance
/// change equals the vault's total balance change — each single flow
/// moves both by the same signed amount, so the sums agree.
pub proof fn lemma_conservation(account: int, vault: int, flows: Seq<int>)
    ensures
        spec_apply_flows(account, vault, flows).0 - account == spec_apply_flows(
            account,
            vault,
            flows,
        ).1 - vault,
    decreases flows.len(),
{
    if flows.len() > 0 {
        lemma_conservation(account + flows[0], vault + flows[0], flows.skip(1));
    }
}

/// Transfers are zero-sum: given the balance changes that
/// `send_funds` ensures for distinct accounts, the sender's and the
/// receiver's balance deltas cancel, and the transferred amount is
/// the magnitude of both.
pub proof fn lemma_transfer_zero_sum(
    sender_before: int,
    sender_after: int,
    receiver_before: int,
    receiver_after: int,
    amount: int,
)
    requires
        sender_after == sender_before - amount,
        receiver_after == receiver_before + amount,
    ensures
        (receiver_after - receiver_before) + (sender_after - sender_before) == 0,
        receiver_after - receiver_before == amount,
        sender_before - sender_after == amount,
{
}

/// `post` is `pre` after one accrual: its accrued interest is
/// replaced by the interest computed from `pre`'s balance, rate and
/// payment frequency — exactly what `accrue` ensures of the loan it
/// reads and the row it stores — and nothing else moves.
pub open spec fn spec_accrue_rel(pre: Loan, post: Loan) -> bool {
    &&& post.accrued_interest@ == spec_accrued_interest(
        pre.balance@,
        pre.interest_rate as int,
        pre.payment_frequency as int,
    )
    &&& post == (Loan { accrued_interest: post.accrued_interest, ..pre })
}

/// Accrual is idempotent: accruing twice in a row with no intervening
/// balance change yields the same accrued interest, because the
/// accrued amount depends only on the balance, rate and payment
/// frequency, none of which accrual changes.
pub proof fn lemma_accrue_idempotent(l: Loan, once: Loan, twice: Loan)
    requires
        spec_accrue_rel(l, once),
        spec_accrue_rel(once, twice),
    ensures
        twice.accrued_interest@ == once.accrued_interest@,
        twice.balance == once.balance,
{
}

/// A non-negative product bounded by the limit bounds its factors'
/// rounded quotient products too.
proof fn lemma_mul_le_limit(balance: int, frequency: int)
    requires
        0 <= balance,
        0 <= frequency,
        balance * frequency <= AMOUNT_LIMIT as int,
    ensures
        forall|x: int|
            0 <= x <= balance ==> 0 <= #[trigger] (x * frequency) <= AMOUNT_LIMIT as int,
{
    assert forall|x: int| 0 <= x <= balance implies 0 <= #[trigger] (x * frequency)
        <= AMOUNT_LIMIT as int by {
        assert(0 <= x * frequency <= balance * frequency) by (nonlinear_arith)
            requires
                0 <= x <= balance,
                0 <= frequency,
        ;
    }
}

/// The yearly interest on `balance` at `rate_bps` basis points, in
/// minor units, rounded once.
pub open spec fn spec_annual_interest(balance: int, rate_bps: int) -> int {
    rounded_div(balance * rate_bps, 10_000)
}

/// The interest accrued for one payment period: the yearly interest
/// divided by the number of periods in a year.
pub open spec fn spec_accrued_interest(balance: int, rate_bps: int, payment_frequency: int) -> int {
    rounded_div(spec_annual_interest(balance, rate_bps), 12int / payment_frequency)
}

/// The balances after a transfer: the receiver's account grew by
/// `amount`, the sender's shrank by `amount`, every other account is
/// untouched, and nothing but balances changed.  A transfer from an
/// account to itself nets to no change.
pub open spec fn spec_transfer_applied(
    pre: Seq<Account>,
    post: Seq<Account>,
    sender_id: Id,
    receiver_id: Id,
    amount: int,
) -> bool {
    &&& spec_has_account(pre, sender_id)
    &&& spec_has_account(pre, receiver_id)
    &&& post.len() == pre.len()
    &&& forall|j: int|
        0 <= j < pre.len() && j != spec_account_index(pre, sender_id) && j != spec_account_index(
            pre,
            receiver_id,
        ) ==> post[j] == (#[trigger] pre[j])
    &&& if sender_id == receiver_id {
        spec_account_same_but_amount(
            pre[spec_account_index(pre, sender_id)],
            post[spec_account_index(pre, sender_id)],
            spec_account(pre, sender_id).amount@,
        )
    } else {
        &&& spec_account_same_but_amount(
            pre[spec_account_index(pre, sender_id)],
            post[spec_account_index(pre, sender_id)],
            spec_account(pre, sender_id).amount@ - amount,
        )
        &&& spec_account_same_but_amount(
            pre[spec_account_index(pre, receiver_id)],
            post[spec_account_index(pre, receiver_id)],
            spec_account(pre, receiver_id).amount@ + amount,
        )
    }
}

/// Composing "receiver grew by `amount`" with "sender shrank by
/// `amount`" yields exactly the transfer shape above.
proof fn lemma_transfer_shape(
    pre: Seq<Account>,
    mid: Seq<Account>,
    post: Seq<Account>,
    sender_id: Id,
    receiver_id: Id,
    amount: int,
)
    requires
        forall|p: int, q: int|
            0 <= p < q < pre.len() ==> (#[trigger] pre[p]).id != (#[trigger] pre[q]).id,
        spec_has_account(pre, sender_id),
        spec_account_bumped(pre, mid, receiver_id, amount),
        spec_account_bumped(mid, post, sender_id, -amount),
    ensures
        spec_transfer_applied(pre, post, sender_id, receiver_id, amount),
{
    let ridx = spec_account_index(pre, receiver_id);
    let sidx = spec_account_index(pre, sender_id);
    assert(forall|j: int| 0 <= j < pre.len() ==> (#[trigger] mid[j]).id == pre[j].id);
    assert(forall|p: int, q: int|
        0 <= p < q < mid.len() ==> (#[trigger] mid[p]).id != (#[trigger] mid[q]).id);
    account::lemma_index_identifies(mid, sender_id, sidx);
    account::lemma_index_identifies(mid, receiver_id, ridx);
}

} // verus!
