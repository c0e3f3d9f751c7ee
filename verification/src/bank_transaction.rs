//! The bank-transaction log: immutable records of every movement
//! between a user account and a vault.
use vstd::prelude::*;

use crate::amount::Amount;
use crate::db;
use crate::types::{new_id, Date, Id};

verus! {

/// The kind of a movement between an account and a vault.
#[derive(Clone, Copy, PartialEq, Eq, Structural, Debug)]
pub enum BankTransactionType {
    /// A user putting funds into their account.
    Deposit,
    /// A user removing funds from their account.
    Withdraw,
    /// Funds borrowed from the bank.
    LoanPrincipal,
    /// Principal repayment on a loan.
    PrincipalRepayment,
    /// Interest repayment on a loan.
    InterestRepayment,
}

impl BankTransactionType {
    /// The canonical lowercase-snake name used at the persistence
    /// boundary.
    pub open spec fn key_spec(self) -> Seq<char> {
        match self {
            BankTransactionType::Deposit => "deposit"@,
            BankTransactionType::Withdraw => "withdraw"@,
            BankTransactionType::LoanPrincipal => "loan_principal"@,
            BankTransactionType::PrincipalRepayment => "principal_repayment"@,
            BankTransactionType::InterestRepayment => "interest_repayment"@,
        }
    }

    /// Canonical name of the kind.
    pub fn to_key(&self) -> (r: String)
        ensures
            r@ == self.key_spec(),
    {
        match self {
            BankTransactionType::Deposit => "deposit".to_owned(),
            BankTransactionType::Withdraw => "withdraw".to_owned(),
            BankTransactionType::LoanPrincipal => "loan_principal".to_owned(),
            BankTransactionType::PrincipalRepayment => "principal_repayment".to_owned(),
            BankTransactionType::InterestRepayment => "interest_repayment".to_owned(),
        }
    }

    /// The kind named by `s`; `None` when `s` names no kind.
    pub fn from_key(s: &str) -> (r: Option<BankTransactionType>)
        ensures
            match r {
                Some(t) => s@ == t.key_spec(),
                None => forall|t: BankTransactionType| s@ != (#[trigger] t.key_spec()),
            },
    {
        let key = s.to_owned();
        let r = if key == "deposit".to_owned() {
            Some(BankTransactionType::Deposit)
        } else if key == "withdraw".to_owned() {
            Some(BankTransactionType::Withdraw)
        } else if key == "loan_principal".to_owned() {
            Some(BankTransactionType::LoanPrincipal)
        } else if key == "principal_repayment".to_owned() {
            Some(BankTransactionType::PrincipalRepayment)
        } else if key == "interest_repayment".to_owned() {
            Some(BankTransactionType::InterestRepayment)
        } else {
            None
        };
        proof {
            if r is None {
                assert forall|t: BankTransactionType| s@ != (#[trigger] t.key_spec()) by {
                    match t {
                        BankTransactionType::Deposit => {},
                        BankTransactionType::Withdraw => {},
                        BankTransactionType::LoanPrincipal => {},
                        BankTransactionType::PrincipalRepayment => {},
                        BankTransactionType::InterestRepayment => {},
                    }
                }
            }
        }
        r
    }
}

/// A movement of funds between a user's account and a vault.  Records
/// are append-only: once written they are never changed or removed.
#[derive(PartialEq, Eq, Debug)]
pub struct BankTransaction {
    pub id: Id,
    /// The user's account id.
    pub account_id: Id,
    /// The vault's unique name.
    pub vault_name: String,
    pub transaction_type: BankTransactionType,
    pub amount: Amount,
    pub created_at: Date,
}

impl Clone for BankTransaction {
    fn clone(&self) -> (r: Self)
        ensures
            r == *self,
    {
        BankTransaction {
            id: self.id,
            account_id: self.account_id,
            vault_name: self.vault_name.clone(),
            transaction_type: self.transaction_type,
            amount: self.amount,
            created_at: self.created_at,
        }
    }
}

/// What a caller supplies to log a movement.
#[derive(Clone, Copy, Debug)]
pub struct NewBankTransaction<'a> {
    pub account_id: Id,
    pub vault_name: &'a str,
    pub transaction_type: BankTransactionType,
    pub amount: Amount,
    pub created_at: Date,
}

/// Whether `s` holds a record with the given id.
pub open spec fn spec_has_bank_transaction(s: Seq<BankTransaction>, id: Id) -> bool {
    exists|i: int| 0 <= i < s.len() && s[i].id == id
}

/// Whether the record `t` logs exactly the movement `new_tx`.
pub open spec fn spec_tx_matches(t: BankTransaction, new_tx: NewBankTransaction<'_>) -> bool {
    &&& t.account_id == new_tx.account_id
    &&& t.vault_name@ == new_tx.vault_name@
    &&& t.transaction_type == new_tx.transaction_type
    &&& t.amount == new_tx.amount
    &&& t.created_at == new_tx.created_at
}

/// The append-only store of bank transactions.
pub struct Repo {
    transactions: Vec<BankTransaction>,
}

impl View for Repo {
    type V = Seq<BankTransaction>;

    closed spec fn view(&self) -> Seq<BankTransaction> {
        self.transactions@
    }
}

impl Repo {
    /// Well-formed log: ids are unique.
    pub open spec fn wf(self) -> bool {
        forall|i: int, j: int|
            0 <= i < j < self@.len() ==> (#[trigger] self@[i]).id != (#[trigger] self@[j]).id
    }

    /// An empty log.
    pub fn new() -> (r: Repo)
        ensures
            r@.len() == 0,
            r.wf(),
    {
        Repo { transactions: Vec::new() }
    }

    /// Whether a record with this id exists.
    fn contains_id(&self, id: Id) -> (r: bool)
        ensures
            r == spec_has_bank_transaction(self@, id),
    {
        let n = self.transactions.len();
        let mut i: usize = 0;
        while i < n
            invariant
                0 <= i <= n,
                n == self@.len(),
                forall|j: int| 0 <= j < i ==> (#[trigger] self@[j]).id != id,
            decreases n - i,
        {
            if self.transactions[i].id == id {
                return true;
            }
            i += 1;
        }
        false
    }

    /// Appends one record under a freshly drawn id.  The id decides the
    /// outcome: on the (practically impossible) collision the log is
    /// left unchanged and the conflict is reported.
    pub fn create(&mut self, new_transaction: NewBankTransaction<'_>) -> (r: Result<
        BankTransaction,
        db::Error,
    >)
        requires
            old(self).wf(),
        ensures
            final(self).wf(),
            match r {
                Ok(t) => {
                    &&& !spec_has_bank_transaction(old(self)@, t.id)
                    &&& spec_tx_matches(t, new_transaction)
                    &&& final(self)@ == old(self)@.push(t)
                },
                Err(e) => e == db::Error::RecordAlreadyExists && final(self)@ == old(self)@
                    && old(self)@.len() > 0,
            },
    {
        let id = new_id();
        if self.contains_id(id) {
            return Err(db::Error::RecordAlreadyExists);
        }
        let transaction = BankTransaction {
            id,
            account_id: new_transaction.account_id,
            vault_name: new_transaction.vault_name.to_owned(),
            transaction_type: new_transaction.transaction_type,
            amount: new_transaction.amount,
            created_at: new_transaction.created_at,
        };
        let out = transaction.clone();
        self.transactions.push(transaction);
        Ok(out)
    }

    /// Appends two records in one unit: either both are written, under
    /// fresh distinct ids, or the log is left unchanged and the id
    /// collision is reported.  Loan settlement uses this so that a
    /// principal record never appears without its interest record.
    pub fn create_pair(
        &mut self,
        first: NewBankTransaction<'_>,
        second: NewBankTransaction<'_>,
    ) -> (r: Result<(BankTransaction, BankTransaction), db::Error>)
        requires
            old(self).wf(),
        ensures
            final(self).wf(),
            match r {
                Ok(pair) => {
                    &&& !spec_has_bank_transaction(old(self)@, pair.0.id)
                    &&& !spec_has_bank_transaction(old(self)@, pair.1.id)
                    &&& pair.0.id != pair.1.id
                    &&& spec_tx_matches(pair.0, first)
                    &&& spec_tx_matches(pair.1, second)
                    &&& final(self)@ == old(self)@.push(pair.0).push(pair.1)
                },
                Err(e) => e == db::Error::RecordAlreadyExists && final(self)@ == old(self)@,
            },
    {
        let first_id = new_id();
        let second_id = new_id();
        if first_id == second_id || self.contains_id(first_id) || self.contains_id(second_id) {
            return Err(db::Error::RecordAlreadyExists);
        }
        let first_tx = BankTransaction {
            id: first_id,
            account_id: first.account_id,
            vault_name: first.vault_name.to_owned(),
            transaction_type: first.transaction_type,
            amount: first.amount,
            created_at: first.created_at,
        };
        let second_tx = BankTransaction {
            id: second_id,
            account_id: second.account_id,
            vault_name: second.vault_name.to_owned(),
            transaction_type: second.transaction_type,
            amount: second.amount,
            created_at: second.created_at,
        };
        let out = (first_tx.clone(), second_tx.clone());
        self.transactions.push(first_tx);
        self.transactions.push(second_tx);
        Ok(out)
    }
}

} // verus!
