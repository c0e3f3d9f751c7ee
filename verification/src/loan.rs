//! Loans, scheduled loan payments, and their stores.
//!
//! A loan is amortized against its *current* balance each cycle: the
//! principal installment is the balance divided by the months left to
//! maturity, scaled by the payment frequency.  Interest accrues in
//! basis points on the current balance and is folded into the balance
//! when a payment settles.  The loan balance is never negative.
use vstd::prelude::*;

use crate::amount::{rounded_div, Amount};
use crate::db;
use crate::types::{date_le, months_between, new_id, Date, Id};

verus! {

/// The state of a loan: a linear progression with two terminal states.
#[derive(Clone, Copy, PartialEq, Eq, Structural, Debug)]
pub enum LoanState {
    /// The loan is pending approval.
    PendingApproval,
    /// The balance is being repaid within the specified terms.
    Active,
    /// All principal and interest payments have been fulfilled.
    Paid,
    /// The borrower failed to pay within the specified terms.
    Default,
}

impl Default for LoanState {
    /// A new loan starts out pending approval.
    fn default() -> (r: Self)
        ensures
            r == LoanState::PendingApproval,
    {
        LoanState::PendingApproval
    }
}

impl LoanState {
    /// The canonical lowercase-snake name used at the persistence
    /// boundary.
    pub open spec fn key_spec(self) -> Seq<char> {
        match self {
            LoanState::PendingApproval => "pending_approval"@,
            LoanState::Active => "active"@,
            LoanState::Paid => "paid"@,
            LoanState::Default => "default"@,
        }
    }

    /// Canonical name of the state.
    pub fn to_key(&self) -> (r: String)
        ensures
            r@ == self.key_spec(),
    {
        match self {
            LoanState::PendingApproval => "pending_approval".to_owned(),
            LoanState::Active => "active".to_owned(),
            LoanState::Paid => "paid".to_owned(),
            LoanState::Default => "default".to_owned(),
        }
    }

    /// The state named by `s`; `None` when `s` names no state.
    pub fn from_key(s: &str) -> (r: Option<LoanState>)
        ensures
            match r {
                Some(t) => s@ == t.key_spec(),
                None => forall|t: LoanState| s@ != (#[trigger] t.key_spec()),
            },
    {
        let key = s.to_owned();
        let r = if key == "pending_approval".to_owned() {
            Some(LoanState::PendingApproval)
        } else if key == "active".to_owned() {
            Some(LoanState::Active)
        } else if key == "paid".to_owned() {
            Some(LoanState::Paid)
        } else if key == "default".to_owned() {
            Some(LoanState::Default)
        } else {
            None
        };
        proof {
            if r is None {
                assert forall|t: LoanState| s@ != (#[trigger] t.key_spec()) by {
                    match t {
                        LoanState::PendingApproval => {},
                        LoanState::Active => {},
                        LoanState::Paid => {},
                        LoanState::Default => {},
                    }
                }
            }
        }
        r
    }
}

/// A loan issued by the bank to a user.  The borrower makes periodic
/// payments covering both principal and interest.
#[derive(PartialEq, Eq, Debug)]
pub struct Loan {
    pub id: Id,
    /// Id of the borrowing user.
    pub user_id: Id,
    /// Unique name of the vault the loan funds are drawn from.
    pub vault_name: String,
    /// The amount to be repaid over the lifetime of the loan.
    pub orig_principal: Amount,
    /// Equals original principal plus capitalized interest minus all
    /// principal and interest payments made; never negative.
    pub balance: Amount,
    /// The interest rate in basis points (hundredths of one percent):
    /// 2% is 200 basis points.
    pub interest_rate: i16,
    /// The date the loan is issued and begins accruing interest.
    pub issue_date: Date,
    /// The date the final payment is due.
    pub maturity_date: Date,
    /// Number of months between payments.
    pub payment_frequency: i16,
    /// Number of months between compoundings, at which unpaid accrued
    /// interest is capitalized into the balance.
    pub compound_frequency: i16,
    /// Interest accrued in the current period, not yet folded into the
    /// balance or paid.
    pub accrued_interest: Amount,
    /// Total interest capitalized into the balance so far.
    pub capitalized_interest: Amount,
    pub state: LoanState,
}

impl Clone for Loan {
    fn clone(&self) -> (r: Self)
        ensures
            r == *self,
    {
        Loan {
            id: self.id,
            user_id: self.user_id,
            vault_name: self.vault_name.clone(),
            orig_principal: self.orig_principal,
            balance: self.balance,
            interest_rate: self.interest_rate,
            issue_date: self.issue_date,
            maturity_date: self.maturity_date,
            payment_frequency: self.payment_frequency,
            compound_frequency: self.compound_frequency,
            accrued_interest: self.accrued_interest,
            capitalized_interest: self.capitalized_interest,
            state: self.state,
        }
    }
}

impl Loan {
    /// The loan's amounts are in range and its balance is not negative.
    pub open spec fn wf(self) -> bool {
        &&& self.orig_principal.wf()
        &&& self.balance.wf()
        &&& self.balance@ >= 0
        &&& self.accrued_interest.wf()
        &&& self.capitalized_interest.wf()
    }

    /// The interest rate as an exact amount: `interest_rate` basis
    /// points of one currency unit, i.e. the rate fraction.
    pub fn interest_rate(&self) -> (r: Amount)
        ensures
            r@ == self.interest_rate as int,
            r.wf(),
    {
        Amount::from_units(self.interest_rate as i128)
    }

    /// Whole months from `curr_date` to the maturity date, days
    /// ignored.
    pub fn months_til_maturity(&self, curr_date: Date) -> (r: u16)
        requires
            0 <= months_between(curr_date, self.maturity_date) <= u16::MAX,
        ensures
            r as int == months_between(curr_date, self.maturity_date),
    {
        let years: i64 = (self.maturity_date.year as i64) - (curr_date.year as i64);
        let months: i64 = years * 12 + (self.maturity_date.month as i64)
            - (curr_date.month as i64);
        months as u16
    }

    /// The principal installment for one pay period: the current
    /// balance divided by the months left to maturity at `curr_date`,
    /// scaled by the payment frequency.
    pub fn principal_due(&self, curr_date: Date) -> (r: Amount)
        requires
            self.balance.wf(),
            self.balance@ >= 0,
            1 <= months_between(curr_date, self.maturity_date) <= u16::MAX,
        ensures
            r@ == rounded_div(self.balance@, months_between(curr_date, self.maturity_date))
                * self.payment_frequency,
            self.payment_frequency >= 0 ==> 0 <= r@ <= self.balance@ * self.payment_frequency,
    {
        let months_til_maturity = self.months_til_maturity(curr_date);
        let per_month = self.balance.div_int(months_til_maturity);
        proof {
            crate::amount::lemma_rounded_div_bounds(
                self.balance@,
                months_between(curr_date, self.maturity_date),
            );
        }
        let r = per_month.times_int(self.payment_frequency);
        proof {
            let m = months_between(curr_date, self.maturity_date);
            if self.payment_frequency >= 0 {
                assert(0 <= rounded_div(self.balance@, m) * self.payment_frequency <= self.balance@
                    * self.payment_frequency) by (nonlinear_arith)
                    requires
                        0 <= rounded_div(self.balance@, m) <= self.balance@,
                        self.payment_frequency >= 0,
                ;
            }
        }
        r
    }
}

/// What a caller supplies to issue a loan.  Accrued and capitalized
/// interest start at zero.
pub struct NewLoan {
    pub user_id: Id,
    pub vault_name: String,
    pub orig_principal: Amount,
    pub balance: Amount,
    pub interest_rate: i16,
    pub issue_date: Date,
    pub maturity_date: Date,
    pub payment_frequency: i16,
    pub compound_frequency: i16,
    pub state: LoanState,
}

/// Whether `s` holds a loan with the given id.
pub open spec fn spec_has_loan(s: Seq<Loan>, id: Id) -> bool {
    exists|i: int| 0 <= i < s.len() && s[i].id == id
}

/// Index of the loan with the given id.
pub open spec fn spec_loan_index(s: Seq<Loan>, id: Id) -> int {
    choose|i: int| 0 <= i < s.len() && s[i].id == id
}

/// The loan with the given id.
pub open spec fn spec_loan(s: Seq<Loan>, id: Id) -> Loan {
    s[spec_loan_index(s, id)]
}

/// The store of loans.
pub struct Repo {
    loans: Vec<Loan>,
}

impl View for Repo {
    type V = Seq<Loan>;

    closed spec fn view(&self) -> Seq<Loan> {
        self.loans@
    }
}

impl Repo {
    /// Well-formed store: ids are unique and every loan is well formed.
    pub open spec fn wf(self) -> bool {
        &&& forall|i: int, j: int|
            0 <= i < j < self@.len() ==> (#[trigger] self@[i]).id != (#[trigger] self@[j]).id
        &&& forall|i: int| 0 <= i < self@.len() ==> (#[trigger] self@[i]).wf()
    }

    /// An empty store.
    pub fn new() -> (r: Repo)
        ensures
            r@.len() == 0,
            r.wf(),
    {
        Repo { loans: Vec::new() }
    }

    /// Whether a loan with this id exists.
    fn contains_id(&self, id: Id) -> (r: bool)
        ensures
            r == spec_has_loan(self@, id),
    {
        let n = self.loans.len();
        let mut i: usize = 0;
        while i < n
            invariant
                0 <= i <= n,
                n == self@.len(),
                forall|j: int| 0 <= j < i ==> (#[trigger] self@[j]).id != id,
            decreases n - i,
        {
            if self.loans[i].id == id {
                return true;
            }
            i += 1;
        }
        false
    }

    /// Issues a loan under a freshly drawn id; accrued and capitalized
    /// interest start at zero.  The id decides the outcome: on the
    /// (practically impossible) collision the store is left unchanged
    /// and the conflict is reported.
    pub fn create(&mut self, new_loan: NewLoan) -> (r: Result<Loan, db::Error>)
        requires
            old(self).wf(),
            new_loan.orig_principal.wf(),
            new_loan.balance.wf(),
            new_loan.balance@ >= 0,
        ensures
            final(self).wf(),
            match r {
                Ok(l) => {
                    &&& !spec_has_loan(old(self)@, l.id)
                    &&& l.user_id == new_loan.user_id
                    &&& l.vault_name@ == new_loan.vault_name@
                    &&& l.orig_principal == new_loan.orig_principal
                    &&& l.balance == new_loan.balance
                    &&& l.interest_rate == new_loan.interest_rate
                    &&& l.issue_date == new_loan.issue_date
                    &&& l.maturity_date == new_loan.maturity_date
                    &&& l.payment_frequency == new_loan.payment_frequency
                    &&& l.compound_frequency == new_loan.compound_frequency
                    &&& l.accrued_interest@ == 0
                    &&& l.capitalized_interest@ == 0
                    &&& l.state == new_loan.state
                    &&& final(self)@ == old(self)@.push(l)
                },
                Err(e) => e == db::Error::RecordAlreadyExists && final(self)@ == old(self)@
                    && old(self)@.len() > 0,
            },
    {
        let id = new_id();
        if self.contains_id(id) {
            return Err(db::Error::RecordAlreadyExists);
        }
        let loan = Loan {
            id,
            user_id: new_loan.user_id,
            vault_name: new_loan.vault_name,
            orig_principal: new_loan.orig_principal,
            balance: new_loan.balance,
            interest_rate: new_loan.interest_rate,
            issue_date: new_loan.issue_date,
            maturity_date: new_loan.maturity_date,
            payment_frequency: new_loan.payment_frequency,
            compound_frequency: new_loan.compound_frequency,
            accrued_interest: Amount::zero(),
            capitalized_interest: Amount::zero(),
            state: new_loan.state,
        };
        let out = loan.clone();
        self.loans.push(loan);
        Ok(out)
    }

    /// The loan with the given id, or `RecordNotFound`.
    #[verifier::loop_isolation(false)]
    pub fn find_by_id(&self, id: Id) -> (r: Result<Loan, db::Error>)
        requires
            self.wf(),
        ensures
            match r {
                Ok(l) => spec_has_loan(self@, id) && l == spec_loan(self@, id),
                Err(e) => e == db::Error::RecordNotFound && !spec_has_loan(self@, id),
            },
    {
        let n = self.loans.len();
        let mut i: usize = 0;
        while i < n
            invariant
                forall|j: int| 0 <= j < i ==> (#[trigger] self@[j]).id != id,
                i <= n,
            decreases n - i,
        {
            if self.loans[i].id == id {
                proof {
                    lemma_loan_index_identifies(self@, id, i as int);
                }
                return Ok(self.loans[i].clone());
            }
            i += 1;
        }
        Err(db::Error::RecordNotFound)
    }

    /// Sets the state of the loan, leaving everything else unchanged.
    #[verifier::loop_isolation(false)]
    pub fn set_state(&mut self, id: Id, state: LoanState) -> (r: Result<Loan, db::Error>)
        requires
            old(self).wf(),
        ensures
            final(self).wf(),
            match r {
                Ok(l) => {
                    &&& spec_has_loan(old(self)@, id)
                    &&& l == (Loan { state, ..spec_loan(old(self)@, id) })
                    &&& final(self)@ == old(self)@.update(spec_loan_index(old(self)@, id), l)
                },
                Err(e) => e == db::Error::RecordNotFound && !spec_has_loan(old(self)@, id)
                    && final(self)@ == old(self)@,
            },
    {
        let n = self.loans.len();
        let mut i: usize = 0;
        while i < n
            invariant
                forall|j: int| 0 <= j < i ==> (#[trigger] self@[j]).id != id,
                i <= n,
                self@ == old(self)@,
            decreases n - i,
        {
            if self.loans[i].id == id {
                proof {
                    lemma_loan_index_identifies(self@, id, i as int);
                }
                let found = self.loans[i].clone();
                let updated = Loan { state, ..found };
                let out = updated.clone();
                self.loans[i] = updated;
                return Ok(out);
            }
            i += 1;
        }
        Err(db::Error::RecordNotFound)
    }

    /// Replaces the accrued interest of the loan, leaving everything
    /// else unchanged.
    #[verifier::loop_isolation(false)]
    pub fn set_accrued_interest(&mut self, id: Id, accrued_interest: &Amount) -> (r: Result<
        Loan,
        db::Error,
    >)
        requires
            old(self).wf(),
            accrued_interest.wf(),
        ensures
            final(self).wf(),
            match r {
                Ok(l) => {
                    &&& spec_has_loan(old(self)@, id)
                    &&& l == (Loan {
                        accrued_interest: *accrued_interest,
                        ..spec_loan(old(self)@, id)
                    })
                    &&& final(self)@ == old(self)@.update(spec_loan_index(old(self)@, id), l)
                },
                Err(e) => e == db::Error::RecordNotFound && !spec_has_loan(old(self)@, id)
                    && final(self)@ == old(self)@,
            },
    {
        let n = self.loans.len();
        let mut i: usize = 0;
        while i < n
            invariant
                forall|j: int| 0 <= j < i ==> (#[trigger] self@[j]).id != id,
                i <= n,
                self@ == old(self)@,
            decreases n - i,
        {
            if self.loans[i].id == id {
                proof {
                    lemma_loan_index_identifies(self@, id, i as int);
                }
                let found = self.loans[i].clone();
                let updated = Loan { accrued_interest: *accrued_interest, ..found };
                let out = updated.clone();
                self.loans[i] = updated;
                return Ok(out);
            }
            i += 1;
        }
        Err(db::Error::RecordNotFound)
    }

    /// Settles `amount` against the loan in one step: folds the accrued
    /// interest into the balance, subtracts the payment, and resets the
    /// accrual to zero.  The caller must know the result stays in range
    /// and non-negative.
    #[verifier::loop_isolation(false)]
    pub fn decrement(&mut self, id: Id, amount: &Amount) -> (r: Result<Loan, db::Error>)
        requires
            old(self).wf(),
            amount.wf(),
            spec_has_loan(old(self)@, id) ==> 0 <= spec_loan(old(self)@, id).balance@ + spec_loan(
                old(self)@,
                id,
            ).accrued_interest@ - amount@ <= crate::amount::AMOUNT_LIMIT as int,
        ensures
            final(self).wf(),
            match r {
                Ok(l) => {
                    &&& spec_has_loan(old(self)@, id)
                    &&& l.balance@ == spec_loan(old(self)@, id).balance@ + spec_loan(
                        old(self)@,
                        id,
                    ).accrued_interest@ - amount@
                    &&& l.accrued_interest@ == 0
                    &&& l == (Loan {
                        balance: l.balance,
                        accrued_interest: l.accrued_interest,
                        ..spec_loan(old(self)@, id)
                    })
                    &&& final(self)@ == old(self)@.update(spec_loan_index(old(self)@, id), l)
                },
                Err(e) => e == db::Error::RecordNotFound && !spec_has_loan(old(self)@, id)
                    && final(self)@ == old(self)@,
            },
    {
        let n = self.loans.len();
        let mut i: usize = 0;
        while i < n
            invariant
                forall|j: int| 0 <= j < i ==> (#[trigger] self@[j]).id != id,
                i <= n,
                self@ == old(self)@,
            decreases n - i,
        {
            if self.loans[i].id == id {
                proof {
                    lemma_loan_index_identifies(self@, id, i as int);
                }
                let found = self.loans[i].clone();
                let new_units = found.balance.units() + found.accrued_interest.units()
                    - amount.units();
                let updated = Loan {
                    balance: Amount::from_units(new_units),
                    accrued_interest: Amount::zero(),
                    ..found
                };
                let out = updated.clone();
                self.loans[i] = updated;
                return Ok(out);
            }
            i += 1;
        }
        Err(db::Error::RecordNotFound)
    }
}

/// A payment due on a loan.  It is unpaid while both transaction ids
/// are absent and paid once settlement stamps both in one step; one is
/// never set without the other.
#[derive(Clone, Copy, PartialEq, Eq, Structural, Debug)]
pub struct LoanPayment {
    pub id: Id,
    pub loan_id: Id,
    pub principal_due: Amount,
    pub interest_due: Amount,
    pub due_date: Date,
    /// Id of the principal repayment transaction.
    pub principle_transaction_id: Option<Id>,
    /// Id of the interest repayment transaction.
    pub interest_transaction_id: Option<Id>,
}

/// What a caller supplies to schedule a payment.
#[derive(Clone, Copy, Debug)]
pub struct NewPayment {
    pub loan_id: Id,
    pub principal_due: Amount,
    pub interest_due: Amount,
    pub due_date: Date,
}

/// Whether both settlement transactions are absent.
pub open spec fn spec_is_unpaid(p: LoanPayment) -> bool {
    p.principle_transaction_id is None && p.interest_transaction_id is None
}

/// Whether both settlement transactions are present.
pub open spec fn spec_is_paid(p: LoanPayment) -> bool {
    p.principle_transaction_id is Some && p.interest_transaction_id is Some
}

/// Whether `s` holds a payment with the given id.
pub open spec fn spec_has_payment(s: Seq<LoanPayment>, id: Id) -> bool {
    exists|i: int| 0 <= i < s.len() && s[i].id == id
}

/// Index of the payment with the given id.
pub open spec fn spec_payment_index(s: Seq<LoanPayment>, id: Id) -> int {
    choose|i: int| 0 <= i < s.len() && s[i].id == id
}

/// The payment with the given id.
pub open spec fn spec_payment(s: Seq<LoanPayment>, id: Id) -> LoanPayment {
    s[spec_payment_index(s, id)]
}

/// No payment of the loan is paid.
pub open spec fn spec_no_paid(s: Seq<LoanPayment>, loan_id: Id) -> bool {
    forall|j: int|
        0 <= j < s.len() ==> !((#[trigger] s[j]).loan_id == loan_id && spec_is_paid(s[j]))
}

/// `p` is a paid payment of the loan and no paid payment of the loan
/// has a later due date.
pub open spec fn spec_latest_paid(s: Seq<LoanPayment>, loan_id: Id, p: LoanPayment) -> bool {
    &&& exists|i: int| 0 <= i < s.len() && s[i] == p
    &&& p.loan_id == loan_id
    &&& spec_is_paid(p)
    &&& forall|j: int|
        0 <= j < s.len() && (#[trigger] s[j]).loan_id == loan_id && spec_is_paid(s[j])
            ==> date_le(s[j].due_date, p.due_date)
}

/// The due date the next payment counts from: the latest paid
/// payment's due date, or the issue date when nothing is paid yet.
/// Paid payments sharing the latest due date share it, so the value is
/// determined.
pub open spec fn spec_next_due_base(s: Seq<LoanPayment>, loan: Loan) -> Date {
    if spec_no_paid(s, loan.id) {
        loan.issue_date
    } else {
        (choose|p: LoanPayment| spec_latest_paid(s, loan.id, p)).due_date
    }
}

/// Two latest paid payments share their due date, so
/// [`spec_next_due_base`] names a determined value.
pub proof fn lemma_latest_paid_due_date(s: Seq<LoanPayment>, loan_id: Id, p: LoanPayment)
    requires
        spec_latest_paid(s, loan_id, p),
    ensures
        forall|q: LoanPayment| spec_latest_paid(s, loan_id, q) ==> q.due_date == p.due_date,
{
    assert forall|q: LoanPayment| spec_latest_paid(s, loan_id, q) implies q.due_date
        == p.due_date by {
        let i = choose|i: int| 0 <= i < s.len() && s[i] == q;
        let k = choose|k: int| 0 <= k < s.len() && s[k] == p;
        assert(date_le(s[i].due_date, p.due_date));
        assert(date_le(s[k].due_date, q.due_date));
    }
}

/// A first unpaid payment is one of the loan's stored payments.
pub proof fn lemma_first_unpaid_in(s: Seq<LoanPayment>, loan_id: Id)
    requires
        spec_first_unpaid(s, loan_id) is Some,
    ensures
        exists|i: int|
            0 <= i < s.len() && s[i] == spec_first_unpaid(s, loan_id).unwrap(),
        spec_first_unpaid(s, loan_id).unwrap().loan_id == loan_id,
        spec_is_unpaid(spec_first_unpaid(s, loan_id).unwrap()),
    decreases s.len(),
{
    if s.len() == 0 {
    } else if s[0].loan_id == loan_id && spec_is_unpaid(s[0]) {
        assert(s[0] == spec_first_unpaid(s, loan_id).unwrap());
    } else {
        lemma_first_unpaid_in(s.skip(1), loan_id);
        let i = choose|i: int|
            0 <= i < s.skip(1).len() && s.skip(1)[i] == spec_first_unpaid(
                s.skip(1),
                loan_id,
            ).unwrap();
        assert(s[i + 1] == s.skip(1)[i]);
    }
}

/// The first unpaid payment of the loan, in store order.
pub open spec fn spec_first_unpaid(s: Seq<LoanPayment>, loan_id: Id) -> Option<LoanPayment>
    decreases s.len(),
{
    if s.len() == 0 {
        None
    } else if s[0].loan_id == loan_id && spec_is_unpaid(s[0]) {
        Some(s[0])
    } else {
        spec_first_unpaid(s.skip(1), loan_id)
    }
}

/// The store of scheduled loan payments.
pub struct PaymentRepo {
    payments: Vec<LoanPayment>,
}

impl View for PaymentRepo {
    type V = Seq<LoanPayment>;

    closed spec fn view(&self) -> Seq<LoanPayment> {
        self.payments@
    }
}

impl PaymentRepo {
    /// Well-formed store: ids are unique and all dues are in range.
    pub open spec fn wf(self) -> bool {
        &&& forall|i: int, j: int|
            0 <= i < j < self@.len() ==> (#[trigger] self@[i]).id != (#[trigger] self@[j]).id
        &&& forall|i: int|
            0 <= i < self@.len() ==> (#[trigger] self@[i]).principal_due.wf()
                && self@[i].interest_due.wf()
    }

    /// An empty store.
    pub fn new() -> (r: PaymentRepo)
        ensures
            r@.len() == 0,
            r.wf(),
    {
        PaymentRepo { payments: Vec::new() }
    }

    /// Number of payments stored.
    pub fn len(&self) -> (r: usize)
        ensures
            r == self@.len(),
    {
        self.payments.len()
    }

    /// The payment at the given store position.
    pub fn get(&self, i: usize) -> (r: Option<LoanPayment>)
        ensures
            match r {
                Some(p) => i < self@.len() && p == self@[i as int],
                None => i >= self@.len(),
            },
    {
        if i < self.payments.len() {
            Some(self.payments[i])
        } else {
            None
        }
    }

    /// Whether a payment with this id exists.
    fn contains_id(&self, id: Id) -> (r: bool)
        ensures
            r == spec_has_payment(self@, id),
    {
        let n = self.payments.len();
        let mut i: usize = 0;
        while i < n
            invariant
                0 <= i <= n,
                n == self@.len(),
                forall|j: int| 0 <= j < i ==> (#[trigger] self@[j]).id != id,
            decreases n - i,
        {
            if self.payments[i].id == id {
                return true;
            }
            i += 1;
        }
        false
    }

    /// Schedules a payment under a freshly drawn id, unpaid.  The id
    /// decides the outcome: on the (practically impossible) collision
    /// the store is left unchanged and the conflict is reported.
    pub fn create(&mut self, new_payment: NewPayment) -> (r: Result<LoanPayment, db::Error>)
        requires
            old(self).wf(),
            new_payment.principal_due.wf(),
            new_payment.interest_due.wf(),
        ensures
            final(self).wf(),
            match r {
                Ok(p) => {
                    &&& !spec_has_payment(old(self)@, p.id)
                    &&& p.loan_id == new_payment.loan_id
                    &&& p.principal_due == new_payment.principal_due
                    &&& p.interest_due == new_payment.interest_due
                    &&& p.due_date == new_payment.due_date
                    &&& spec_is_unpaid(p)
                    &&& final(self)@ == old(self)@.push(p)
                },
                Err(e) => e == db::Error::RecordAlreadyExists && final(self)@ == old(self)@
                    && old(self)@.len() > 0,
            },
    {
        let id = new_id();
        if self.contains_id(id) {
            return Err(db::Error::RecordAlreadyExists);
        }
        let payment = LoanPayment {
            id,
            loan_id: new_payment.loan_id,
            principal_due: new_payment.principal_due,
            interest_due: new_payment.interest_due,
            due_date: new_payment.due_date,
            principle_transaction_id: None,
            interest_transaction_id: None,
        };
        self.payments.push(payment);
        Ok(payment)
    }

    /// The payment with the given id, or `RecordNotFound`.
    #[verifier::loop_isolation(false)]
    pub fn find_by_id(&self, id: Id) -> (r: Result<LoanPayment, db::Error>)
        requires
            self.wf(),
        ensures
            match r {
                Ok(p) => spec_has_payment(self@, id) && p == spec_payment(self@, id),
                Err(e) => e == db::Error::RecordNotFound && !spec_has_payment(self@, id),
            },
    {
        let n = self.payments.len();
        let mut i: usize = 0;
        while i < n
            invariant
                forall|j: int| 0 <= j < i ==> (#[trigger] self@[j]).id != id,
                i <= n,
            decreases n - i,
        {
            if self.payments[i].id == id {
                proof {
                    lemma_payment_index_identifies(self@, id, i as int);
                }
                return Ok(self.payments[i]);
            }
            i += 1;
        }
        Err(db::Error::RecordNotFound)
    }

    /// The first unpaid payment due on the loan, or `RecordNotFound`.
    #[verifier::loop_isolation(false)]
    pub fn find_first_unpaid(&self, loan_id: Id) -> (r: Result<LoanPayment, db::Error>)
        ensures
            match r {
                Ok(p) => spec_first_unpaid(self@, loan_id) == Some(p),
                Err(e) => e == db::Error::RecordNotFound && spec_first_unpaid(self@, loan_id)
                    is None,
            },
    {
        let n = self.payments.len();
        let mut i: usize = 0;
        proof {
            assert(self@.skip(0) =~= self@);
        }
        while i < n
            invariant
                i <= n,
                spec_first_unpaid(self@, loan_id) == spec_first_unpaid(
                    self@.skip(i as int),
                    loan_id,
                ),
            decreases n - i,
        {
            let p = self.payments[i];
            proof {
                assert(self@.skip(i as int)[0] == self@[i as int]);
                assert(self@.skip(i as int).skip(1) =~= self@.skip(i + 1));
            }
            if p.loan_id == loan_id && p.principle_transaction_id.is_none()
                && p.interest_transaction_id.is_none() {
                return Ok(p);
            }
            i += 1;
        }
        proof {
            assert(self@.skip(n as int) =~= Seq::<LoanPayment>::empty());
        }
        Err(db::Error::RecordNotFound)
    }

    /// The paid payment of the loan with the latest due date, or
    /// `RecordNotFound` when no payment of the loan is paid.  Of equal
    /// due dates, the one stored first is returned.
    #[verifier::loop_isolation(false)]
    pub fn find_last_paid(&self, loan_id: Id) -> (r: Result<LoanPayment, db::Error>)
        ensures
            match r {
                Ok(p) => spec_latest_paid(self@, loan_id, p),
                Err(e) => e == db::Error::RecordNotFound && spec_no_paid(self@, loan_id),
            },
    {
        let n = self.payments.len();
        let mut best: Option<usize> = None;
        let mut i: usize = 0;
        while i < n
            invariant
                i <= n,
                match best {
                    Some(b) => {
                        &&& 0 <= b < i
                        &&& self@[b as int].loan_id == loan_id
                        &&& spec_is_paid(self@[b as int])
                        &&& forall|j: int|
                            0 <= j < i && (#[trigger] self@[j]).loan_id == loan_id && spec_is_paid(
                                self@[j],
                            ) ==> date_le(self@[j].due_date, self@[b as int].due_date)
                    },
                    None => forall|j: int|
                        0 <= j < i ==> !((#[trigger] self@[j]).loan_id == loan_id && spec_is_paid(
                            self@[j],
                        )),
                },
            decreases n - i,
        {
            let p = self.payments[i];
            if p.loan_id == loan_id && p.principle_transaction_id.is_some()
                && p.interest_transaction_id.is_some() {
                match best {
                    Some(b) => {
                        let current = self.payments[b];
                        if current.due_date.lt(&p.due_date) {
                            best = Some(i);
                        }
                    },
                    None => {
                        best = Some(i);
                    },
                }
            }
            i += 1;
        }
        match best {
            Some(b) => Ok(self.payments[b]),
            None => Err(db::Error::RecordNotFound),
        }
    }

    /// Stamps both settlement transaction ids onto the payment in one
    /// step, leaving everything else unchanged.
    #[verifier::loop_isolation(false)]
    pub fn set_transaction_ids(
        &mut self,
        id: Id,
        principle_transaction_id: Id,
        interest_transaction_id: Id,
    ) -> (r: Result<LoanPayment, db::Error>)
        requires
            old(self).wf(),
        ensures
            final(self).wf(),
            match r {
                Ok(p) => {
                    &&& spec_has_payment(old(self)@, id)
                    &&& p == (LoanPayment {
                        principle_transaction_id: Some(principle_transaction_id),
                        interest_transaction_id: Some(interest_transaction_id),
                        ..spec_payment(old(self)@, id)
                    })
                    &&& final(self)@ == old(self)@.update(spec_payment_index(old(self)@, id), p)
                },
                Err(e) => e == db::Error::RecordNotFound && !spec_has_payment(old(self)@, id)
                    && final(self)@ == old(self)@,
            },
    {
        let n = self.payments.len();
        let mut i: usize = 0;
        while i < n
            invariant
                forall|j: int| 0 <= j < i ==> (#[trigger] self@[j]).id != id,
                i <= n,
                self@ == old(self)@,
            decreases n - i,
        {
            if self.payments[i].id == id {
                proof {
                    lemma_payment_index_identifies(self@, id, i as int);
                }
                let updated = LoanPayment {
                    principle_transaction_id: Some(principle_transaction_id),
                    interest_transaction_id: Some(interest_transaction_id),
                    ..self.payments[i]
                };
                self.payments[i] = updated;
                return Ok(updated);
            }
            i += 1;
        }
        Err(db::Error::RecordNotFound)
    }

    /// Replaces the principal and interest due on the payment, leaving
    /// everything else unchanged.
    #[verifier::loop_isolation(false)]
    pub fn set_dues(&mut self, id: Id, principal_due: &Amount, interest_due: &Amount) -> (r:
        Result<LoanPayment, db::Error>)
        requires
            old(self).wf(),
            principal_due.wf(),
            interest_due.wf(),
        ensures
            final(self).wf(),
            match r {
                Ok(p) => {
                    &&& spec_has_payment(old(self)@, id)
                    &&& p == (LoanPayment {
                        principal_due: *principal_due,
                        interest_due: *interest_due,
                        ..spec_payment(old(self)@, id)
                    })
                    &&& final(self)@ == old(self)@.update(spec_payment_index(old(self)@, id), p)
                },
                Err(e) => e == db::Error::RecordNotFound && !spec_has_payment(old(self)@, id)
                    && final(self)@ == old(self)@,
            },
    {
        let n = self.payments.len();
        let mut i: usize = 0;
        while i < n
            invariant
                forall|j: int| 0 <= j < i ==> (#[trigger] self@[j]).id != id,
                i <= n,
                self@ == old(self)@,
            decreases n - i,
        {
            if self.payments[i].id == id {
                proof {
                    lemma_payment_index_identifies(self@, id, i as int);
                }
                let updated = LoanPayment {
                    principal_due: *principal_due,
                    interest_due: *interest_due,
                    ..self.payments[i]
                };
                self.payments[i] = updated;
                return Ok(updated);
            }
            i += 1;
        }
        Err(db::Error::RecordNotFound)
    }
}

/// In a store with unique ids, a position holding the id is the
/// position the id selects.
pub proof fn lemma_payment_index_identifies(s: Seq<LoanPayment>, id: Id, i: int)
    requires
        forall|p: int, q: int|
            0 <= p < q < s.len() ==> (#[trigger] s[p]).id != (#[trigger] s[q]).id,
        0 <= i < s.len(),
        s[i].id == id,
    ensures
        spec_has_payment(s, id),
        spec_payment_index(s, id) == i,
        spec_payment(s, id) == s[i],
{
    assert(spec_has_payment(s, id));
    let k = spec_payment_index(s, id);
    if k < i {
        assert(s[k].id != s[i].id);
    } else if k > i {
        assert(s[i].id != s[k].id);
    }
}

/// In a store with unique ids, a position holding the id is the
/// position the id selects.
pub proof fn lemma_loan_index_identifies(s: Seq<Loan>, id: Id, i: int)
    requires
        forall|p: int, q: int|
            0 <= p < q < s.len() ==> (#[trigger] s[p]).id != (#[trigger] s[q]).id,
        0 <= i < s.len(),
        s[i].id == id,
    ensures
        spec_has_loan(s, id),
        spec_loan_index(s, id) == i,
        spec_loan(s, id) == s[i],
{
    assert(spec_has_loan(s, id));
    let k = spec_loan_index(s, id);
    if k < i {
        assert(s[k].id != s[i].id);
    } else if k > i {
        assert(s[i].id != s[k].id);
    }
}

} // verus!
