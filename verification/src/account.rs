//! User accounts and their store.
use vstd::prelude::*;

use crate::amount::{Amount, AMOUNT_LIMIT};
use crate::db;
use crate::types::{new_id, Date, Id};

verus! {

/// The kind of a user account.
#[derive(Clone, Copy, PartialEq, Eq, Structural, Debug)]
pub enum AccountType {
    Checking,
    Savings,
}

impl AccountType {
    /// The canonical lowercase-snake name used at the persistence
    /// boundary.
    pub open spec fn key_spec(self) -> Seq<char> {
        match self {
            AccountType::Checking => "checking"@,
            AccountType::Savings => "savings"@,
        }
    }

    /// Canonical name of the kind.
    pub fn to_key(&self) -> (r: String)
        ensures
            r@ == self.key_spec(),
    {
        match self {
            AccountType::Checking => "checking".to_owned(),
            AccountType::Savings => "savings".to_owned(),
        }
    }

    /// The kind named by `s`; `None` when `s` names no kind.
    pub fn from_key(s: &str) -> (r: Option<AccountType>)
        ensures
            match r {
                Some(t) => s@ == t.key_spec(),
                None => s@ != AccountType::Checking.key_spec() && s@
                    != AccountType::Savings.key_spec(),
            },
    {
        let key = s.to_owned();
        if key == "checking".to_owned() {
            Some(AccountType::Checking)
        } else if key == "savings".to_owned() {
            Some(AccountType::Savings)
        } else {
            None
        }
    }
}

/// A user's account: holds funds managed by the bank on the user's
/// behalf.  A user may have several accounts.
#[derive(Clone, Copy, PartialEq, Eq, Structural, Debug)]
pub struct Account {
    pub id: Id,
    /// The account owner's user id.
    pub user_id: Id,
    pub account_type: AccountType,
    /// The account balance.
    pub amount: Amount,
    pub created_at: Date,
    /// Whether the account is currently open for use.
    pub is_open: bool,
}

/// What a caller supplies to open an account.
#[derive(Clone, Copy, Debug)]
pub struct NewAccount {
    pub user_id: Id,
    pub account_type: AccountType,
    pub created_at: Date,
}

/// Whether `s` holds an account with the given id.
pub open spec fn spec_has_account(s: Seq<Account>, id: Id) -> bool {
    exists|i: int| 0 <= i < s.len() && s[i].id == id
}

/// Index of the account with the given id.
pub open spec fn spec_account_index(s: Seq<Account>, id: Id) -> int {
    choose|i: int| 0 <= i < s.len() && s[i].id == id
}

/// The account with the given id.
pub open spec fn spec_account(s: Seq<Account>, id: Id) -> Account {
    s[spec_account_index(s, id)]
}

/// The accounts owned by `user_id`, in store order.
pub open spec fn spec_user_accounts(s: Seq<Account>, user_id: Id) -> Seq<Account>
    decreases s.len(),
{
    if s.len() == 0 {
        Seq::empty()
    } else if s.last().user_id == user_id {
        spec_user_accounts(s.drop_last(), user_id).push(s.last())
    } else {
        spec_user_accounts(s.drop_last(), user_id)
    }
}

/// The store of accounts.
pub struct Repo {
    accounts: Vec<Account>,
}

impl View for Repo {
    type V = Seq<Account>;

    closed spec fn view(&self) -> Seq<Account> {
        self.accounts@
    }
}

impl Repo {
    /// Well-formed store: ids are unique and every balance is in range.
    pub open spec fn wf(self) -> bool {
        &&& forall|i: int, j: int|
            0 <= i < j < self@.len() ==> (#[trigger] self@[i]).id != (#[trigger] self@[j]).id
        &&& forall|i: int| 0 <= i < self@.len() ==> (#[trigger] self@[i]).amount.wf()
    }

    /// An empty store.
    pub fn new() -> (r: Repo)
        ensures
            r@.len() == 0,
            r.wf(),
    {
        Repo { accounts: Vec::new() }
    }

    /// Whether an account with this id exists.
    fn contains_id(&self, id: Id) -> (r: bool)
        ensures
            r == spec_has_account(self@, id),
    {
        let n = self.accounts.len();
        let mut i: usize = 0;
        while i < n
            invariant
                0 <= i <= n,
                n == self@.len(),
                forall|j: int| 0 <= j < i ==> (#[trigger] self@[j]).id != id,
            decreases n - i,
        {
            if self.accounts[i].id == id {
                return true;
            }
            i += 1;
        }
        false
    }

    /// Opens a new account with a zero balance for the given user.
    ///
    /// The freshly drawn id decides the outcome: on the (practically
    /// impossible) collision with an existing id the store is left
    /// unchanged and the conflict is reported.
    pub fn create_account(&mut self, new_account: NewAccount) -> (r: Result<Account, db::Error>)
        requires
            old(self).wf(),
        ensures
            final(self).wf(),
            match r {
                Ok(a) => {
                    &&& !spec_has_account(old(self)@, a.id)
                    &&& a.user_id == new_account.user_id
                    &&& a.account_type == new_account.account_type
                    &&& a.created_at == new_account.created_at
                    &&& a.amount@ == 0
                    &&& a.is_open == true
                    &&& final(self)@ == old(self)@.push(a)
                },
                Err(e) => e == db::Error::RecordAlreadyExists && final(self)@ == old(self)@
                    && old(self)@.len() > 0,
            },
    {
        let id = new_id();
        if self.contains_id(id) {
            return Err(db::Error::RecordAlreadyExists);
        }
        let account = Account {
            id,
            user_id: new_account.user_id,
            account_type: new_account.account_type,
            amount: Amount::zero(),
            created_at: new_account.created_at,
            is_open: true,
        };
        self.accounts.push(account);
        Ok(account)
    }

    /// All accounts owned by the given user, in store order.
    pub fn find_accounts(&self, user_id: Id) -> (r: Result<Vec<Account>, db::Error>)
        ensures
            match r {
                Ok(v) => v@ == spec_user_accounts(self@, user_id),
                Err(_) => false,
            },
    {
        let n = self.accounts.len();
        let mut out: Vec<Account> = Vec::new();
        let mut i: usize = 0;
        while i < n
            invariant
                0 <= i <= n,
                n == self@.len(),
                out@ == spec_user_accounts(self@.take(i as int), user_id),
            decreases n - i,
        {
            proof {
                assert(self@.take(i + 1).drop_last() =~= self@.take(i as int));
                assert(self@.take(i + 1).last() == self@[i as int]);
            }
            if self.accounts[i].user_id == user_id {
                out.push(self.accounts[i]);
            }
            i += 1;
        }
        proof {
            assert(self@.take(n as int) =~= self@);
        }
        Ok(out)
    }

    /// The account with the given id, or `RecordNotFound`.
    pub fn find_by_id(&self, account_id: Id) -> (r: Result<Account, db::Error>)
        requires
            self.wf(),
        ensures
            match r {
                Ok(a) => spec_has_account(self@, account_id) && a == spec_account(
                    self@,
                    account_id,
                ),
                Err(e) => e == db::Error::RecordNotFound && !spec_has_account(self@, account_id),
            },
    {
        let n = self.accounts.len();
        let mut i: usize = 0;
        while i < n
            invariant
                0 <= i <= n,
                n == self@.len(),
                self.wf(),
                forall|j: int| 0 <= j < i ==> (#[trigger] self@[j]).id != account_id,
            decreases n - i,
        {
            if self.accounts[i].id == account_id {
                proof {
                    lemma_index_identifies(self@, account_id, i as int);
                }
                return Ok(self.accounts[i]);
            }
            i += 1;
        }
        Err(db::Error::RecordNotFound)
    }

    /// Adds `amount` to the balance of the given account.
    pub fn increment(&mut self, account_id: Id, amount: &Amount) -> (r: Result<
        Account,
        db::Error,
    >)
        requires
            old(self).wf(),
            amount.wf(),
            spec_has_account(old(self)@, account_id) ==> -(AMOUNT_LIMIT as int) <= spec_account(
                old(self)@,
                account_id,
            ).amount@ + amount@ <= AMOUNT_LIMIT as int,
        ensures
            final(self).wf(),
            spec_transact_holds(old(self)@, final(self)@, account_id, amount@, r),
    {
        self.transact(account_id, amount)
    }

    /// Subtracts `amount` from the balance of the given account.
    pub fn decrement(&mut self, account_id: Id, amount: &Amount) -> (r: Result<
        Account,
        db::Error,
    >)
        requires
            old(self).wf(),
            amount.wf(),
            spec_has_account(old(self)@, account_id) ==> -(AMOUNT_LIMIT as int) <= spec_account(
                old(self)@,
                account_id,
            ).amount@ - amount@ <= AMOUNT_LIMIT as int,
        ensures
            final(self).wf(),
            spec_transact_holds(old(self)@, final(self)@, account_id, -amount@, r),
    {
        let neg = amount.neg();
        self.transact(account_id, &neg)
    }

    /// Atomic read-modify-write of one account's balance.
    fn transact(&mut self, account_id: Id, amount: &Amount) -> (r: Result<Account, db::Error>)
        requires
            old(self).wf(),
            amount.wf(),
            spec_has_account(old(self)@, account_id) ==> -(AMOUNT_LIMIT as int) <= spec_account(
                old(self)@,
                account_id,
            ).amount@ + amount@ <= AMOUNT_LIMIT as int,
        ensures
            final(self).wf(),
            spec_transact_holds(old(self)@, final(self)@, account_id, amount@, r),
    {
        let n = self.accounts.len();
        let mut i: usize = 0;
        while i < n
            invariant
                0 <= i <= n,
                n == self@.len(),
                self.wf(),
                self@ == old(self)@,
                amount.wf(),
                spec_has_account(old(self)@, account_id) ==> -(AMOUNT_LIMIT as int)
                    <= spec_account(old(self)@, account_id).amount@ + amount@ <= AMOUNT_LIMIT
                    as int,
                forall|j: int| 0 <= j < i ==> (#[trigger] self@[j]).id != account_id,
            decreases n - i,
        {
            if self.accounts[i].id == account_id {
                proof {
                    lemma_index_identifies(self@, account_id, i as int);
                }
                let found = self.accounts[i];
                let updated = Account { amount: found.amount.add(amount), ..found };
                self.accounts[i] = updated;
                return Ok(updated);
            }
            i += 1;
        }
        Err(db::Error::RecordNotFound)
    }
}

/// What a balance update of `delta` on `account_id` did: on success the
/// one account's balance moved by `delta` and nothing else changed; a
/// missing account leaves the store unchanged.
pub open spec fn spec_transact_holds(
    pre: Seq<Account>,
    post: Seq<Account>,
    account_id: Id,
    delta: int,
    r: Result<Account, db::Error>,
) -> bool {
    match r {
        Ok(a) => {
            &&& spec_has_account(pre, account_id)
            &&& a.id == account_id
            &&& a.user_id == spec_account(pre, account_id).user_id
            &&& a.account_type == spec_account(pre, account_id).account_type
            &&& a.created_at == spec_account(pre, account_id).created_at
            &&& a.is_open == spec_account(pre, account_id).is_open
            &&& a.amount@ == spec_account(pre, account_id).amount@ + delta
            &&& post == pre.update(spec_account_index(pre, account_id), a)
        },
        Err(e) => e == db::Error::RecordNotFound && !spec_has_account(pre, account_id) && post
            == pre,
    }
}

/// In a store with unique ids, a position holding the id is the position
/// the id selects.
pub proof fn lemma_index_identifies(s: Seq<Account>, id: Id, i: int)
    requires
        forall|p: int, q: int| 0 <= p < q < s.len() ==> (#[trigger] s[p]).id != (#[trigger] s[q]).id,
        0 <= i < s.len(),
        s[i].id == id,
    ensures
        spec_has_account(s, id),
        spec_account_index(s, id) == i,
        spec_account(s, id) == s[i],
{
    assert(spec_has_account(s, id));
    let k = spec_account_index(s, id);
    if k < i {
        assert(s[k].id != s[i].id);
    } else if k > i {
        assert(s[i].id != s[k].id);
    }
}

} // verus!
