//! The account-transaction log: immutable records of transfers between
//! two user accounts (of different users or of the same user).
use vstd::prelude::*;

use crate::amount::Amount;
use crate::db;
use crate::types::{new_id, Date, Id};

verus! {

/// A transfer between two user accounts.  Records are append-only:
/// once written they are never changed or removed.
#[derive(Clone, Copy, PartialEq, Eq, Structural, Debug)]
pub struct AccountTransaction {
    pub id: Id,
    /// Sender's account id.
    pub sender_id: Id,
    /// Receiver's account id.
    pub receiver_id: Id,
    pub amount: Amount,
    pub created_at: Date,
}

/// What a caller supplies to log a transfer.
#[derive(Clone, Copy, Debug)]
pub struct NewAccountTransaction {
    pub sender_id: Id,
    pub receiver_id: Id,
    pub amount: Amount,
    pub created_at: Date,
}

/// Whether `s` holds a record with the given id.
pub open spec fn spec_has_account_transaction(s: Seq<AccountTransaction>, id: Id) -> bool {
    exists|i: int| 0 <= i < s.len() && s[i].id == id
}

/// The append-only store of account transactions.
pub struct Repo {
    transactions: Vec<AccountTransaction>,
}

impl View for Repo {
    type V = Seq<AccountTransaction>;

    closed spec fn view(&self) -> Seq<AccountTransaction> {
        self.transactions@
    }
}

impl Repo {
    /// Well-formed log: ids are unique.
    pub open spec fn wf(self) -> bool {
        forall|i: int, j: int|
            0 <= i < j < self@.len() ==> (#[trigger] self@[i]).id != (#[trigger] self@[j]).id
    }

    /// An empty log.
    pub fn new() -> (r: Repo)
        ensures
            r@.len() == 0,
            r.wf(),
    {
        Repo { transactions: Vec::new() }
    }

    /// Whether a record with this id exists.
    fn contains_id(&self, id: Id) -> (r: bool)
        ensures
            r == spec_has_account_transaction(self@, id),
    {
        let n = self.transactions.len();
        let mut i: usize = 0;
        while i < n
            invariant
                0 <= i <= n,
                n == self@.len(),
                forall|j: int| 0 <= j < i ==> (#[trigger] self@[j]).id != id,
            decreases n - i,
        {
            if self.transactions[i].id == id {
                return true;
            }
            i += 1;
        }
        false
    }

    /// Appends one record under a freshly drawn id.  The id decides the
    /// outcome: on the (practically impossible) collision the log is
    /// left unchanged and the conflict is reported.
    pub fn create(&mut self, new_transaction: NewAccountTransaction) -> (r: Result<
        AccountTransaction,
        db::Error,
    >)
        requires
            old(self).wf(),
        ensures
            final(self).wf(),
            match r {
                Ok(t) => {
                    &&& !spec_has_account_transaction(old(self)@, t.id)
                    &&& t.sender_id == new_transaction.sender_id
                    &&& t.receiver_id == new_transaction.receiver_id
                    &&& t.amount == new_transaction.amount
                    &&& t.created_at == new_transaction.created_at
                    &&& final(self)@ == old(self)@.push(t)
                },
                Err(e) => e == db::Error::RecordAlreadyExists && final(self)@ == old(self)@
                    && old(self)@.len() > 0,
            },
    {
        let id = new_id();
        if self.contains_id(id) {
            return Err(db::Error::RecordAlreadyExists);
        }
        let transaction = AccountTransaction {
            id,
            sender_id: new_transaction.sender_id,
            receiver_id: new_transaction.receiver_id,
            amount: new_transaction.amount,
            created_at: new_transaction.created_at,
        };
        self.transactions.push(transaction);
        Ok(transaction)
    }
}

} // verus!
