//! Bank-side vaults and their store.
//!
//! A vault is a reserve pool owned by the bank, keyed by a unique name.
//! Funds move between vaults and user accounts on every deposit,
//! withdrawal, loan disbursement and loan repayment.
use vstd::prelude::*;

use crate::amount::{Amount, AMOUNT_LIMIT};
use crate::db;

verus! {

/// Funds stored by the bank under a unique name.
#[derive(PartialEq, Eq, Debug)]
pub struct Vault {
    pub name: String,
    pub amount: Amount,
}

impl Clone for Vault {
    fn clone(&self) -> (r: Self)
        ensures
            r == *self,
    {
        Vault { name: self.name.clone(), amount: self.amount }
    }
}

/// What a caller supplies to create a vault.
#[derive(Clone, Copy, Debug)]
pub struct NewVault<'a> {
    pub name: &'a str,
    pub initial_amount: Amount,
}

/// Whether `s` holds a vault with the given name.
pub open spec fn spec_has_vault(s: Seq<Vault>, name: Seq<char>) -> bool {
    exists|i: int| 0 <= i < s.len() && s[i].name@ == name
}

/// Index of the vault with the given name.
pub open spec fn spec_vault_index(s: Seq<Vault>, name: Seq<char>) -> int {
    choose|i: int| 0 <= i < s.len() && s[i].name@ == name
}

/// The vault with the given name.
pub open spec fn spec_vault(s: Seq<Vault>, name: Seq<char>) -> Vault {
    s[spec_vault_index(s, name)]
}

/// What a balance update of `delta` on the vault `name` did: on success
/// that one vault's balance moved by `delta` and nothing else changed; a
/// missing vault leaves the store unchanged.
pub open spec fn spec_vault_transact_holds(
    pre: Seq<Vault>,
    post: Seq<Vault>,
    name: Seq<char>,
    delta: int,
    r: Result<Vault, db::Error>,
) -> bool {
    match r {
        Ok(v) => {
            &&& spec_has_vault(pre, name)
            &&& v.name@ == name
            &&& v.amount@ == spec_vault(pre, name).amount@ + delta
            &&& post == pre.update(spec_vault_index(pre, name), v)
        },
        Err(e) => e == db::Error::RecordNotFound && !spec_has_vault(pre, name) && post == pre,
    }
}

/// The store of vaults.
pub struct Repo {
    vaults: Vec<Vault>,
}

impl View for Repo {
    type V = Seq<Vault>;

    closed spec fn view(&self) -> Seq<Vault> {
        self.vaults@
    }
}

impl Repo {
    /// Well-formed store: names are unique and every balance is in
    /// range.
    pub open spec fn wf(self) -> bool {
        &&& forall|i: int, j: int|
            0 <= i < j < self@.len() ==> (#[trigger] self@[i]).name@ != (#[trigger] self@[j]).name@
        &&& forall|i: int| 0 <= i < self@.len() ==> (#[trigger] self@[i]).amount.wf()
    }

    /// An empty store.
    pub fn new() -> (r: Repo)
        ensures
            r@.len() == 0,
            r.wf(),
    {
        Repo { vaults: Vec::new() }
    }

    /// Creates a vault holding `initial_amount`; a duplicate name is a
    /// conflict and leaves the store unchanged.
    pub fn create(&mut self, new_vault: NewVault<'_>) -> (r: Result<Vault, db::Error>)
        requires
            old(self).wf(),
            new_vault.initial_amount.wf(),
        ensures
            final(self).wf(),
            match r {
                Ok(v) => {
                    &&& !spec_has_vault(old(self)@, new_vault.name@)
                    &&& v.name@ == new_vault.name@
                    &&& v.amount == new_vault.initial_amount
                    &&& final(self)@ == old(self)@.push(v)
                },
                Err(e) => e == db::Error::RecordAlreadyExists && spec_has_vault(
                    old(self)@,
                    new_vault.name@,
                ) && final(self)@ == old(self)@,
            },
    {
        match self.find_index(new_vault.name) {
            Some(_) => Err(db::Error::RecordAlreadyExists),
            None => {
                let vault = Vault {
                    name: new_vault.name.to_owned(),
                    amount: new_vault.initial_amount,
                };
                let out = vault.clone();
                self.vaults.push(vault);
                Ok(out)
            },
        }
    }

    /// The vault with the given name, or `RecordNotFound`.
    pub fn find_by_name(&self, name: &str) -> (r: Result<Vault, db::Error>)
        requires
            self.wf(),
        ensures
            match r {
                Ok(v) => spec_has_vault(self@, name@) && v == spec_vault(self@, name@),
                Err(e) => e == db::Error::RecordNotFound && !spec_has_vault(self@, name@),
            },
    {
        match self.find_index(name) {
            Some(i) => {
                proof {
                    lemma_vault_index_identifies(self@, name@, i as int);
                }
                Ok(self.vaults[i].clone())
            },
            None => Err(db::Error::RecordNotFound),
        }
    }

    /// Adds `amount` to the balance of the named vault.
    pub fn increment(&mut self, vault_name: &str, amount: &Amount) -> (r: Result<Vault, db::Error>)
        requires
            old(self).wf(),
            amount.wf(),
            spec_has_vault(old(self)@, vault_name@) ==> -(AMOUNT_LIMIT as int) <= spec_vault(
                old(self)@,
                vault_name@,
            ).amount@ + amount@ <= AMOUNT_LIMIT as int,
        ensures
            final(self).wf(),
            spec_vault_transact_holds(old(self)@, final(self)@, vault_name@, amount@, r),
    {
        self.transact(vault_name, amount)
    }

    /// Subtracts `amount` from the balance of the named vault.
    pub fn decrement(&mut self, vault_name: &str, amount: &Amount) -> (r: Result<Vault, db::Error>)
        requires
            old(self).wf(),
            amount.wf(),
            spec_has_vault(old(self)@, vault_name@) ==> -(AMOUNT_LIMIT as int) <= spec_vault(
                old(self)@,
                vault_name@,
            ).amount@ - amount@ <= AMOUNT_LIMIT as int,
        ensures
            final(self).wf(),
            spec_vault_transact_holds(old(self)@, final(self)@, vault_name@, -amount@, r),
    {
        let neg = amount.neg();
        self.transact(vault_name, &neg)
    }

    /// Position of the named vault in the store.
    fn find_index(&self, name: &str) -> (r: Option<usize>)
        ensures
            match r {
                Some(i) => 0 <= i < self@.len() && self@[i as int].name@ == name@,
                None => !spec_has_vault(self@, name@),
            },
    {
        let key: String = name.to_owned();
        let n = self.vaults.len();
        let mut i: usize = 0;
        while i < n
            invariant
                0 <= i <= n,
                n == self@.len(),
                key@ == name@,
                forall|j: int| 0 <= j < i ==> (#[trigger] self@[j]).name@ != name@,
            decreases n - i,
        {
            if self.vaults[i].name == key {
                return Some(i);
            }
            i += 1;
        }
        None
    }

    /// Atomic read-modify-write of one vault's balance.
    fn transact(&mut self, vault_name: &str, amount: &Amount) -> (r: Result<Vault, db::Error>)
        requires
            old(self).wf(),
            amount.wf(),
            spec_has_vault(old(self)@, vault_name@) ==> -(AMOUNT_LIMIT as int) <= spec_vault(
                old(self)@,
                vault_name@,
            ).amount@ + amount@ <= AMOUNT_LIMIT as int,
        ensures
            final(self).wf(),
            spec_vault_transact_holds(old(self)@, final(self)@, vault_name@, amount@, r),
    {
        match self.find_index(vault_name) {
            Some(i) => {
                proof {
                    lemma_vault_index_identifies(self@, vault_name@, i as int);
                }
                let found = self.vaults[i].clone();
                let updated = Vault { name: found.name, amount: found.amount.add(amount) };
                let out = updated.clone();
                self.vaults[i] = updated;
                Ok(out)
            },
            None => Err(db::Error::RecordNotFound),
        }
    }
}

/// In a store with unique names, a position holding the name is the
/// position the name selects.
pub proof fn lemma_vault_index_identifies(s: Seq<Vault>, name: Seq<char>, i: int)
    requires
        forall|p: int, q: int|
            0 <= p < q < s.len() ==> (#[trigger] s[p]).name@ != (#[trigger] s[q]).name@,
        0 <= i < s.len(),
        s[i].name@ == name,
    ensures
        spec_has_vault(s, name),
        spec_vault_index(s, name) == i,
        spec_vault(s, name) == s[i],
{
    assert(spec_has_vault(s, name));
    let k = spec_vault_index(s, name);
    if k < i {
        assert(s[k].name@ != s[i].name@);
    } else if k > i {
        assert(s[i].name@ != s[k].name@);
    }
}

} // verus!
