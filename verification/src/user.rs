//! Bank customers and their store.
use vstd::prelude::*;

use crate::db;
use crate::types::{new_id, Id};

verus! {

/// A bank customer.
#[derive(PartialEq, Eq, Debug)]
pub struct User {
    pub id: Id,
    pub email: String,
    pub first_name: String,
    pub family_name: String,
    pub phone_number: Option<String>,
}

impl Clone for User {
    fn clone(&self) -> (r: Self)
        ensures
            r == *self,
    {
        User {
            id: self.id,
            email: self.email.clone(),
            first_name: self.first_name.clone(),
            family_name: self.family_name.clone(),
            phone_number: match &self.phone_number {
                Some(p) => Some(p.clone()),
                None => None,
            },
        }
    }
}

/// What a caller supplies to register a customer.
#[derive(Clone, Copy, Debug)]
pub struct NewUser<'a> {
    pub email: &'a str,
    pub first_name: &'a str,
    pub family_name: &'a str,
    pub phone_number: Option<&'a str>,
}

/// Key under which a customer can be looked up.
pub enum FindKey<'a> {
    ID(Id),
    Email(&'a str),
}

/// Whether `s` holds a user with the given id.
pub open spec fn spec_has_user(s: Seq<User>, id: Id) -> bool {
    exists|i: int| 0 <= i < s.len() && s[i].id == id
}

/// Whether `s` holds a user with the given email.
pub open spec fn spec_has_email(s: Seq<User>, email: Seq<char>) -> bool {
    exists|i: int| 0 <= i < s.len() && s[i].email@ == email
}

/// Index of the user with the given id.
pub open spec fn spec_user_index(s: Seq<User>, id: Id) -> int {
    choose|i: int| 0 <= i < s.len() && s[i].id == id
}

/// Index of the user with the given email.
pub open spec fn spec_email_index(s: Seq<User>, email: Seq<char>) -> int {
    choose|i: int| 0 <= i < s.len() && s[i].email@ == email
}

/// Whether the record `u` holds exactly the data of `new_user`.
pub open spec fn spec_user_matches(u: User, new_user: NewUser<'_>) -> bool {
    &&& u.email@ == new_user.email@
    &&& u.first_name@ == new_user.first_name@
    &&& u.family_name@ == new_user.family_name@
    &&& match (u.phone_number, new_user.phone_number) {
        (Some(a), Some(b)) => a@ == b@,
        (None, None) => true,
        _ => false,
    }
}

/// The store of customers.
pub struct Repo {
    users: Vec<User>,
}

impl View for Repo {
    type V = Seq<User>;

    closed spec fn view(&self) -> Seq<User> {
        self.users@
    }
}

impl Repo {
    /// Well-formed store: ids and emails are unique.
    pub open spec fn wf(self) -> bool {
        &&& forall|i: int, j: int|
            0 <= i < j < self@.len() ==> (#[trigger] self@[i]).id != (#[trigger] self@[j]).id
        &&& forall|i: int, j: int|
            0 <= i < j < self@.len() ==> (#[trigger] self@[i]).email@ != (#[trigger] self@[j]).email@
    }

    /// An empty store.
    pub fn new() -> (r: Repo)
        ensures
            r@.len() == 0,
            r.wf(),
    {
        Repo { users: Vec::new() }
    }

    /// Registers a customer.  A duplicate email, or the (practically
    /// impossible) collision of the freshly drawn id, is a conflict and
    /// leaves the store unchanged.
    #[verifier::loop_isolation(false)]
    pub fn create(&mut self, new_user: NewUser<'_>) -> (r: Result<User, db::Error>)
        requires
            old(self).wf(),
        ensures
            final(self).wf(),
            match r {
                Ok(u) => {
                    &&& !spec_has_user(old(self)@, u.id)
                    &&& !spec_has_email(old(self)@, new_user.email@)
                    &&& spec_user_matches(u, new_user)
                    &&& final(self)@ == old(self)@.push(u)
                },
                Err(e) => e == db::Error::RecordAlreadyExists && final(self)@ == old(self)@
                    && old(self)@.len() > 0,
            },
    {
        let email: String = new_user.email.to_owned();
        let n = self.users.len();
        let mut i: usize = 0;
        while i < n
            invariant
                0 <= i <= n,
                n == self@.len(),
                self@ == old(self)@,
                email@ == new_user.email@,
                forall|j: int| 0 <= j < i ==> (#[trigger] self@[j]).email@ != new_user.email@,
            decreases n - i,
        {
            if self.users[i].email == email {
                return Err(db::Error::RecordAlreadyExists);
            }
            i += 1;
        }
        let id = new_id();
        if self.contains_id(id) {
            return Err(db::Error::RecordAlreadyExists);
        }
        let user = User {
            id,
            email,
            first_name: new_user.first_name.to_owned(),
            family_name: new_user.family_name.to_owned(),
            phone_number: match new_user.phone_number {
                Some(p) => Some(p.to_owned()),
                None => None,
            },
        };
        let out = user.clone();
        self.users.push(user);
        Ok(out)
    }

    /// The customer selected by the key, or `RecordNotFound`.
    #[verifier::loop_isolation(false)]
    pub fn find_by_key(&self, key: FindKey<'_>) -> (r: Result<User, db::Error>)
        requires
            self.wf(),
        ensures
            match r {
                Ok(u) => match key {
                    FindKey::ID(id) => spec_has_user(self@, id) && u == self@[spec_user_index(
                        self@,
                        id,
                    )],
                    FindKey::Email(email) => spec_has_email(self@, email@) && u
                        == self@[spec_email_index(self@, email@)],
                },
                Err(e) => e == db::Error::RecordNotFound && match key {
                    FindKey::ID(id) => !spec_has_user(self@, id),
                    FindKey::Email(email) => !spec_has_email(self@, email@),
                },
            },
    {
        match key {
            FindKey::ID(id) => {
                let n = self.users.len();
                let mut i: usize = 0;
                while i < n
                    invariant
                        0 <= i <= n,
                        n == self@.len(),
                        self.wf(),
                        forall|j: int| 0 <= j < i ==> (#[trigger] self@[j]).id != id,
                    decreases n - i,
                {
                    if self.users[i].id == id {
                        proof {
                            assert(spec_has_user(self@, id));
                            let k = spec_user_index(self@, id);
                            if k < i as int {
                                assert(self@[k].id != self@[i as int].id);
                            } else if k > i as int {
                                assert(self@[i as int].id != self@[k].id);
                            }
                        }
                        return Ok(self.users[i].clone());
                    }
                    i += 1;
                }
                Err(db::Error::RecordNotFound)
            },
            FindKey::Email(email) => {
                let wanted: String = email.to_owned();
                let n = self.users.len();
                let mut i: usize = 0;
                while i < n
                    invariant
                        0 <= i <= n,
                        n == self@.len(),
                        self.wf(),
                        wanted@ == email@,
                        forall|j: int| 0 <= j < i ==> (#[trigger] self@[j]).email@ != email@,
                    decreases n - i,
                {
                    if self.users[i].email == wanted {
                        proof {
                            assert(spec_has_email(self@, email@));
                            let k = spec_email_index(self@, email@);
                            if k < i as int {
                                assert(self@[k].email@ != self@[i as int].email@);
                            } else if k > i as int {
                                assert(self@[i as int].email@ != self@[k].email@);
                            }
                        }
                        return Ok(self.users[i].clone());
                    }
                    i += 1;
                }
                Err(db::Error::RecordNotFound)
            },
        }
    }

    /// Whether a user with this id exists.
    fn contains_id(&self, id: Id) -> (r: bool)
        ensures
            r == spec_has_user(self@, id),
    {
        let n = self.users.len();
        let mut i: usize = 0;
        while i < n
            invariant
                0 <= i <= n,
                n == self@.len(),
                forall|j: int| 0 <= j < i ==> (#[trigger] self@[j]).id != id,
            decreases n - i,
        {
            if self.users[i].id == id {
                return true;
            }
            i += 1;
        }
        false
    }
}

} // verus!
