//! Errors reported by the stores.
//!
//! The stores keep their records in memory, so only the two constraint
//! violations of the original taxonomy can occur: a key that is not
//! present, and an insert that collides with an existing key.
use vstd::prelude::*;

verus! {

/// Error that can occur when operating on a store.
#[derive(Clone, Copy, PartialEq, Eq, Structural, Debug)]
pub enum Error {
    /// An insert violated a uniqueness constraint.
    RecordAlreadyExists,
    /// The requested record does not exist.
    RecordNotFound,
}

impl Error {
    /// The error's text.
    pub open spec fn message_spec(self) -> Seq<char> {
        match self {
            Error::RecordAlreadyExists => "record violates a unique constraint"@,
            Error::RecordNotFound => "record does not exist"@,
        }
    }

    /// Renders the error for people to read.
    pub fn message(&self) -> (r: String)
        ensures
            r@ == self.message_spec(),
    {
        match self {
            Error::RecordAlreadyExists => "record violates a unique constraint".to_owned(),
            Error::RecordNotFound => "record does not exist".to_owned(),
        }
    }
}

} // verus!
