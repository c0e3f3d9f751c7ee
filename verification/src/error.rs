//! Errors reported by the bank service.
use vstd::prelude::*;

use vstd::string::StringExecFns;

use crate::db;

verus! {

/// An error that can occur when performing a banking operation.
#[derive(PartialEq, Eq, Debug)]
pub struct Error {
    pub kind: ErrorKind,
}

impl Error {
    pub fn new(kind: ErrorKind) -> (r: Error)
        ensures
            r == (Error { kind }),
    {
        Error { kind }
    }

    pub fn kind(&self) -> (r: &ErrorKind)
        ensures
            *r == self.kind,
    {
        &self.kind
    }

    /// The error's text.
    pub open spec fn message_spec(self) -> Seq<char> {
        match self.kind {
            ErrorKind::Database(e) => "db error: "@ + e.message_spec(),
            ErrorKind::InadequateFunds => "not enough funds in account"@,
            ErrorKind::InvalidDate(msg) => "invalid date: "@ + msg@,
            ErrorKind::InvalidStateNegativeValue => "invalid state: negative value not allowed"@,
        }
    }

    /// Renders the error for people to read.
    pub fn message(&self) -> (r: String)
        ensures
            r@ == self.message_spec(),
    {
        match &self.kind {
            ErrorKind::Database(e) => "db error: ".to_owned().concat(e.message().as_str()),
            ErrorKind::InadequateFunds => "not enough funds in account".to_owned(),
            ErrorKind::InvalidDate(msg) => "invalid date: ".to_owned().concat(msg.as_str()),
            ErrorKind::InvalidStateNegativeValue => {
                "invalid state: negative value not allowed".to_owned()
            },
        }
    }
}

/// The kind of an error that can occur.
#[derive(PartialEq, Eq, Debug)]
pub enum ErrorKind {
    /// A store rejected the operation: a missing record or a key
    /// conflict.
    Database(db::Error),
    /// Not enough funds in the source account.
    InadequateFunds,
    /// A computed due date is unusable, most often because it exceeds
    /// the loan's maturity date.
    InvalidDate(String),
    /// A settlement would have driven a balance negative.  This is an
    /// invariant violation and is never produced by the verified
    /// operations, whose preconditions exclude it.
    InvalidStateNegativeValue,
}

} // verus!
