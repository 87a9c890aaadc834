//! What can go wrong when news are stored or tagged.

use vstd::prelude::*;
use vstd::string::*;

verus! {

/// The ways in which an operation of the bot fails.
#[derive(Clone, Copy, Debug, PartialEq, Eq, Structural)]
pub enum Error {
    /// A report with this message id is stored already.
    DuplicateId,
    /// No report with this message id is stored.
    NotFound,
    /// The message that a reaction refers to could not be fetched.
    TargetUnresolvable,
    /// The user may not do what the reaction asks for.
    InsufficientPrivilege,
}

/// The sentence for an error.
pub open spec fn error_text(e: Error) -> Seq<char> {
    match e {
        Error::DuplicateId => "a news entry with this event id exists already"@,
        Error::NotFound => "no news entry with this event id exists"@,
        Error::TargetUnresolvable => "the message of the reaction could not be fetched"@,
        Error::InsufficientPrivilege => "the user is not allowed to do this"@,
    }
}

impl Error {
    /// The error in words.
    pub fn message(&self) -> (r: String)
        ensures
            r@ == error_text(*self),
    {
        match self {
            Error::DuplicateId => String::from_str("a news entry with this event id exists already"),
            Error::NotFound => String::from_str("no news entry with this event id exists"),
            Error::TargetUnresolvable => String::from_str(
                "the message of the reaction could not be fetched",
            ),
            Error::InsufficientPrivilege => String::from_str("the user is not allowed to do this"),
        }
    }
}

} // verus!
