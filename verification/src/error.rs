//! The error taxonomy of the wizard.
//!
//! `IO` marks a transport-level read problem and is fatal to a traversal;
//! `Parse` and `InvalidInput` are recoverable and are redisplayed on the
//! step that produced them.

use vstd::prelude::*;

verus! {

/// Why one attempt at reading a selection failed.
#[derive(Debug, PartialEq, Eq)]
pub enum Error {
    /// The input transport itself failed; the whole traversal aborts.
    IO(String),
    /// The line was neither a quit request nor a non-negative integer.
    Parse(String),
    /// The line held an integer outside `1..=item_count`.
    InvalidInput,
}

/// The human-readable message shown for an error, without the `"Error: "` prefix.
pub open spec fn error_msg(e: Error) -> Seq<char> {
    match e {
        Error::InvalidInput => "Invalid input, please select a number"@,
        Error::IO(m) => m@,
        Error::Parse(m) => m@,
    }
}

impl Error {
    /// The human-readable message for this error.
    pub fn message(&self) -> (r: String)
        ensures
            r@ == error_msg(*self),
    {
        match self {
            Error::InvalidInput => "Invalid input, please select a number".to_owned(),
            Error::IO(m) => m.clone(),
            Error::Parse(m) => m.clone(),
        }
    }
}

} // verus!
