//! The error type shared by every fallible operation of the library.

use vstd::prelude::*;

verus! {

/// What can go wrong when building or running a calculator.
#[derive(Debug)]
pub enum Error {
    /// A parameter handed in by the caller is not usable; the message says why.
    InvalidParameter(String),
    /// The parameter document is not valid JSON, or does not have the
    /// structure the calculator expects; the message gives the cause.
    Json(String),
}

impl Error {
    /// The human-readable message carried by this error.
    pub open spec fn message(self) -> Seq<char> {
        match self {
            Error::InvalidParameter(m) => m@,
            Error::Json(m) => m@,
        }
    }

    /// The message of this error, for display.
    pub fn to_string(&self) -> (text: String)
        ensures
            text@ == self.message(),
    {
        match self {
            Error::InvalidParameter(m) => m.clone(),
            Error::Json(m) => m.clone(),
        }
    }
}

} // verus!
