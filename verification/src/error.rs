//! The error type shared by every fallible operation of the library.

use vstd::prelude::*;

verus! {

/// What went wrong, with a human-readable message where one applies.
#[derive(Debug, Clone, PartialEq, Eq)]
pub enum AppError {
    Io(String),
    Validation(String),
    NotFound(String),
    Internal(String),
    Security(String),
    Db(String),
    Cancelled,
}

/// The text shown for a cancelled operation.
pub open spec fn cancelled_message() -> Seq<char> {
    "Operation was cancelled"@
}

impl AppError {
    /// The message carried by the error (a fixed text for `Cancelled`).
    pub open spec fn spec_message(&self) -> Seq<char> {
        match self {
            AppError::Io(m) => m@,
            AppError::Validation(m) => m@,
            AppError::NotFound(m) => m@,
            AppError::Internal(m) => m@,
            AppError::Security(m) => m@,
            AppError::Db(m) => m@,
            AppError::Cancelled => cancelled_message(),
        }
    }

    /// The message carried by the error.
    pub fn message(&self) -> (m: String)
        ensures
            m@ == self.spec_message(),
    {
        match self {
            AppError::Io(m) => m.clone(),
            AppError::Validation(m) => m.clone(),
            AppError::NotFound(m) => m.clone(),
            AppError::Internal(m) => m.clone(),
            AppError::Security(m) => m.clone(),
            AppError::Db(m) => m.clone(),
            AppError::Cancelled => String::from_str("Operation was cancelled"),
        }
    }
}

} // verus!
