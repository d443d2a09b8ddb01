//! The kinds of failure that callers are told about.

use vstd::prelude::*;

verus! {

/// A failure, with a description of what went wrong.
#[derive(Debug, Clone, PartialEq, Eq)]
pub enum AppError {
    /// A malformed request or input.
    InvalidInput(String),
    /// An analysis that ended in failure.
    ProcessingError(String),
    /// An unexpected fault.
    Internal(String),
    /// No analysis has the requested identifier.
    NotFound(String),
}

impl AppError {
    /// The description carried by the error.
    pub open spec fn detail(self) -> Seq<char> {
        match self {
            AppError::InvalidInput(text) => text@,
            AppError::ProcessingError(text) => text@,
            AppError::Internal(text) => text@,
            AppError::NotFound(text) => text@,
        }
    }

    /// The words that introduce the description of each kind of error.
    pub open spec fn heading(self) -> Seq<char> {
        match self {
            AppError::InvalidInput(_) => "Invalid input: "@,
            AppError::ProcessingError(_) => "Processing error: "@,
            AppError::Internal(_) => "Internal error: "@,
            AppError::NotFound(_) => "Not found: "@,
        }
    }

    /// The HTTP status that answers a request ending in this error: 400 for
    /// invalid input, 404 for an unknown analysis, 500 for everything else.
    pub open spec fn spec_status_code(self) -> int {
        match self {
            AppError::InvalidInput(_) => 400,
            AppError::NotFound(_) => 404,
            _ => 500,
        }
    }

    /// The HTTP status that answers a request ending in this error.
    pub fn status_code(&self) -> (code: u16)
        ensures
            code == self.spec_status_code(),
    {
        match self {
            AppError::InvalidInput(_) => 400,
            AppError::NotFound(_) => 404,
            _ => 500,
        }
    }

    /// The error in words: the heading of its kind, then its description.
    pub fn message(&self) -> (text: String)
        ensures
            text@ == self.heading() + self.detail(),
    {
        match self {
            AppError::InvalidInput(detail) => String::from_str("Invalid input: ").concat(
                detail.as_str(),
            ),
            AppError::ProcessingError(detail) => String::from_str("Processing error: ").concat(
                detail.as_str(),
            ),
            AppError::Internal(detail) => String::from_str("Internal error: ").concat(
                detail.as_str(),
            ),
            AppError::NotFound(detail) => String::from_str("Not found: ").concat(detail.as_str()),
        }
    }
}

} // verus!
