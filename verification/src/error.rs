//! The error taxonomy of the service layer.
//!
//! `NotFound` is expected and non-fatal (best-effort sends), `Validation`
//! marks malformed input that leaves the system unchanged, `Conflict` marks
//! a caller contract violation such as a duplicate identifier, and the rest
//! mirror the surrounding product's failure categories.

use vstd::prelude::*;

verus! {

#[derive(Debug, Clone, PartialEq)]
pub enum Error {
    Validation(String),
    Authentication(String),
    Authorization(String),
    NotFound(String),
    Conflict(String),
    BadRequest(String),
    Internal(String),
}

impl Error {
    /// The stable machine-readable code of each category.
    pub fn error_code(&self) -> (r: &'static str)
        ensures
            r@ == match self {
                Error::Validation(_) => "VALIDATION_ERROR"@,
                Error::Authentication(_) => "AUTHENTICATION_ERROR"@,
                Error::Authorization(_) => "AUTHORIZATION_ERROR"@,
                Error::NotFound(_) => "NOT_FOUND"@,
                Error::Conflict(_) => "CONFLICT"@,
                Error::BadRequest(_) => "BAD_REQUEST"@,
                Error::Internal(_) => "INTERNAL_ERROR"@,
            },
    {
        match self {
            Error::Validation(_) => "VALIDATION_ERROR",
            Error::Authentication(_) => "AUTHENTICATION_ERROR",
            Error::Authorization(_) => "AUTHORIZATION_ERROR",
            Error::NotFound(_) => "NOT_FOUND",
            Error::Conflict(_) => "CONFLICT",
            Error::BadRequest(_) => "BAD_REQUEST",
            Error::Internal(_) => "INTERNAL_ERROR",
        }
    }
}

/// A shorthand for results carrying the service error.
pub type ServiceResult<T> = Result<T, Error>;

} // verus!
