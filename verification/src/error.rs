//! The error that every fallible operation of the platform returns.
use vstd::prelude::*;

use crate::text::concat2;

verus! {

/// What went wrong, with a human readable detail.
#[derive(Debug, Clone, PartialEq, Eq)]
pub enum AppError {
    Database(String),
    InvalidRequest(String),
    Validation(String),
    NotFound(String),
    Execution(String),
    Serialization(String),
    Io(String),
    Internal(String),
}

/// The HTTP status that answers an error of each kind.
pub open spec fn status_of(e: AppError) -> u16 {
    match e {
        AppError::InvalidRequest(_) | AppError::Validation(_) => 400,
        AppError::NotFound(_) => 404,
        _ => 500,
    }
}

/// The detail carried by an error.
pub open spec fn detail_of(e: AppError) -> Seq<char> {
    match e {
        AppError::Database(m) => m@,
        AppError::InvalidRequest(m) => m@,
        AppError::Validation(m) => m@,
        AppError::NotFound(m) => m@,
        AppError::Execution(m) => m@,
        AppError::Serialization(m) => m@,
        AppError::Io(m) => m@,
        AppError::Internal(m) => m@,
    }
}

/// The prefix that the display text of an error starts with.
pub open spec fn prefix_of(e: AppError) -> Seq<char> {
    match e {
        AppError::Database(_) => "database error: "@,
        AppError::InvalidRequest(_) => "invalid request: "@,
        AppError::Validation(_) => "validation error: "@,
        AppError::NotFound(_) => "not found: "@,
        AppError::Execution(_) => "execution error: "@,
        AppError::Serialization(_) => "serialization error: "@,
        AppError::Io(_) => "io error: "@,
        AppError::Internal(_) => "internal error: "@,
    }
}

/// Whether `r` failed with a validation error whose detail is `m`.
pub open spec fn is_validation_error<T>(r: Result<T, AppError>, m: Seq<char>) -> bool {
    match r {
        Err(AppError::Validation(d)) => d@ == m,
        _ => false,
    }
}

impl AppError {
    /// The HTTP status code that answers this error: 400 for invalid
    /// requests and validation failures, 404 for missing items, 500 else.
    pub fn status_code(&self) -> (r: u16)
        ensures
            r == status_of(*self),
    {
        match self {
            AppError::InvalidRequest(_) | AppError::Validation(_) => 400,
            AppError::NotFound(_) => 404,
            _ => 500,
        }
    }

    /// The display text of the error: a prefix naming its kind, then its
    /// detail.
    pub fn message(&self) -> (r: String)
        ensures
            r@ == prefix_of(*self) + detail_of(*self),
    {
        match self {
            AppError::Database(m) => concat2("database error: ", m.as_str()),
            AppError::InvalidRequest(m) => concat2("invalid request: ", m.as_str()),
            AppError::Validation(m) => concat2("validation error: ", m.as_str()),
            AppError::NotFound(m) => concat2("not found: ", m.as_str()),
            AppError::Execution(m) => concat2("execution error: ", m.as_str()),
            AppError::Serialization(m) => concat2("serialization error: ", m.as_str()),
            AppError::Io(m) => concat2("io error: ", m.as_str()),
            AppError::Internal(m) => concat2("internal error: ", m.as_str()),
        }
    }

    /// A validation error with the given detail.
    pub fn validation(detail: &str) -> (r: AppError)
        ensures
            r matches AppError::Validation(m) && m@ == detail@,
    {
        AppError::Validation(String::from_str(detail))
    }
}

} // verus!
