//! Errors of the library, by kind, each with its message.

use vstd::prelude::*;

verus! {

/// The kind of an error, as the HTTP layer maps it to a status.
#[derive(Debug, Clone, Copy, PartialEq, Eq, Structural)]
pub enum ErrorKind {
    Validation,
    Conflict,
    NotFound,
    Internal,
    Forbidden,
    Canceled,
}

/// An expected failure: its kind and message.
pub type Problem = (ErrorKind, Seq<char>);

/// `r` is `Ok` exactly when there is no problem, and otherwise carries it.
pub open spec fn outcome<T>(r: Result<T, AppError>, p: Option<Problem>) -> bool {
    match p {
        None => r is Ok,
        Some(q) => r matches Err(e) && e.kind() == q.0 && e.spec_message() == q.1,
    }
}

#[derive(Debug, Clone, PartialEq)]
pub enum AppError {
    Validation(String),
    Conflict(String),
    NotFound(String),
    Internal(String),
    Forbidden(String),
    Canceled(String),
}

impl AppError {
    /// The message carried by the error.
    pub open spec fn spec_message(&self) -> Seq<char> {
        match self {
            AppError::Validation(m) => m@,
            AppError::Conflict(m) => m@,
            AppError::NotFound(m) => m@,
            AppError::Internal(m) => m@,
            AppError::Forbidden(m) => m@,
            AppError::Canceled(m) => m@,
        }
    }

    pub open spec fn kind(&self) -> ErrorKind {
        match self {
            AppError::Validation(_) => ErrorKind::Validation,
            AppError::Conflict(_) => ErrorKind::Conflict,
            AppError::NotFound(_) => ErrorKind::NotFound,
            AppError::Internal(_) => ErrorKind::Internal,
            AppError::Forbidden(_) => ErrorKind::Forbidden,
            AppError::Canceled(_) => ErrorKind::Canceled,
        }
    }

    /// An error of the given kind with the given message.
    pub fn of_kind(kind: ErrorKind, message: String) -> (e: AppError)
        ensures
            e.kind() == kind,
            e.spec_message() == message@,
    {
        match kind {
            ErrorKind::Validation => AppError::Validation(message),
            ErrorKind::Conflict => AppError::Conflict(message),
            ErrorKind::NotFound => AppError::NotFound(message),
            ErrorKind::Internal => AppError::Internal(message),
            ErrorKind::Forbidden => AppError::Forbidden(message),
            ErrorKind::Canceled => AppError::Canceled(message),
        }
    }

    pub fn message(&self) -> (r: &str)
        ensures
            r@ == self.spec_message(),
    {
        match self {
            AppError::Validation(m) => m.as_str(),
            AppError::Conflict(m) => m.as_str(),
            AppError::NotFound(m) => m.as_str(),
            AppError::Internal(m) => m.as_str(),
            AppError::Forbidden(m) => m.as_str(),
            AppError::Canceled(m) => m.as_str(),
        }
    }
}

} // verus!
