//! The application's error classification.

use vstd::prelude::*;

verus! {

/// Error classes shown to the front end as `{kind, message}`.
#[derive(Debug)]
pub enum AppError {
    Validation(String),
    Connection(String),
    Generation(String),
    Data(String),
    /// A persona is already taking part in another session.
    Busy(String),
    NotFound(String),
    /// A persona with the same name exists; the request may be repeated with `force`.
    DuplicateName(String),
}

pub type AppResult<T> = Result<T, AppError>;

/// The kind tag of each error class.
pub open spec fn kind_spec(e: AppError) -> Seq<char> {
    match e {
        AppError::Validation(_) => "validation"@,
        AppError::Connection(_) => "connection"@,
        AppError::Generation(_) => "generation"@,
        AppError::Data(_) => "data"@,
        AppError::Busy(_) => "busy"@,
        AppError::NotFound(_) => "not_found"@,
        AppError::DuplicateName(_) => "duplicate_name"@,
    }
}

/// The message carried by an error.
pub open spec fn message_spec(e: AppError) -> Seq<char> {
    match e {
        AppError::Validation(m) => m@,
        AppError::Connection(m) => m@,
        AppError::Generation(m) => m@,
        AppError::Data(m) => m@,
        AppError::Busy(m) => m@,
        AppError::NotFound(m) => m@,
        AppError::DuplicateName(m) => m@,
    }
}

/// `r` failed with an error of kind `kind` carrying message `m`.
pub open spec fn fails_with<T>(r: AppResult<T>, kind: Seq<char>, m: Seq<char>) -> bool {
    match r {
        Err(e) => kind_spec(e) == kind && message_spec(e) == m,
        Ok(_) => false,
    }
}

impl AppError {
    pub fn kind(&self) -> (r: &'static str)
        ensures
            r@ == kind_spec(*self),
    {
        match self {
            AppError::Validation(_) => "validation",
            AppError::Connection(_) => "connection",
            AppError::Generation(_) => "generation",
            AppError::Data(_) => "data",
            AppError::Busy(_) => "busy",
            AppError::NotFound(_) => "not_found",
            AppError::DuplicateName(_) => "duplicate_name",
        }
    }

    /// The message text (what the error displays as).
    pub fn message(&self) -> (r: &str)
        ensures
            r@ == message_spec(*self),
    {
        match self {
            AppError::Validation(m) => m.as_str(),
            AppError::Connection(m) => m.as_str(),
            AppError::Generation(m) => m.as_str(),
            AppError::Data(m) => m.as_str(),
            AppError::Busy(m) => m.as_str(),
            AppError::NotFound(m) => m.as_str(),
            AppError::DuplicateName(m) => m.as_str(),
        }
    }
}

} // verus!
