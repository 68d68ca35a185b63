//! Application errors and how each is reported over HTTP.

use vstd::prelude::*;

verus! {

/// Application error type. `Db` carries the text of a database failure.
#[derive(Debug)]
pub enum AppError {
    NotFound(String),
    Unauthorized(String),
    Forbidden(String),
    Conflict(String),
    Validation(String),
    Internal(String),
    Db(String),
}

impl AppError {
    /// The HTTP status each kind of error is answered with.
    pub open spec fn status(&self) -> u16 {
        match self {
            AppError::NotFound(_) => 404,
            AppError::Unauthorized(_) => 401,
            AppError::Forbidden(_) => 403,
            AppError::Conflict(_) => 409,
            AppError::Validation(_) => 422,
            AppError::Internal(_) => 500,
            AppError::Db(_) => 500,
        }
    }

    /// The machine-readable code of each kind of error.
    pub open spec fn code(&self) -> Seq<char> {
        match self {
            AppError::NotFound(_) => "not_found"@,
            AppError::Unauthorized(_) => "unauthorized"@,
            AppError::Forbidden(_) => "forbidden"@,
            AppError::Conflict(_) => "conflict"@,
            AppError::Validation(_) => "validation_error"@,
            AppError::Internal(_) => "internal_error"@,
            AppError::Db(_) => "database_error"@,
        }
    }

    /// The human-readable message: a kind prefix, then the detail.
    pub open spec fn text(&self) -> Seq<char> {
        match self {
            AppError::NotFound(m) => "not found: "@ + m@,
            AppError::Unauthorized(m) => "unauthorized: "@ + m@,
            AppError::Forbidden(m) => "forbidden: "@ + m@,
            AppError::Conflict(m) => "conflict: "@ + m@,
            AppError::Validation(m) => "validation: "@ + m@,
            AppError::Internal(m) => "internal: "@ + m@,
            AppError::Db(m) => "database error: "@ + m@,
        }
    }

    /// The detail carried by the error.
    pub open spec fn detail(&self) -> Seq<char> {
        match self {
            AppError::NotFound(m) => m@,
            AppError::Unauthorized(m) => m@,
            AppError::Forbidden(m) => m@,
            AppError::Conflict(m) => m@,
            AppError::Validation(m) => m@,
            AppError::Internal(m) => m@,
            AppError::Db(m) => m@,
        }
    }

    /// HTTP status code of the error.
    pub fn status_code(&self) -> (r: u16)
        ensures
            r == self.status(),
    {
        match self {
            AppError::NotFound(_) => 404,
            AppError::Unauthorized(_) => 401,
            AppError::Forbidden(_) => 403,
            AppError::Conflict(_) => 409,
            AppError::Validation(_) => 422,
            AppError::Internal(_) => 500,
            AppError::Db(_) => 500,
        }
    }

    /// Error code placed in the response body.
    pub fn error_code(&self) -> (r: String)
        ensures
            r@ == self.code(),
    {
        match self {
            AppError::NotFound(_) => String::from_str("not_found"),
            AppError::Unauthorized(_) => String::from_str("unauthorized"),
            AppError::Forbidden(_) => String::from_str("forbidden"),
            AppError::Conflict(_) => String::from_str("conflict"),
            AppError::Validation(_) => String::from_str("validation_error"),
            AppError::Internal(_) => String::from_str("internal_error"),
            AppError::Db(_) => String::from_str("database_error"),
        }
    }

    /// Error message placed in the response body.
    pub fn message(&self) -> (r: String)
        ensures
            r@ == self.text(),
    {
        let (mut s, m) = match self {
            AppError::NotFound(m) => (String::from_str("not found: "), m),
            AppError::Unauthorized(m) => (String::from_str("unauthorized: "), m),
            AppError::Forbidden(m) => (String::from_str("forbidden: "), m),
            AppError::Conflict(m) => (String::from_str("conflict: "), m),
            AppError::Validation(m) => (String::from_str("validation: "), m),
            AppError::Internal(m) => (String::from_str("internal: "), m),
            AppError::Db(m) => (String::from_str("database error: "), m),
        };
        s.append(m.as_str());
        s
    }
}

/// `r` is the error `NotFound` with detail `m`.
pub open spec fn fails_not_found<T>(r: Result<T, AppError>, m: Seq<char>) -> bool {
    match r {
        Err(AppError::NotFound(x)) => x@ == m,
        _ => false,
    }
}

/// `r` is the error `Unauthorized` with detail `m`.
pub open spec fn fails_unauthorized<T>(r: Result<T, AppError>, m: Seq<char>) -> bool {
    match r {
        Err(AppError::Unauthorized(x)) => x@ == m,
        _ => false,
    }
}

/// `r` is the error `Forbidden` with detail `m`.
pub open spec fn fails_forbidden<T>(r: Result<T, AppError>, m: Seq<char>) -> bool {
    match r {
        Err(AppError::Forbidden(x)) => x@ == m,
        _ => false,
    }
}

/// `r` is the error `Conflict` with detail `m`.
pub open spec fn fails_conflict<T>(r: Result<T, AppError>, m: Seq<char>) -> bool {
    match r {
        Err(AppError::Conflict(x)) => x@ == m,
        _ => false,
    }
}

/// `r` is the error `Validation` with detail `m`.
pub open spec fn fails_validation<T>(r: Result<T, AppError>, m: Seq<char>) -> bool {
    match r {
        Err(AppError::Validation(x)) => x@ == m,
        _ => false,
    }
}

/// `r` is the error `Internal` with detail `m`.
pub open spec fn fails_internal<T>(r: Result<T, AppError>, m: Seq<char>) -> bool {
    match r {
        Err(AppError::Internal(x)) => x@ == m,
        _ => false,
    }
}

} // verus!
