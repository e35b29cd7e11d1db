//! The closed error taxonomy produced by repositories and services.
//!
//! Every failure of a repository or service operation is classified as
//! exactly one of these variants; a transport layer maps each variant to a
//! protocol-level response. `InternalServerError` and `DbError` carry a
//! detail string that is meant for server-side logging only.

use vstd::prelude::*;

verus! {

/// A classified failure of a repository or service operation.
#[derive(Debug, Clone)]
pub enum AppError {
    InternalServerError(String),
    Conflict,
    BadRequest,
    ServiceUnavailable,
    TooManyRequests,
    UnprocessableEntity,
    NotFound,
    Forbidden,
    Unauthorized,
    DbError(String),
}

impl AppError {
    /// A short, caller-safe label for the variant; detail strings are never
    /// included, so nothing internal leaks to a caller.
    pub fn label(&self) -> (r: &'static str)
        ensures
            r@ == self.label_spec(),
    {
        proof {
            reveal_strlit("Internal Server Error");
            reveal_strlit("Conflict");
            reveal_strlit("Bad Request");
            reveal_strlit("Service Unavailable");
            reveal_strlit("Too Many Requests");
            reveal_strlit("Unprocessable Entity");
            reveal_strlit("Not Found");
            reveal_strlit("Forbidden");
            reveal_strlit("Unauthorized");
            reveal_strlit("Database Error");
        }
        match self {
            AppError::InternalServerError(_) => "Internal Server Error",
            AppError::Conflict => "Conflict",
            AppError::BadRequest => "Bad Request",
            AppError::ServiceUnavailable => "Service Unavailable",
            AppError::TooManyRequests => "Too Many Requests",
            AppError::UnprocessableEntity => "Unprocessable Entity",
            AppError::NotFound => "Not Found",
            AppError::Forbidden => "Forbidden",
            AppError::Unauthorized => "Unauthorized",
            AppError::DbError(_) => "Database Error",
        }
    }

    /// What `label` returns for each variant.
    pub open spec fn label_spec(&self) -> Seq<char> {
        match self {
            AppError::InternalServerError(_) => "Internal Server Error"@,
            AppError::Conflict => "Conflict"@,
            AppError::BadRequest => "Bad Request"@,
            AppError::ServiceUnavailable => "Service Unavailable"@,
            AppError::TooManyRequests => "Too Many Requests"@,
            AppError::UnprocessableEntity => "Unprocessable Entity"@,
            AppError::NotFound => "Not Found"@,
            AppError::Forbidden => "Forbidden"@,
            AppError::Unauthorized => "Unauthorized"@,
            AppError::DbError(_) => "Database Error"@,
        }
    }

    /// True on the variants that indicate the request itself was sound but
    /// the server failed: the store reported an unclassified error or a
    /// post-check contradicted a pre-check.
    pub fn is_server_fault(&self) -> (r: bool)
        ensures
            r == (self is InternalServerError || self is DbError),
    {
        match self {
            AppError::InternalServerError(_) => true,
            AppError::DbError(_) => true,
            _ => false,
        }
    }
}

} // verus!
