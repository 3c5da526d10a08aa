//! Error types of the library: a general error and the tag store's errors.

use vstd::prelude::*;

verus! {

/// A top-level error: an I/O failure, carried as its message, or a custom
/// message.
pub enum Error {
    Io(String),
    Custom(String),
}

/// The display text of an `Error`: the carried message itself.
pub open spec fn error_text(e: Error) -> Seq<char> {
    match e {
        Error::Io(m) => m@,
        Error::Custom(m) => m@,
    }
}

impl Error {
    /// The display text of the error.
    pub fn message(&self) -> (r: String)
        ensures
            r@ == error_text(*self),
    {
        match self {
            Error::Io(m) => m.clone(),
            Error::Custom(m) => m.clone(),
        }
    }
}

/// An error of the tag store's operations.
pub enum ApiError {
    ConnectionError(String),
    QueryError(String),
    NotFound(String),
    InvalidInput(String),
    Unexpected(String),
}

/// The display text of an `ApiError`: a prefix naming the failure, then the
/// carried detail.
pub open spec fn api_error_text(e: ApiError) -> Seq<char> {
    match e {
        ApiError::ConnectionError(m) => "Database connection error: "@ + m@,
        ApiError::QueryError(m) => "Database query failed: "@ + m@,
        ApiError::NotFound(m) => "Resource not found: "@ + m@,
        ApiError::InvalidInput(m) => "Invalid input: "@ + m@,
        ApiError::Unexpected(m) => "Unexpected error: "@ + m@,
    }
}

impl ApiError {
    /// The display text of the error; never empty, since every variant's
    /// prefix has characters of its own.
    pub fn message(&self) -> (r: String)
        ensures
            r@ == api_error_text(*self),
            r@.len() > 0,
    {
        match self {
            ApiError::ConnectionError(m) => {
                proof {
                    reveal_strlit("Database connection error: ");
                }
                String::from_str("Database connection error: ").concat(m.as_str())
            },
            ApiError::QueryError(m) => {
                proof {
                    reveal_strlit("Database query failed: ");
                }
                String::from_str("Database query failed: ").concat(m.as_str())
            },
            ApiError::NotFound(m) => {
                proof {
                    reveal_strlit("Resource not found: ");
                }
                String::from_str("Resource not found: ").concat(m.as_str())
            },
            ApiError::InvalidInput(m) => {
                proof {
                    reveal_strlit("Invalid input: ");
                }
                String::from_str("Invalid input: ").concat(m.as_str())
            },
            ApiError::Unexpected(m) => {
                proof {
                    reveal_strlit("Unexpected error: ");
                }
                String::from_str("Unexpected error: ").concat(m.as_str())
            },
        }
    }
}

} // verus!
