//! Application-level error values.
//!
//! Every failure is reported as an [`AppError`]: a machine-readable code, a
//! human-readable message, and optional extra detail. The constructors pin the
//! code down exactly, so callers can state in their own contracts which kind of
//! error they return and when.

use vstd::prelude::*;
use vstd::string::StringExecFns;

verus! {

/// One application error: a stable code, a message, and optional detail.
#[derive(Debug, Clone)]
pub struct AppError {
    pub code: String,
    pub message: String,
    pub details: Option<String>,
}

/// Result alias used throughout the library.
pub type AppResult<T> = Result<T, AppError>;

impl AppError {
    /// Create a validation error (malformed input, missing required field).
    pub fn validation(message: &str) -> (e: AppError)
        ensures
            e.code@ == "VALIDATION_ERROR"@,
            e.message@ == message@,
            e.details is None,
    {
        AppError {
            code: String::from_str("VALIDATION_ERROR"),
            message: String::from_str(message),
            details: None,
        }
    }

    /// Create a filesystem error.
    pub fn io(message: &str) -> (e: AppError)
        ensures
            e.code@ == "IO_ERROR"@,
            e.message@ == message@,
            e.details is None,
    {
        AppError {
            code: String::from_str("IO_ERROR"),
            message: String::from_str(message),
            details: None,
        }
    }

    /// Create a pack scanning error.
    pub fn scan(message: &str) -> (e: AppError)
        ensures
            e.code@ == "SCAN_ERROR"@,
            e.message@ == message@,
            e.details is None,
    {
        AppError {
            code: String::from_str("SCAN_ERROR"),
            message: String::from_str(message),
            details: None,
        }
    }

    /// Create a pack building error.
    pub fn build(message: &str) -> (e: AppError)
        ensures
            e.code@ == "BUILD_ERROR"@,
            e.message@ == message@,
            e.details is None,
    {
        AppError {
            code: String::from_str("BUILD_ERROR"),
            message: String::from_str(message),
            details: None,
        }
    }

    /// Create an internal error, with detail attached.
    pub fn internal(message: &str, details: &str) -> (e: AppError)
        ensures
            e.code@ == "INTERNAL_ERROR"@,
            e.message@ == message@,
            e.details matches Some(d) && d@ == details@,
    {
        AppError {
            code: String::from_str("INTERNAL_ERROR"),
            message: String::from_str(message),
            details: Some(String::from_str(details)),
        }
    }

    /// Create a not-found error (entry or asset absent from every source).
    pub fn not_found(message: &str) -> (e: AppError)
        ensures
            e.code@ == "NOT_FOUND_ERROR"@,
            e.message@ == message@,
            e.details is None,
    {
        AppError {
            code: String::from_str("NOT_FOUND_ERROR"),
            message: String::from_str(message),
            details: None,
        }
    }

    /// Create a depth-exceeded error (an inheritance or reference chain too
    /// long — a structural defect, distinct from simple absence).
    pub fn depth_exceeded(message: &str) -> (e: AppError)
        ensures
            e.code@ == "DEPTH_EXCEEDED_ERROR"@,
            e.message@ == message@,
            e.details is None,
    {
        AppError {
            code: String::from_str("DEPTH_EXCEEDED_ERROR"),
            message: String::from_str(message),
            details: None,
        }
    }

    /// Attach more context to the error.
    pub fn with_details(self, details: &str) -> (e: AppError)
        ensures
            e.code == self.code,
            e.message == self.message,
            e.details matches Some(d) && d@ == details@,
    {
        AppError { details: Some(String::from_str(details)), ..self }
    }
}

} // verus!
