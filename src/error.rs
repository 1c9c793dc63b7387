//! Error kinds shared by every component.

use vstd::prelude::*;

verus! {

/// Which field failed which rule, and why.
#[derive(Debug)]
pub struct ValidationError {
    /// Field that failed validation.
    pub field: String,
    /// Validation rule that was violated.
    pub rule: String,
    /// Additional context.
    pub message: String,
}

/// The failures the library reports.
#[derive(Debug)]
pub enum Error {
    /// A configuration was rejected.
    Config(String),
    /// A record failed a validation rule.
    Validation(ValidationError),
    /// A record could not be processed.
    Processing(String),
    /// A storage backend failed.
    Storage(String),
    /// An input/output failure, by its message.
    Io(String),
    /// A payload could not be encoded or decoded, by its message.
    Serialization(String),
    /// An operation met a state that does not allow it.
    InvalidState(String),
    /// A resource was not found.
    NotFound(String),
    /// An operation ran out of time.
    Timeout(String),
    /// No worker slot could be taken.
    Concurrency(String),
    /// Any other failure.
    Internal(String),
}

/// The monitoring code of each kind of error.
pub open spec fn code_of(e: Error) -> Seq<char> {
    match e {
        Error::Config(_) => "CONFIG_ERROR"@,
        Error::Validation(_) => "VALIDATION_ERROR"@,
        Error::Processing(_) => "PROCESSING_ERROR"@,
        Error::Storage(_) => "STORAGE_ERROR"@,
        Error::Io(_) => "IO_ERROR"@,
        Error::Serialization(_) => "SERIALIZATION_ERROR"@,
        Error::InvalidState(_) => "INVALID_STATE"@,
        Error::NotFound(_) => "NOT_FOUND"@,
        Error::Timeout(_) => "TIMEOUT"@,
        Error::Concurrency(_) => "CONCURRENCY_ERROR"@,
        Error::Internal(_) => "INTERNAL_ERROR"@,
    }
}

/// The text that describes a validation failure.
pub open spec fn validation_text(v: ValidationError) -> Seq<char> {
    "Field '"@ + v.field@ + "' failed validation rule '"@ + v.rule@ + "': "@ + v.message@
}

/// The human-readable text of an error: its kind, then its detail.
pub open spec fn error_text(e: Error) -> Seq<char> {
    match e {
        Error::Config(m) => "Configuration error: "@ + m@,
        Error::Validation(v) => "Validation error: "@ + validation_text(v),
        Error::Processing(m) => "Processing error: "@ + m@,
        Error::Storage(m) => "Storage error: "@ + m@,
        Error::Io(m) => "I/O error: "@ + m@,
        Error::Serialization(m) => "Serialization error: "@ + m@,
        Error::InvalidState(m) => "Invalid state: "@ + m@,
        Error::NotFound(m) => "Resource not found: "@ + m@,
        Error::Timeout(m) => "Operation timed out: "@ + m@,
        Error::Concurrency(m) => "Concurrent access error: "@ + m@,
        Error::Internal(m) => "Internal error: "@ + m@,
    }
}

fn prefixed(prefix: &str, detail: &String) -> (r: String)
    ensures
        r@ == prefix@ + detail@,
{
    String::from_str(prefix).concat(detail.as_str())
}

impl ValidationError {
    /// Describes the failure: field, rule and message.
    pub fn describe(&self) -> (r: String)
        ensures
            r@ == validation_text(*self),
    {
        let r = String::from_str("Field '").concat(self.field.as_str());
        let r = r.concat("' failed validation rule '").concat(self.rule.as_str());
        r.concat("': ").concat(self.message.as_str())
    }
}

impl Error {
    /// A configuration error with the given message.
    pub fn config(msg: &str) -> (r: Error)
        ensures
            r is Config && r->Config_0@ == msg@,
    {
        Error::Config(String::from_str(msg))
    }

    /// A processing error with the given message.
    pub fn processing(msg: &str) -> (r: Error)
        ensures
            r is Processing && r->Processing_0@ == msg@,
    {
        Error::Processing(String::from_str(msg))
    }

    /// A storage error with the given message.
    pub fn storage(msg: &str) -> (r: Error)
        ensures
            r is Storage && r->Storage_0@ == msg@,
    {
        Error::Storage(String::from_str(msg))
    }

    /// An invalid-state error with the given message.
    pub fn invalid_state(msg: &str) -> (r: Error)
        ensures
            r is InvalidState && r->InvalidState_0@ == msg@,
    {
        Error::InvalidState(String::from_str(msg))
    }

    /// A not-found error with the given message.
    pub fn not_found(msg: &str) -> (r: Error)
        ensures
            r is NotFound && r->NotFound_0@ == msg@,
    {
        Error::NotFound(String::from_str(msg))
    }

    /// A timeout error with the given message.
    pub fn timeout(msg: &str) -> (r: Error)
        ensures
            r is Timeout && r->Timeout_0@ == msg@,
    {
        Error::Timeout(String::from_str(msg))
    }

    /// An admission error with the given message.
    pub fn concurrency(msg: &str) -> (r: Error)
        ensures
            r is Concurrency && r->Concurrency_0@ == msg@,
    {
        Error::Concurrency(String::from_str(msg))
    }

    /// Whether retrying the failed operation may succeed: timeouts,
    /// admission failures and input/output failures.
    pub fn is_retryable(&self) -> (r: bool)
        ensures
            r == (self is Timeout || self is Concurrency || self is Io),
    {
        match self {
            Error::Timeout(_) | Error::Concurrency(_) | Error::Io(_) => true,
            _ => false,
        }
    }

    /// The code under which the error is monitored.
    pub fn code(&self) -> (r: &'static str)
        ensures
            r@ == code_of(*self),
    {
        match self {
            Error::Config(_) => "CONFIG_ERROR",
            Error::Validation(_) => "VALIDATION_ERROR",
            Error::Processing(_) => "PROCESSING_ERROR",
            Error::Storage(_) => "STORAGE_ERROR",
            Error::Io(_) => "IO_ERROR",
            Error::Serialization(_) => "SERIALIZATION_ERROR",
            Error::InvalidState(_) => "INVALID_STATE",
            Error::NotFound(_) => "NOT_FOUND",
            Error::Timeout(_) => "TIMEOUT",
            Error::Concurrency(_) => "CONCURRENCY_ERROR",
            Error::Internal(_) => "INTERNAL_ERROR",
        }
    }

    /// The human-readable text of the error.
    pub fn describe(&self) -> (r: String)
        ensures
            r@ == error_text(*self),
    {
        match self {
            Error::Config(m) => prefixed("Configuration error: ", m),
            Error::Validation(v) => {
                let d = v.describe();
                prefixed("Validation error: ", &d)
            },
            Error::Processing(m) => prefixed("Processing error: ", m),
            Error::Storage(m) => prefixed("Storage error: ", m),
            Error::Io(m) => prefixed("I/O error: ", m),
            Error::Serialization(m) => prefixed("Serialization error: ", m),
            Error::InvalidState(m) => prefixed("Invalid state: ", m),
            Error::NotFound(m) => prefixed("Resource not found: ", m),
            Error::Timeout(m) => prefixed("Operation timed out: ", m),
            Error::Concurrency(m) => prefixed("Concurrent access error: ", m),
            Error::Internal(m) => prefixed("Internal error: ", m),
        }
    }
}

} // verus!
