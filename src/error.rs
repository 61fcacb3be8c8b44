//! The error kinds of the two control clients.
use vstd::prelude::*;
use crate::text::{chars_of, string_of, push_all, push_str, i64_to_chars, dec_signed};

verus! {

/// Errors of service operations.
#[derive(Debug, Clone)]
pub enum ServiceError {
    /// The unit does not exist.
    ServiceNotFound(String),
    /// The operation needs privileges that the caller lacks.
    PermissionDenied(String),
    /// The identifier was rejected before any command ran.
    InvalidServiceName(String),
    /// Control-plane output did not have the expected shape.
    ParseError(String),
    /// The command did not finish in time.
    Timeout(String),
    /// The command exited with a status that no other kind covers.
    CommandFailed { command: String, exit_code: i32, stderr: String },
    /// The command could not be spawned or waited for.
    IoError(String),
    /// Any other failure.
    Other(String),
}

/// Errors of timer operations.
#[derive(Debug, Clone)]
pub enum TimerError {
    /// The timer, service or log does not exist.
    NotFound(String),
    /// The command exited with a non-zero status.
    CommandFailed { command: String, stderr: String, exit_code: Option<i32> },
    /// Control-plane output did not have the expected shape.
    ParseError { source: String, reason: String },
    /// The identifier or another argument was rejected.
    InvalidInput(String),
    /// The operation needs privileges that the caller lacks.
    PermissionDenied(String),
    /// The command could not be spawned or waited for.
    IoError(String),
    /// A JSON document could not be read or written.
    JsonError(String),
}

pub open spec fn service_error_text(e: ServiceError) -> Seq<char> {
    match e {
        ServiceError::ServiceNotFound(n) => "Service not found: "@ + n@,
        ServiceError::PermissionDenied(m) => "Permission denied: "@ + m@,
        ServiceError::InvalidServiceName(n) => "Invalid service name: "@ + n@,
        ServiceError::ParseError(m) => "Failed to parse output: "@ + m@,
        ServiceError::Timeout(m) => "Operation timed out: "@ + m@,
        ServiceError::CommandFailed { command, exit_code, stderr } => "Command '"@ + command@
            + "' failed with exit code "@ + dec_signed(exit_code as int) + ": "@ + stderr@,
        ServiceError::IoError(m) => "I/O error: "@ + m@,
        ServiceError::Other(m) => "Error: "@ + m@,
    }
}

pub open spec fn optional_code_text(c: Option<i32>) -> Seq<char> {
    match c {
        Some(v) => "Some("@ + dec_signed(v as int) + ")"@,
        None => "None"@,
    }
}

pub open spec fn timer_error_text(e: TimerError) -> Seq<char> {
    match e {
        TimerError::NotFound(n) => "Timer or service not found: "@ + n@,
        TimerError::CommandFailed { command, stderr, exit_code } => "Command '"@ + command@
            + "' failed with exit code "@ + optional_code_text(exit_code) + ": "@ + stderr@,
        TimerError::ParseError { source, reason } => "Failed to parse "@ + source@ + ": "@
            + reason@,
        TimerError::InvalidInput(m) => "Invalid input: "@ + m@,
        TimerError::PermissionDenied(m) => "Permission denied: "@ + m@,
        TimerError::IoError(m) => "I/O error: "@ + m@,
        TimerError::JsonError(m) => "JSON error: "@ + m@,
    }
}

fn prefixed(prefix: &str, s: &String) -> (r: String)
    ensures
        r@ == prefix@ + s@,
{
    let mut v = chars_of(prefix);
    let t = chars_of(s.as_str());
    push_all(&mut v, &t);
    string_of(&v)
}

impl ServiceError {
    /// The text shown to a user for this error.
    pub fn to_string(&self) -> (r: String)
        ensures
            r@ == service_error_text(*self),
    {
        match self {
            ServiceError::ServiceNotFound(n) => prefixed("Service not found: ", n),
            ServiceError::PermissionDenied(m) => prefixed("Permission denied: ", m),
            ServiceError::InvalidServiceName(n) => prefixed("Invalid service name: ", n),
            ServiceError::ParseError(m) => prefixed("Failed to parse output: ", m),
            ServiceError::Timeout(m) => prefixed("Operation timed out: ", m),
            ServiceError::CommandFailed { command, exit_code, stderr } => {
                let mut v = chars_of("Command '");
                push_str(&mut v, command.as_str());
                push_str(&mut v, "' failed with exit code ");
                let code = i64_to_chars(*exit_code as i64);
                push_all(&mut v, &code);
                push_str(&mut v, ": ");
                push_str(&mut v, stderr.as_str());
                string_of(&v)
            },
            ServiceError::IoError(m) => prefixed("I/O error: ", m),
            ServiceError::Other(m) => prefixed("Error: ", m),
        }
    }
}

impl TimerError {
    /// The text shown to a user for this error.
    pub fn to_string(&self) -> (r: String)
        ensures
            r@ == timer_error_text(*self),
    {
        match self {
            TimerError::NotFound(n) => prefixed("Timer or service not found: ", n),
            TimerError::CommandFailed { command, stderr, exit_code } => {
                let mut v = chars_of("Command '");
                push_str(&mut v, command.as_str());
                push_str(&mut v, "' failed with exit code ");
                match exit_code {
                    Some(c) => {
                        push_str(&mut v, "Some(");
                        let code = i64_to_chars(*c as i64);
                        push_all(&mut v, &code);
                        push_str(&mut v, ")");
                    },
                    None => push_str(&mut v, "None"),
                }
                push_str(&mut v, ": ");
                push_str(&mut v, stderr.as_str());
                string_of(&v)
            },
            TimerError::ParseError { source, reason } => {
                let mut v = chars_of("Failed to parse ");
                push_str(&mut v, source.as_str());
                push_str(&mut v, ": ");
                push_str(&mut v, reason.as_str());
                string_of(&v)
            },
            TimerError::InvalidInput(m) => prefixed("Invalid input: ", m),
            TimerError::PermissionDenied(m) => prefixed("Permission denied: ", m),
            TimerError::IoError(m) => prefixed("I/O error: ", m),
            TimerError::JsonError(m) => prefixed("JSON error: ", m),
        }
    }
}


#[verifier::external_type_specification]
#[verifier::external_body]
pub struct ExIoError(std::io::Error);

/// Relies on `std::io::Error`'s `Display`: the text of the error.
#[verifier::external_body]
fn io_error_text(e: &std::io::Error) -> (r: String) {
    e.to_string()
}

impl From<std::io::Error> for ServiceError {
    /// An I/O failure, with its text.
    fn from(err: std::io::Error) -> (r: Self)
        ensures
            r is IoError,
    {
        ServiceError::IoError(io_error_text(&err))
    }
}

impl vstd::std_specs::convert::FromSpecImpl<std::io::Error> for ServiceError {
    open spec fn obeys_from_spec() -> bool {
        false
    }

    open spec fn from_spec(v: std::io::Error) -> Self {
        arbitrary()
    }
}

} // verus!
