//! Errors reported by the library.
use vstd::prelude::*;
use crate::text::{concat, copy_text};

verus! {

/// The category of an error.
#[derive(Debug, Clone, Copy, PartialEq, Eq, Structural)]
pub enum ErrorKind {
    RuntimeError,
    TypeError,
    SecurityError,
    LockPoisoned,
    InternalError,
    AsyncError,
    IoError,
    ParseError,
}

/// The text that names an error category in rendered messages.
pub open spec fn kind_label(k: ErrorKind) -> Seq<char> {
    match k {
        ErrorKind::RuntimeError => "Runtime error"@,
        ErrorKind::TypeError => "Type error"@,
        ErrorKind::SecurityError => "Security error"@,
        ErrorKind::LockPoisoned => "Lock poisoned"@,
        ErrorKind::InternalError => "Internal error"@,
        ErrorKind::AsyncError => "Async error"@,
        ErrorKind::IoError => "I/O error"@,
        ErrorKind::ParseError => "Parse error"@,
    }
}

/// An error: its category and a human readable message.
#[derive(Debug, Clone)]
pub struct Error {
    pub kind: ErrorKind,
    pub message: String,
}

impl Error {
    /// Creates an error of the given kind with the given message.
    pub fn new(kind: ErrorKind, message: &str) -> (e: Error)
        ensures
            e.kind == kind,
            e.message@ == message@,
    {
        Error { kind, message: copy_text(message) }
    }

    /// Creates an error of the given kind that owns the given message.
    pub fn with_message(kind: ErrorKind, message: String) -> (e: Error)
        ensures
            e.kind == kind,
            e.message@ == message@,
    {
        Error { kind, message }
    }

    /// A security violation with the given message.
    pub fn security_error(message: String) -> (e: Error)
        ensures
            e.kind == ErrorKind::SecurityError,
            e.message@ == message@,
    {
        Error { kind: ErrorKind::SecurityError, message }
    }

    /// An internal failure with the given message.
    pub fn internal(message: &str) -> (e: Error)
        ensures
            e.kind == ErrorKind::InternalError,
            e.message@ == message@,
    {
        Error { kind: ErrorKind::InternalError, message: copy_text(message) }
    }

    /// The category of this error.
    pub fn kind(&self) -> (k: ErrorKind)
        ensures
            k == self.kind,
    {
        self.kind
    }

    /// The message of this error.
    pub fn message(&self) -> (m: &str)
        ensures
            m@ == self.message@,
    {
        self.message.as_str()
    }

    /// Renders the error as "<category>: <message>".
    pub fn to_string(&self) -> (s: String)
        ensures
            s@ == kind_label(self.kind) + ": "@ + self.message@,
    {
        let label: &str = match self.kind {
            ErrorKind::RuntimeError => "Runtime error",
            ErrorKind::TypeError => "Type error",
            ErrorKind::SecurityError => "Security error",
            ErrorKind::LockPoisoned => "Lock poisoned",
            ErrorKind::InternalError => "Internal error",
            ErrorKind::AsyncError => "Async error",
            ErrorKind::IoError => "I/O error",
            ErrorKind::ParseError => "Parse error",
        };
        proof {
            reveal_strlit("Runtime error");
            reveal_strlit("Type error");
            reveal_strlit("Security error");
            reveal_strlit("Lock poisoned");
            reveal_strlit("Internal error");
            reveal_strlit("Async error");
            reveal_strlit("I/O error");
            reveal_strlit("Parse error");
        }
        let head = concat(label, ": ");
        concat(head.as_str(), self.message.as_str())
    }
}

} // verus!
