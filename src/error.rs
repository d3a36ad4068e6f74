//! The error value returned by every fallible operation of the library.

use vstd::prelude::*;

verus! {

/// What went wrong.
#[derive(Debug, Clone, Copy, PartialEq, Eq, Structural)]
pub enum ErrorKind {
    /// A push onto a full buffer.
    CapacityExceeded,
    /// A pop from an empty buffer.
    Underflow,
    /// A read or write at a position outside the backing storage.
    OutOfRange,
}

/// An error: what went wrong, with a message and the source location that raised it.
#[derive(Debug, Clone, Copy)]
pub struct Error {
    /// The category of the failure.
    pub kind: ErrorKind,
    /// The error message.
    pub message: &'static str,
    /// The source file that raised the error.
    pub file: &'static str,
    /// The line within `file`.
    pub line: u32,
}

impl Error {
    /// Creates an error of the given kind at the given source location.
    pub fn new(kind: ErrorKind, message: &'static str, file: &'static str, line: u32) -> (r: Error)
        ensures
            r.kind == kind,
            r.message == message,
            r.file == file,
            r.line == line,
    {
        Error { kind, message, file, line }
    }
}

} // verus!
