//! The error type reported by the target resolver.
//!
//! Three things can go wrong when probing a toolchain: the executable
//! cannot be spawned, its captured output is not valid UTF-8, or the
//! output holds no `host: ` line. Each failure is tagged with its kind so
//! callers can tell them apart, and carries a human-readable message.

use vstd::prelude::*;

verus! {

/// Which stage of the resolution failed.
#[derive(Clone, Copy, Debug, PartialEq, Eq, Structural)]
pub enum ErrorKind {
    /// The toolchain executable could not be started.
    Spawn,
    /// The captured output was not valid UTF-8.
    Decode,
    /// No line of the output begins with the host field prefix.
    Parse,
}

/// A resolution failure: its kind, and a descriptive message.
#[derive(Clone, Debug)]
pub struct Error {
    pub kind: ErrorKind,
    pub details: String,
}

impl Error {
    /// Builds an error of the given kind carrying the given message.
    pub fn new(kind: ErrorKind, msg: &str) -> (e: Error)
        ensures
            e.kind == kind,
            e.details@ == msg@,
    {
        Error { kind, details: msg.to_owned() }
    }

    /// The human-readable message, for display by a caller.
    pub fn message(&self) -> (m: String)
        ensures
            m@ == self.details@,
    {
        self.details.clone()
    }
}

} // verus!
