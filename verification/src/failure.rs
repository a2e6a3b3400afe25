//! The error type of operations that the library decides.
use vstd::prelude::*;

verus! {

/// The category of a failure, matching the I/O error kinds that callers report.
#[derive(Debug, Clone, Copy, PartialEq, Eq, Structural)]
pub enum FailureKind {
    NotFound,
    InvalidData,
    InvalidInput,
    PermissionDenied,
    Other,
}

/// A failure with its category and message.
#[derive(Debug, Clone, PartialEq, Eq)]
pub struct Failure {
    pub kind: FailureKind,
    pub message: String,
}

impl View for Failure {
    type V = (FailureKind, Seq<char>);

    open spec fn view(&self) -> (FailureKind, Seq<char>) {
        (self.kind, self.message@)
    }
}

impl Failure {
    pub fn new(kind: FailureKind, message: String) -> (f: Failure)
        ensures
            f@ == (kind, message@),
    {
        Failure { kind, message }
    }

    /// A failure whose message is a fixed text.
    pub fn with_text(kind: FailureKind, message: &str) -> (f: Failure)
        ensures
            f@ == (kind, message@),
    {
        Failure { kind, message: String::from_str(message) }
    }
}

} // verus!
