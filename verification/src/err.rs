//! Errors reported while scanning source text.

use vstd::prelude::*;

verus! {

/// The kinds of error a scan can report.
#[derive(Debug, PartialEq, Eq, Clone, Copy, Structural)]
pub enum CompilationErrKind {
    /// A numeric literal holds more than one decimal point.
    InvalidNumber,
    /// A string literal is malformed.
    InvalidString,
    /// The scanner reached a state that its own rules exclude.
    Unreachable,
}

impl CompilationErrKind {
    /// Returns `true` if the kind is [`CompilationErrKind::InvalidString`].
    #[must_use]
    pub fn is_invalid_string(&self) -> (b: bool)
        ensures
            b == (*self == CompilationErrKind::InvalidString),
    {
        matches!(self, CompilationErrKind::InvalidString)
    }

    /// Returns `true` if the kind is [`CompilationErrKind::InvalidNumber`].
    #[must_use]
    pub fn is_invalid_number(&self) -> (b: bool)
        ensures
            b == (*self == CompilationErrKind::InvalidNumber),
    {
        matches!(self, CompilationErrKind::InvalidNumber)
    }

    /// Returns `true` if the kind is [`CompilationErrKind::Unreachable`].
    #[must_use]
    pub fn is_unreachable(&self) -> (b: bool)
        ensures
            b == (*self == CompilationErrKind::Unreachable),
    {
        matches!(self, CompilationErrKind::Unreachable)
    }
}

/// An error raised during a scan: its kind and a message for the author of
/// the source text.
#[derive(Debug, PartialEq, Eq)]
pub struct CompilationErr {
    /// What went wrong.
    pub kind: CompilationErrKind,
    /// Human-readable description, with the place in the source.
    pub message: String,
}

/// The mathematical value of a [`CompilationErr`].
pub ghost struct CompilationErrView {
    pub kind: CompilationErrKind,
    pub message: Seq<char>,
}

impl View for CompilationErr {
    type V = CompilationErrView;

    open spec fn view(&self) -> CompilationErrView {
        CompilationErrView { kind: self.kind, message: self.message@ }
    }
}

} // verus!
