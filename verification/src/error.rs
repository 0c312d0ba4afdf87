//! What can be wrong with a template, and where.

use vstd::prelude::*;
use proc_macro2::Span;
use crate::program::{Diagnostic, DiagnosticView};

verus! {

/// The ways in which a repetition can be malformed.
#[derive(Clone, Copy, Debug, PartialEq, Eq, Structural)]
pub enum ErrorKind {
    /// The repeated part interpolates no name, so nothing says how often to
    /// repeat it.
    EmptyRepetition,
    /// A repetition stands inside another one, or inside a separator.
    NestedRepetition,
    /// The input ends before the `*` that closes the repetition.
    UnterminatedRepetition,
}

/// A malformed repetition: where it starts, where it ends if that is
/// somewhere else, and what is wrong with it.
#[derive(Clone, Copy, Debug)]
pub struct Error {
    pub span_s: Span,
    pub span_e: Option<Span>,
    pub kind: ErrorKind,
}

/// The message for each kind of error.
pub open spec fn message_text(kind: ErrorKind) -> Seq<char> {
    match kind {
        ErrorKind::EmptyRepetition => "Expected at least one iterator inside pattern."@,
        ErrorKind::NestedRepetition => "Nested iterator patterns not supported."@,
        ErrorKind::UnterminatedRepetition => "Iterating interpolation does not have `*` symbol."@,
    }
}

/// The error of `kind` located at `span`.
pub open spec fn error_at(span: Span, kind: ErrorKind) -> Error {
    Error { span_s: span, span_e: None, kind }
}

/// The error of `kind` that reaches from `start` to `end`.
pub open spec fn error_between(start: Span, end: Span, kind: ErrorKind) -> Error {
    Error { span_s: start, span_e: Some(end), kind }
}

/// The diagnostic that reports `error`: the message stands where the error
/// starts, and the statement ends where the error ends.
pub open spec fn raise_spec(error: Error) -> DiagnosticView {
    DiagnosticView {
        message: message_text(error.kind),
        span: error.span_s,
        end: match error.span_e {
            Some(end) => end,
            None => error.span_s,
        },
    }
}

impl ErrorKind {
    /// The message that reports an error of this kind.
    pub fn message(self) -> (text: &'static str)
        ensures
            text@ == message_text(self),
    {
        match self {
            ErrorKind::EmptyRepetition => "Expected at least one iterator inside pattern.",
            ErrorKind::NestedRepetition => "Nested iterator patterns not supported.",
            ErrorKind::UnterminatedRepetition => "Iterating interpolation does not have `*` symbol.",
        }
    }
}

impl Error {
    /// An error of `kind` located at `span`.
    pub fn new(span: Span, kind: ErrorKind) -> (error: Error)
        ensures
            error == error_at(span, kind),
    {
        Error { span_s: span, span_e: None, kind }
    }

    /// The same error, reaching as far as `span`.
    pub fn end_span(self, span: Span) -> (error: Error)
        ensures
            error == (Error { span_e: Some(span), ..self }),
    {
        Error { span_s: self.span_s, span_e: Some(span), kind: self.kind }
    }

    /// The message that reports this error.
    pub fn message(&self) -> (text: &'static str)
        ensures
            text@ == message_text(self.kind),
    {
        self.kind.message()
    }

    /// Turns the error into the diagnostic that reports it.
    pub fn raise(self) -> (diagnostic: Diagnostic)
        ensures
            diagnostic@ == raise_spec(self),
    {
        let end = match self.span_e {
            Some(end) => end,
            None => self.span_s,
        };
        Diagnostic { message: self.kind.message(), span: self.span_s, end }
    }
}

} // verus!
