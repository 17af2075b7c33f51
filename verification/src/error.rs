//! The error type shared by the abstraction stage and the command line.
//!
//! An error carries a human-readable message and, when it originates from a
//! concrete place in a source document, the span of the offending substring.

use vstd::prelude::*;
use vstd::string::StringExecFns;
use crate::source::Span;

verus! {

#[derive(Debug, Clone, PartialEq, Eq)]
pub struct Error {
    pub message: String,
    pub span: Option<Span>,
}

impl Error {
    /// An error that is not tied to a place in a source document.
    pub fn new(message: &str) -> (e: Error)
        ensures
            e.message@ == message@,
            e.span is None,
    {
        Error { message: message.to_owned(), span: None }
    }

    /// An error pointing at the exact offending substring.
    pub fn with_span(message: &str, span: Span) -> (e: Error)
        ensures
            e.message@ == message@,
            e.span == Some(span),
    {
        Error { message: message.to_owned(), span: Some(span) }
    }

    /// Render the error the way the command-line front end prints it.
    pub fn report(&self) -> (r: String)
        ensures
            r@ == "Error: "@ + self.message@ + "\n"@,
    {
        let mut out: String = "Error: ".to_owned();
        out.append(self.message.as_str());
        out.append("\n");
        out
    }
}

} // verus!
