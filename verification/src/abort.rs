//! Why a parse must end: the outcomes that the caller turns into the end of
//! the process.

use crate::span::Span;
use crate::text::{decimal, decimal_string};
use vstd::prelude::*;
use vstd::string::StringExecFns;

verus! {

/// The reason for which the current parse cannot go on. The first variant is
/// a defect of the source text; the others are violations of the session's
/// own invariants.
#[derive(Debug, PartialEq, Eq)]
pub enum Abort {
    /// A fatal syntax error, with the serialized payload that the
    /// termination carries.
    Syntax(String),
    /// No known source buffer resolves this byte offset.
    UnknownOffset(u32),
    /// The span is of no use: the source map has no text for it, or no
    /// record of the global session can hold it.
    InvalidSpan(Span),
    /// The global session did not take a diagnostic; its own words.
    Rejected(String),
}

/// What the termination carries for an abort: the payload of a syntax
/// error as it is, and for the others a text that starts with the mark of
/// an internal error.
pub open spec fn abort_message(abort: Abort) -> Seq<char> {
    match abort {
        Abort::Syntax(payload) => payload@,
        Abort::UnknownOffset(pos) => "compiler session internal error occurs: "@
            + "no source at offset "@ + decimal(pos as nat),
        Abort::InvalidSpan(span) => "compiler session internal error occurs: "@
            + "invalid span "@ + decimal(span.lo as nat) + ".."@ + decimal(
            span.hi as nat,
        ),
        Abort::Rejected(words) => "compiler session internal error occurs: "@ + words@,
    }
}

impl Abort {
    /// Whether the abort reports a violated invariant of the session rather
    /// than a defect of the source text.
    pub fn is_internal(&self) -> (b: bool)
        ensures
            b == !(*self is Syntax),
    {
        match self {
            Abort::Syntax(_) => false,
            _ => true,
        }
    }

    /// The text that the termination carries.
    pub fn message(&self) -> (text: String)
        ensures
            text@ == abort_message(*self),
    {
        match self {
            Abort::Syntax(payload) => payload.clone(),
            Abort::UnknownOffset(pos) => {
                let mut text = String::from_str("compiler session internal error occurs: ");
                text.append("no source at offset ");
                text.append(decimal_string(*pos as u64).as_str());
                text
            },
            Abort::InvalidSpan(span) => {
                let mut text = String::from_str("compiler session internal error occurs: ");
                text.append("invalid span ");
                text.append(decimal_string(span.lo as u64).as_str());
                text.append("..");
                text.append(decimal_string(span.hi as u64).as_str());
                text
            },
            Abort::Rejected(words) => {
                let mut text = String::from_str("compiler session internal error occurs: ");
                text.append(words.as_str());
                text
            },
        }
    }
}

} // verus!
