//! The parse errors that a session reports, and the diagnostic that each
//! one becomes.

use crate::diagnostic::{Diagnostic, DiagnosticView, Level, Loc, LocView};
use crate::span::Span;
use crate::text::{debug_quote, debug_string};
use vstd::prelude::*;
use vstd::string::StringExecFns;

verus! {

/// A condition that stops or disturbs parsing.
#[derive(Debug)]
pub enum ParseError {
    /// The parser met `got` where it wanted one of `expected`.
    UnexpectedToken { expected: Vec<String>, got: String, span: Span },
    /// Any other condition, described by its message.
    Message { message: String, span: Span },
}

/// The mathematical value of a [`ParseError`].
pub enum ParseErrorView {
    UnexpectedToken { expected: Seq<Seq<char>>, got: Seq<char>, span: Span },
    Message { message: Seq<char>, span: Span },
}

impl View for ParseError {
    type V = ParseErrorView;

    open spec fn view(&self) -> ParseErrorView {
        match *self {
            ParseError::UnexpectedToken { expected, got, span } => ParseErrorView::UnexpectedToken {
                expected: expected.deep_view(),
                got: got@,
                span,
            },
            ParseError::Message { message, span } => ParseErrorView::Message {
                message: message@,
                span,
            },
        }
    }
}

/// The wanted tokens as they stand in a message: each one quoted, in their
/// order, with a comma and a blank between neighbours.
pub open spec fn quoted_list(items: Seq<Seq<char>>) -> Seq<char>
    decreases items.len(),
{
    if items.len() == 0 {
        Seq::empty()
    } else if items.len() == 1 {
        debug_string(items[0])
    } else {
        quoted_list(items.drop_last()) + ", "@ + debug_string(items.last())
    }
}

/// The message of an unexpected token.
pub open spec fn unexpected_token_message(expected: Seq<Seq<char>>, got: Seq<char>) -> Seq<char> {
    "expected one of ["@ + quoted_list(expected) + "] got "@ + got
}

impl ParseErrorView {
    /// Where the error stands.
    pub open spec fn span(self) -> Span {
        match self {
            ParseErrorView::UnexpectedToken { span, .. } => span,
            ParseErrorView::Message { span, .. } => span,
        }
    }

    /// What the error says: a message passes through unchanged, an
    /// unexpected token lists what was wanted against what was met.
    pub open spec fn message(self) -> Seq<char> {
        match self {
            ParseErrorView::UnexpectedToken { expected, got, .. } => unexpected_token_message(
                expected,
                got,
            ),
            ParseErrorView::Message { message, .. } => message,
        }
    }

    /// The diagnostic that the error becomes once its start is resolved to
    /// `loc`: an error, with the error's message and span.
    pub open spec fn diagnostic(self, loc: LocView) -> DiagnosticView {
        DiagnosticView { level: Level::Error, message: self.message(), span: self.span(), loc }
    }
}

/// Writes the wanted tokens as they stand in a message.
pub fn render_expected(expected: &[String]) -> (text: String)
    ensures
        text@ == quoted_list(expected.deep_view()),
{
    let mut text = String::new();
    let n = expected.len();
    let mut i: usize = 0;
    proof {
        assert(expected.deep_view().take(0) =~= Seq::<Seq<char>>::empty());
    }
    while i < n
        invariant
            i <= n,
            n == expected.len(),
            text@ == quoted_list(expected.deep_view().take(i as int)),
        decreases n - i,
    {
        let quoted = debug_quote(expected[i].as_str());
        proof {
            let all = expected.deep_view();
            assert(all.take(i + 1).drop_last() =~= all.take(i as int));
            assert(all.take(i + 1).last() == expected[i as int]@);
            assert(all.take(1)[0] == all[0]);
        }
        if i > 0 {
            text.append(", ");
        }
        text.append(quoted.as_str());
        proof {
            if i == 0 {
                assert(text@ =~= debug_string(expected[0]@));
            }
        }
        i = i + 1;
    }
    proof {
        assert(expected.deep_view().take(n as int) =~= expected.deep_view());
    }
    text
}

impl ParseError {
    /// An unexpected token: `got` stood where one of `expected` was wanted.
    pub fn unexpected_token(expected: &[String], got: String, span: Span) -> (err: ParseError)
        ensures
            err@ == (ParseErrorView::UnexpectedToken {
                expected: expected.deep_view(),
                got: got@,
                span,
            }),
    {
        let mut wanted: Vec<String> = Vec::new();
        let n = expected.len();
        let mut i: usize = 0;
        while i < n
            invariant
                i <= n,
                n == expected.len(),
                wanted@.len() == i,
                forall|j: int| 0 <= j < i ==> wanted@[j]@ == expected@[j]@,
            decreases n - i,
        {
            wanted.push(expected[i].clone());
            i = i + 1;
        }
        proof {
            assert(wanted.deep_view() =~= expected.deep_view());
        }
        ParseError::UnexpectedToken { expected: wanted, got, span }
    }

    /// An error that is its message.
    pub fn message(message: String, span: Span) -> (err: ParseError)
        ensures
            err@ == (ParseErrorView::Message { message: message@, span }),
    {
        ParseError::Message { message, span }
    }

    /// Where the error stands.
    pub fn span(&self) -> (span: Span)
        ensures
            span == self@.span(),
    {
        match self {
            ParseError::UnexpectedToken { span, .. } => *span,
            ParseError::Message { span, .. } => *span,
        }
    }

    /// What the error says.
    pub fn to_string(&self) -> (text: String)
        ensures
            text@ == self@.message(),
    {
        match self {
            ParseError::UnexpectedToken { expected, got, .. } => {
                let mut text = String::from_str("expected one of [");
                let list = render_expected(expected.as_slice());
                text.append(list.as_str());
                text.append("] got ");
                text.append(got.as_str());
                text
            },
            ParseError::Message { message, .. } => message.clone(),
        }
    }

    /// The diagnostic that the error becomes once its start is resolved to
    /// `loc`.
    pub fn into_diag(self, loc: Loc) -> (diag: Diagnostic)
        ensures
            diag@ == self@.diagnostic(loc@),
    {
        let message = self.to_string();
        let span = self.span();
        Diagnostic::new(Level::Error, message, span, loc)
    }
}

} // verus!
