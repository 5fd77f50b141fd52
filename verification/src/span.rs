//! Byte-offset ranges into a source buffer and the tokens that carry them.

use vstd::prelude::*;

verus! {

/// A half-open byte-offset range `[lo, hi)` into a source buffer.
#[derive(Clone, Copy, Debug, PartialEq, Eq, Hash, Structural)]
pub struct Span {
    pub lo: u32,
    pub hi: u32,
}

impl Span {
    /// The span between two offsets, whichever order they are given in.
    pub fn new(a: u32, b: u32) -> (span: Span)
        ensures
            span.lo == if a <= b { a } else { b },
            span.hi == if a <= b { b } else { a },
    {
        if a <= b {
            Span { lo: a, hi: b }
        } else {
            Span { lo: b, hi: a }
        }
    }

    /// Whether the ends are in order and at most 65535 bytes apart: what one
    /// span of a source map can hold.
    pub open spec fn one_piece(self) -> bool {
        self.lo <= self.hi && self.hi - self.lo <= 0xFFFF
    }

    /// Whether the ends are in order and at most 65535 bytes apart.
    pub fn is_one_piece(&self) -> (b: bool)
        ensures
            b == self.one_piece(),
    {
        self.lo <= self.hi && self.hi - self.lo <= 0xFFFF
    }

    /// The offset at which the span starts.
    pub fn lo(&self) -> (pos: u32)
        ensures
            pos == self.lo,
    {
        self.lo
    }

    /// The offset just past the span's end.
    pub fn hi(&self) -> (pos: u32)
        ensures
            pos == self.hi,
    {
        self.hi
    }
}

/// A token as the parser hands it over: how it reads in a message, and where
/// it stands.
#[derive(Debug, PartialEq, Eq)]
pub struct Token {
    pub text: String,
    pub span: Span,
}

impl Token {
    /// A token with the given description and place.
    pub fn new(text: String, span: Span) -> (token: Token)
        ensures
            token.text == text,
            token.span == span,
    {
        Token { text, span }
    }
}

} // verus!
