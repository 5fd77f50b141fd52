//! Diagnostics: normalized, comparable records of reportable conditions.

use crate::span::Span;
use vstd::prelude::*;

verus! {

/// How severe a diagnostic is.
#[derive(Clone, Copy, Debug, PartialEq, Eq, Hash, Structural)]
pub enum Level {
    Error,
    Warning,
}

/// A source position: file, 1-based line, 0-based column. The column is
/// absent only where it is not known; a position that the source map
/// resolved always has one.
#[derive(Debug, PartialEq, Eq, Hash)]
pub struct Loc {
    pub file: String,
    pub line: u64,
    pub column: Option<u64>,
}

/// The mathematical value of a [`Loc`].
pub struct LocView {
    pub file: Seq<char>,
    pub line: u64,
    pub column: Option<u64>,
}

impl View for Loc {
    type V = LocView;

    open spec fn view(&self) -> LocView {
        LocView { file: self.file@, line: self.line, column: self.column }
    }
}

impl Clone for Loc {
    fn clone(&self) -> (copy: Self)
        ensures
            copy == *self,
    {
        Loc { file: self.file.clone(), line: self.line, column: self.column }
    }
}

/// What the position resolver reports for one byte offset: the file's name,
/// the 1-based line, and the 0-based column counted in characters.
pub struct Resolved {
    pub file: String,
    pub line: usize,
    pub col: usize,
}

/// The mathematical value of a [`Resolved`].
pub struct ResolvedView {
    pub file: Seq<char>,
    pub line: usize,
    pub col: usize,
}

impl View for Resolved {
    type V = ResolvedView;

    open spec fn view(&self) -> ResolvedView {
        ResolvedView { file: self.file@, line: self.line, col: self.col }
    }
}

/// The position that a resolver report stands for: its file, its line and
/// its column counted in characters. A resolved position always has a
/// column, 0 at the start of a line.
pub open spec fn loc_of(raw: ResolvedView) -> LocView {
    LocView { file: raw.file, line: raw.line as u64, column: Some(raw.col as u64) }
}

impl Loc {
    /// Turns a resolver report into a position.
    pub fn from_resolved(raw: Resolved) -> (loc: Loc)
        ensures
            loc@ == loc_of(raw@),
    {
        Loc { file: raw.file, line: raw.line as u64, column: Some(raw.col as u64) }
    }
}

/// One reportable condition. Two diagnostics are the same entry of a log
/// exactly when severity, message, span and position all agree.
#[derive(Debug, PartialEq, Eq, Hash)]
pub struct Diagnostic {
    pub level: Level,
    pub message: String,
    pub span: Span,
    pub loc: Loc,
}

/// The mathematical value of a [`Diagnostic`].
pub struct DiagnosticView {
    pub level: Level,
    pub message: Seq<char>,
    pub span: Span,
    pub loc: LocView,
}

impl View for Diagnostic {
    type V = DiagnosticView;

    open spec fn view(&self) -> DiagnosticView {
        DiagnosticView {
            level: self.level,
            message: self.message@,
            span: self.span,
            loc: self.loc@,
        }
    }
}

impl Clone for Diagnostic {
    fn clone(&self) -> (copy: Self)
        ensures
            copy == *self,
    {
        Diagnostic {
            level: self.level,
            message: self.message.clone(),
            span: self.span,
            loc: self.loc.clone(),
        }
    }
}

impl Diagnostic {
    /// A diagnostic of the given severity.
    pub fn new(level: Level, message: String, span: Span, loc: Loc) -> (diag: Diagnostic)
        ensures
            diag@ == (DiagnosticView { level, message: message@, span, loc: loc@ }),
    {
        Diagnostic { level, message, span, loc }
    }

    /// Whether this diagnostic is an error.
    pub fn is_error(&self) -> (b: bool)
        ensures
            b == (self@.level == Level::Error),
    {
        match self.level {
            Level::Error => true,
            Level::Warning => false,
        }
    }
}

} // verus!
