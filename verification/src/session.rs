//! The parse session: the one entry point through which a parser reports
//! what it finds, into the global session and into its own local log.

use crate::abort::Abort;
use crate::diagnostic::{Diagnostic, DiagnosticView, Loc, LocView, loc_of};
use crate::handler::{
    Handler,
    errors_of,
    law_distinct_reports_all_kept,
    log_insert,
    log_merge,
    warnings_of,
};
use crate::ordered_set::set_items;
use crate::panic_info::{PanicInfo, json_of, syntax_panic};
use crate::parse_error::{ParseError, ParseErrorView};
use crate::source::{
    error_text,
    error_words,
    has_source,
    position_at,
    session_add_error,
    session_default,
    session_position,
    session_share,
    session_snippet,
    session_source_count,
    snippet_at,
};
use crate::span::{Span, Token};
use crate::text::lemma_encoding_of_joined;
use compiler_base_session::Session;
use indexmap::IndexSet;
use std::sync::Arc;
use vstd::prelude::*;
use vstd::string::StringExecFns;

verus! {

/// Whether a session's source map resolves a byte offset: it holds a source
/// buffer, and the offset lies in one on a character boundary. A source map
/// that is shared can gain buffers; what it resolves it resolves for good.
pub open spec fn resolves(sess: Session, pos: u32) -> bool {
    has_source(sess) && snippet_at(sess, pos, pos) is Some
}

/// The position to which a session's source map resolves a byte offset.
pub open spec fn loc_at(sess: Session, pos: u32) -> LocView {
    loc_of(position_at(sess, pos))
}

/// Whether a run of byte offsets leads from `lo` to `at`: it starts at
/// `lo`, ends at `at`, never steps back, and no step is longer than 65535
/// bytes.
pub open spec fn cuts_from(cuts: Seq<u32>, lo: u32, at: u32) -> bool {
    &&& cuts.len() >= 1
    &&& cuts[0] == lo
    &&& cuts[cuts.len() - 1] == at
    &&& forall|i: int|
        1 <= i < cuts.len() ==> cuts[i - 1] <= #[trigger] cuts[i] && cuts[i] - cuts[i - 1]
            <= 0xFFFF
}

/// Whether a run of byte offsets cuts the range from `lo` to `hi` into
/// pieces, at least one.
pub open spec fn cuts_range(cuts: Seq<u32>, lo: u32, hi: u32) -> bool {
    cuts.len() >= 2 && cuts_from(cuts, lo, hi)
}

/// A text with an optional text behind it.
pub open spec fn joined(head: Option<Seq<char>>, rest: Option<Seq<char>>) -> Option<Seq<char>> {
    match (head, rest) {
        (Some(head), Some(rest)) => Some(head + rest),
        _ => None,
    }
}

/// The source texts between neighbouring cuts, one behind the other, if the
/// source map has them all.
pub open spec fn pieces_text(sess: Session, cuts: Seq<u32>) -> Option<Seq<char>>
    decreases cuts.len(),
{
    if cuts.len() <= 1 {
        Some(Seq::empty())
    } else {
        joined(
            pieces_text(sess, cuts.drop_last()),
            snippet_at(sess, cuts[cuts.len() - 2], cuts[cuts.len() - 1]),
        )
    }
}

/// One more piece behind the cuts so far puts its text behind theirs.
proof fn lemma_one_more_piece(
    sess: Session,
    cuts: Seq<u32>,
    lo: u32,
    at: u32,
    mid: u32,
    text: Seq<char>,
    part: Seq<char>,
)
    requires
        cuts_from(cuts, lo, at),
        at <= mid,
        mid - at <= 0xFFFF,
        pieces_text(sess, cuts) == Some(text),
        snippet_at(sess, at, mid) == Some(part),
    ensures
        cuts_range(cuts.push(mid), lo, mid),
        pieces_text(sess, cuts.push(mid)) == Some(text + part),
{
    let longer = cuts.push(mid);
    assert(longer.drop_last() =~= cuts);
    assert(longer[longer.len() - 2] == at);
    assert forall|i: int| 1 <= i < longer.len() implies longer[i - 1] <= #[trigger] longer[i]
        && longer[i] - longer[i - 1] <= 0xFFFF by {
        if i < cuts.len() {
            assert(cuts[i - 1] <= cuts[i]);
        }
    }
}

/// Whether `text` is source text that a session's source map holds for a
/// span: as one text where the span is at most 65535 bytes long, and piece
/// by piece in any case. This like [`resolves`] holds for good once it
/// holds.
pub open spec fn is_snippet(sess: Session, span: Span, text: Seq<char>) -> bool {
    &&& has_source(sess)
    &&& span.one_piece() ==> snippet_at(sess, span.lo, span.hi) == Some(text)
    &&& exists|cuts: Seq<u32>| #[trigger]
        cuts_range(cuts, span.lo, span.hi) && pieces_text(sess, cuts) == Some(text)
}

/// The serialized payload of a fatal syntax error with message `msg` whose
/// span starts at `loc`.
pub open spec fn fatal_payload(msg: Seq<char>, loc: LocView) -> Seq<char> {
    json_of(syntax_panic(msg, loc))
}

/// What the global session is told of a syntax error: the code of a syntax
/// error, the diagnostic's message behind a colon, and the diagnostic's
/// span. A span that a record of the global session cannot hold, longer
/// than 65535 bytes or with its ends out of order, fails the report.
pub fn sink_report(diagnostic: &Diagnostic) -> (report: Result<(String, String, Span), Abort>)
    ensures
        match report {
            Ok(told) => {
                &&& diagnostic@.span.one_piece()
                &&& told.0@ == "E1001"@
                &&& told.1@ == ": "@ + diagnostic@.message
                &&& told.2 == diagnostic@.span
            },
            Err(abort) => !diagnostic@.span.one_piece() && abort == Abort::InvalidSpan(
                diagnostic@.span,
            ),
        },
{
    if !diagnostic.span.is_one_piece() {
        return Err(Abort::InvalidSpan(diagnostic.span));
    }
    let mut line = String::from_str(": ");
    line.append(diagnostic.message.as_str());
    Ok((String::from_str("E1001"), line, diagnostic.span))
}

/// Settles one report once the global session has answered: a diagnostic
/// that the global session took enters the local log, and one that it
/// refused stays out of it and ends the parse with the session's words.
pub fn record(handler: &mut Handler, diagnostic: Diagnostic, accepted: Result<(), anyhow::Error>) -> (done:
    Result<(), Abort>)
    requires
        old(handler).wf(),
    ensures
        final(handler).wf(),
        match accepted {
            Ok(_) => done is Ok && final(handler)@ == log_insert(old(handler)@, diagnostic@),
            Err(err) => final(handler)@ == old(handler)@ && match done {
                Err(Abort::Rejected(words)) => words@ == error_text(err),
                _ => false,
            },
        },
{
    match accepted {
        Ok(_) => {
            handler.add_diagnostic(diagnostic);
            Ok(())
        },
        Err(err) => Err(Abort::Rejected(error_words(&err))),
    }
}

/// The abort of a fatal syntax error with message `msg` at `loc`.
pub fn syntax_abort(msg: &str, loc: &Loc) -> (abort: Abort)
    ensures
        match abort {
            Abort::Syntax(payload) => payload@ == fatal_payload(msg@, loc@),
            _ => false,
        },
{
    Abort::Syntax(PanicInfo::syntax_error(msg, loc).to_json_string())
}

/// The first piece of a long span that starts at `lo`: where it ends, and
/// its text. The piece ends 65535 bytes on, or up to three bytes earlier
/// where that would split a character.
fn first_piece(sess: &Session, lo: u32) -> (piece: Option<(u32, String)>)
    requires
        has_source(*sess),
        lo + 0xFFFF <= u32::MAX,
    ensures
        piece matches Some((mid, text)) ==> {
            &&& lo + 0xFFFC <= mid <= lo + 0xFFFF
            &&& snippet_at(*sess, lo, mid) == Some(text@)
            &&& vstd::utf8::encode_utf8(text@).len() == mid - lo
        },
{
    if let Some(text) = session_snippet(sess, lo, lo + 0xFFFF) {
        return Some((lo + 0xFFFF, text));
    }
    if let Some(text) = session_snippet(sess, lo, lo + 0xFFFE) {
        return Some((lo + 0xFFFE, text));
    }
    if let Some(text) = session_snippet(sess, lo, lo + 0xFFFD) {
        return Some((lo + 0xFFFD, text));
    }
    if let Some(text) = session_snippet(sess, lo, lo + 0xFFFC) {
        return Some((lo + 0xFFFC, text));
    }
    None
}

/// The data of one parse session: the global session that it shares with
/// other sessions, and the local log that it alone owns.
pub struct ParseSession(pub Arc<Session>, pub Handler);

impl ParseSession {
    /// The local log is free of duplicates.
    pub open spec fn wf(&self) -> bool {
        self.1.wf()
    }

    /// The global session.
    pub open spec fn global(&self) -> Session {
        *self.0
    }

    /// The entries of the local log, in report order.
    pub open spec fn log(&self) -> Seq<DiagnosticView> {
        self.1@
    }

    /// A parse session on the given global session, with an empty local log.
    pub fn with_session(sess: Arc<Session>) -> (session: ParseSession)
        ensures
            session.0 == sess,
            session.log() == Seq::<DiagnosticView>::empty(),
            session.wf(),
    {
        ParseSession(sess, Handler::new())
    }

    /// Resolves a byte offset to its position: the file, the 1-based line
    /// and the 0-based column that the source map gives. An offset that the
    /// source map does not resolve now is an internal error. The test is
    /// whether the map has the (empty) text at the offset, so an offset in a
    /// buffer that came without its text counts as unresolved.
    pub fn lookup_char_pos(&self, pos: u32) -> (found: Result<Loc, Abort>)
        ensures
            match found {
                Ok(loc) => resolves(self.global(), pos) && loc@ == loc_at(self.global(), pos),
                Err(abort) => abort == Abort::UnknownOffset(pos),
            },
    {
        if session_source_count(&*self.0) == 0 {
            return Err(Abort::UnknownOffset(pos));
        }
        match session_snippet(&*self.0, pos, pos) {
            Some(_) => Ok(Loc::from_resolved(session_position(&*self.0, pos))),
            None => Err(Abort::UnknownOffset(pos)),
        }
    }

    /// The source text that a span covers, as many bytes as the span is
    /// long. A span of which the source map has no text now is an internal
    /// error.
    pub fn span_to_snippet(&self, span: Span) -> (found: Result<String, Abort>)
        ensures
            match found {
                Ok(text) => {
                    &&& is_snippet(self.global(), span, text@)
                    &&& vstd::utf8::encode_utf8(text@).len() == span.hi - span.lo
                },
                Err(abort) => abort == Abort::InvalidSpan(span),
            },
            span.lo > span.hi ==> found is Err,
    {
        if span.lo > span.hi {
            return Err(Abort::InvalidSpan(span));
        }
        if session_source_count(&*self.0) == 0 {
            return Err(Abort::InvalidSpan(span));
        }
        let mut text = String::new();
        let mut at: u32 = span.lo;
        let ghost mut cuts: Seq<u32> = seq![span.lo];
        proof {
            assert(vstd::utf8::encode_utf8(text@) =~= Seq::<u8>::empty());
        }
        while span.hi - at > 0xFFFF
            invariant
                span.lo <= at <= span.hi,
                has_source(self.global()),
                cuts_from(cuts, span.lo, at),
                pieces_text(self.global(), cuts) == Some(text@),
                vstd::utf8::encode_utf8(text@).len() == at - span.lo,
                span.one_piece() ==> at == span.lo && text@ == Seq::<char>::empty(),
            decreases span.hi - at,
        {
            match first_piece(&*self.0, at) {
                Some((mid, part)) => {
                    proof {
                        lemma_encoding_of_joined(text@, part@);
                        lemma_one_more_piece(self.global(), cuts, span.lo, at, mid, text@, part@);
                        cuts = cuts.push(mid);
                    }
                    text.append(part.as_str());
                    at = mid;
                },
                None => {
                    return Err(Abort::InvalidSpan(span));
                },
            }
        }
        match session_snippet(&*self.0, at, span.hi) {
            Some(part) => {
                proof {
                    lemma_encoding_of_joined(text@, part@);
                    lemma_one_more_piece(self.global(), cuts, span.lo, at, span.hi, text@, part@);
                    assert(cuts_range(cuts.push(span.hi), span.lo, span.hi));
                    if span.one_piece() {
                        assert(text@ + part@ =~= part@);
                    }
                }
                text.append(part.as_str());
                Ok(text)
            },
            None => Err(Abort::InvalidSpan(span)),
        }
    }

    /// The positions that bound a construct: where its first token starts
    /// and where its last token ends.
    pub fn struct_token_loc(&self, lot: Token, hit: Token) -> (found: Result<(Loc, Loc), Abort>)
        ensures
            match found {
                Ok((low, high)) => {
                    &&& resolves(self.global(), lot.span.lo)
                    &&& resolves(self.global(), hit.span.hi)
                    &&& low@ == loc_at(self.global(), lot.span.lo)
                    &&& high@ == loc_at(self.global(), hit.span.hi)
                },
                Err(abort) => abort == Abort::UnknownOffset(lot.span.lo) || (resolves(
                    self.global(),
                    lot.span.lo,
                ) && abort == Abort::UnknownOffset(hit.span.hi)),
            },
    {
        let low = match self.lookup_char_pos(lot.span.lo) {
            Ok(loc) => loc,
            Err(abort) => {
                return Err(abort);
            },
        };
        match self.lookup_char_pos(hit.span.hi) {
            Ok(high) => Ok((low, high)),
            Err(abort) => Err(abort),
        }
    }

    /// Reports an unexpected token and ends the parse: the result is the
    /// reason to hand to the termination. Where the report went through, it
    /// is the payload of a fatal syntax error at the token's start.
    pub fn struct_token_error(&mut self, expected: &[String], got: Token) -> (abort: Abort)
        requires
            old(self).wf(),
        ensures
            final(self).wf(),
            final(self).0 == old(self).0,
            ({
                let err = ParseErrorView::UnexpectedToken {
                    expected: expected.deep_view(),
                    got: got.text@,
                    span: got.span,
                };
                match abort {
                    Abort::Syntax(payload) => {
                        &&& reported(*old(self), *final(self), err, Ok(()))
                        &&& payload@ == fatal_payload(
                            err.message(),
                            loc_at(old(self).global(), got.span.lo),
                        )
                    },
                    _ => reported(*old(self), *final(self), err, Err(abort)),
                }
            }),
    {
        let span = got.span;
        let err = ParseError::unexpected_token(expected, got.text, span);
        let loc = match self.locate(span) {
            Ok(loc) => loc,
            Err(abort) => {
                return abort;
            },
        };
        let fatal = syntax_abort(err.to_string().as_str(), &loc);
        match self.report_at(err, loc) {
            Ok(_) => fatal,
            Err(abort) => abort,
        }
    }

    /// Reports an unexpected token and lets the parse go on. The report
    /// enters the local log if the global session takes it.
    pub fn struct_token_error_recovery(&mut self, expected: &[String], got: Token) -> (done: Result<
        (),
        Abort,
    >)
        requires
            old(self).wf(),
        ensures
            final(self).wf(),
            final(self).0 == old(self).0,
            ({
                let err = ParseErrorView::UnexpectedToken {
                    expected: expected.deep_view(),
                    got: got.text@,
                    span: got.span,
                };
                reported(*old(self), *final(self), err, done)
            }),
    {
        let span = got.span;
        self.add_parse_err(ParseError::unexpected_token(expected, got.text, span))
    }

    /// Reports an error at a span and ends the parse: the result is the
    /// reason to hand to the termination. Where the report went through, it
    /// is the payload of a fatal syntax error at the span's start.
    pub fn struct_span_error(&mut self, msg: &str, span: Span) -> (abort: Abort)
        requires
            old(self).wf(),
        ensures
            final(self).wf(),
            final(self).0 == old(self).0,
            ({
                let err = ParseErrorView::Message { message: msg@, span };
                match abort {
                    Abort::Syntax(payload) => {
                        &&& reported(*old(self), *final(self), err, Ok(()))
                        &&& payload@ == fatal_payload(msg@, loc_at(old(self).global(), span.lo))
                    },
                    _ => reported(*old(self), *final(self), err, Err(abort)),
                }
            }),
    {
        let loc = match self.locate(span) {
            Ok(loc) => loc,
            Err(abort) => {
                return abort;
            },
        };
        let fatal = syntax_abort(msg, &loc);
        match self.report_at(ParseError::message(String::from_str(msg), span), loc) {
            Ok(_) => fatal,
            Err(abort) => abort,
        }
    }

    /// Reports an error at a span and lets the parse go on. The report
    /// enters the local log if the global session takes it.
    pub fn struct_span_error_recovery(&mut self, msg: &str, span: Span) -> (done: Result<(), Abort>)
        requires
            old(self).wf(),
        ensures
            final(self).wf(),
            final(self).0 == old(self).0,
            reported(
                *old(self),
                *final(self),
                ParseErrorView::Message { message: msg@, span },
                done,
            ),
    {
        self.add_parse_err(ParseError::message(String::from_str(msg), span))
    }

    /// Reports a parse error: resolves its start, makes its diagnostic,
    /// offers the report of that diagnostic to the global session and, if
    /// that takes it, enters the diagnostic into the local log.
    pub fn add_parse_err(&mut self, err: ParseError) -> (done: Result<(), Abort>)
        requires
            old(self).wf(),
        ensures
            final(self).wf(),
            final(self).0 == old(self).0,
            reported(*old(self), *final(self), err@, done),
    {
        match self.locate(err.span()) {
            Ok(loc) => self.report_at(err, loc),
            Err(abort) => Err(abort),
        }
    }

    /// Where a report at `span` starts: the span must be one that a record
    /// of the global session holds, and its start must resolve.
    fn locate(&self, span: Span) -> (found: Result<Loc, Abort>)
        ensures
            match found {
                Ok(loc) => {
                    &&& span.one_piece()
                    &&& resolves(self.global(), span.lo)
                    &&& loc@ == loc_at(self.global(), span.lo)
                },
                Err(abort) => if span.one_piece() {
                    abort == Abort::UnknownOffset(span.lo)
                } else {
                    abort == Abort::InvalidSpan(span)
                },
            },
    {
        if !span.is_one_piece() {
            return Err(Abort::InvalidSpan(span));
        }
        self.lookup_char_pos(span.lo)
    }

    /// Reports an error whose start is resolved to `loc`.
    fn report_at(&mut self, err: ParseError, loc: Loc) -> (done: Result<(), Abort>)
        requires
            old(self).wf(),
            err@.span().one_piece(),
        ensures
            final(self).wf(),
            final(self).0 == old(self).0,
            match done {
                Ok(_) => final(self).log() == log_insert(
                    old(self).log(),
                    err@.diagnostic(loc@),
                ),
                Err(abort) => abort is Rejected && final(self).log() == old(self).log(),
            },
    {
        let diagnostic = err.into_diag(loc);
        match sink_report(&diagnostic) {
            Ok(told) => {
                let accepted = session_add_error(&*self.0, told.0, told.1, told.2.lo, told.2.hi);
                record(&mut self.1, diagnostic, accepted)
            },
            Err(abort) => Err(abort),
        }
    }

    /// Merges diagnostics that were produced elsewhere into the local log,
    /// in their order; the global session is not told of them. The result is
    /// the session itself, for a further call.
    pub fn append_diagnostic(&mut self, diagnostics: IndexSet<Diagnostic>) -> (same: &mut Self)
        requires
            old(self).wf(),
        ensures
            same.wf(),
            same.0 == old(self).0,
            same.log() == log_merge(old(self).log(), set_items(diagnostics)),
            *final(self) == *final(same),
    {
        self.1.append(diagnostics);
        self
    }

    /// The local log split by severity: its errors and its warnings, each
    /// in report order.
    pub fn classification(&self) -> (parts: (IndexSet<Diagnostic>, IndexSet<Diagnostic>))
        requires
            self.wf(),
        ensures
            set_items(parts.0) == errors_of(self.log()),
            set_items(parts.1) == warnings_of(self.log()),
    {
        self.1.classification()
    }

    /// The reason that ends the parse for a fatal syntax error: the
    /// serialized payload with the message and the position of the span's
    /// start.
    pub fn fatal(&self, msg: &str, span: Span) -> (abort: Abort)
        ensures
            match abort {
                Abort::Syntax(payload) => resolves(self.global(), span.lo) && payload@
                    == fatal_payload(msg@, loc_at(self.global(), span.lo)),
                _ => abort == Abort::UnknownOffset(span.lo),
            },
    {
        match self.lookup_char_pos(span.lo) {
            Ok(loc) => syntax_abort(msg, &loc),
            Err(abort) => abort,
        }
    }
}

impl Default for ParseSession {
    /// A parse session on a new global session of its own, with an empty
    /// local log.
    fn default() -> (session: ParseSession)
        ensures
            session.log() == Seq::<DiagnosticView>::empty(),
            session.wf(),
    {
        ParseSession(Arc::new(session_default()), Handler::new())
    }
}

impl Clone for ParseSession {
    /// A parse session on the same global session, with a local log of its
    /// own that holds the same entries.
    fn clone(&self) -> (copy: ParseSession)
        ensures
            copy.0 == self.0,
            copy.log() == self.log(),
    {
        ParseSession(session_share(&self.0), self.1.clone())
    }
}

/// What one report of `err` has done to a session, by its outcome. A report
/// that went through had a span that a record of the global session holds,
/// and a start that resolves, and left the error's diagnostic in the log.
/// Every other outcome left the log as it was: a span that no record holds
/// always ends as that span, an unresolved start as that offset, and a
/// refusal by the global session as its words.
pub open spec fn reported(
    before: ParseSession,
    after: ParseSession,
    err: ParseErrorView,
    done: Result<(), Abort>,
) -> bool {
    let sess = before.global();
    let span = err.span();
    match done {
        Ok(_) => {
            &&& span.one_piece()
            &&& resolves(sess, span.lo)
            &&& after.log() == log_insert(before.log(), err.diagnostic(loc_at(sess, span.lo)))
        },
        Err(abort) => after.log() == before.log() && match abort {
            Abort::InvalidSpan(refused) => refused == span && !span.one_piece(),
            Abort::UnknownOffset(pos) => pos == span.lo && span.one_piece(),
            Abort::Rejected(_) => span.one_piece() && resolves(sess, span.lo),
            Abort::Syntax(_) => false,
        },
    }
}

/// The diagnostics of a run of reports, in their order: the report at each
/// place is the error at that place, with its start resolved to the
/// position at that place.
pub open spec fn diagnostics_of(errs: Seq<ParseErrorView>, locs: Seq<LocView>) -> Seq<
    DiagnosticView,
> {
    Seq::new(errs.len(), |i: int| errs[i].diagnostic(locs[i]))
}

/// A run of reports that went through, into a fresh session, leaves as many
/// entries in the local log as there were reports, if no two of the reports
/// agree in both message and span; wherever their starts resolved to.
pub proof fn law_distinct_reports_counted(errs: Seq<ParseErrorView>, locs: Seq<LocView>)
    requires
        errs.len() == locs.len(),
        forall|i: int, j: int|
            0 <= i < j < errs.len() ==> errs[i].message() != errs[j].message() || errs[i].span()
                != errs[j].span(),
    ensures
        log_merge(Seq::empty(), diagnostics_of(errs, locs)).len() == errs.len(),
        log_merge(Seq::empty(), diagnostics_of(errs, locs)) == diagnostics_of(errs, locs),
{
    let batch = diagnostics_of(errs, locs);
    assert forall|i: int, j: int| 0 <= i < batch.len() && 0 <= j < batch.len() && i != j implies batch[i]
        != batch[j] by {
        if i < j {
            assert(errs[i].message() != errs[j].message() || errs[i].span() != errs[j].span());
        } else {
            assert(errs[j].message() != errs[i].message() || errs[j].span() != errs[i].span());
        }
    }
    law_distinct_reports_all_kept(batch);
}

/// The log after the first `n` of a chain of reports is the merge of their
/// diagnostics into the log before the first.
proof fn lemma_chain_is_merge(logs: Seq<Seq<DiagnosticView>>, batch: Seq<DiagnosticView>, n: int)
    requires
        logs.len() == batch.len() + 1,
        0 <= n <= batch.len(),
        forall|k: int|
            1 <= k <= batch.len() ==> #[trigger] logs[k] == log_insert(logs[k - 1], batch[k - 1]),
    ensures
        logs[n] == log_merge(logs[0], batch.take(n)),
    decreases n,
{
    if n > 0 {
        lemma_chain_is_merge(logs, batch, n - 1);
        assert(batch.take(n).drop_last() =~= batch.take(n - 1));
        assert(batch.take(n).last() == batch[n - 1]);
    }
}

/// Call after call: a fresh session's log is empty, and each report that
/// goes through turns the log before it into the log after it. After N such
/// reports, no two of which agree in both message and span, the log holds N
/// entries: the diagnostics of the reports, in call order.
pub proof fn law_successive_reports(
    logs: Seq<Seq<DiagnosticView>>,
    errs: Seq<ParseErrorView>,
    locs: Seq<LocView>,
)
    requires
        errs.len() == locs.len(),
        logs.len() == errs.len() + 1,
        logs[0] == Seq::<DiagnosticView>::empty(),
        forall|k: int|
            1 <= k <= errs.len() ==> #[trigger] logs[k] == log_insert(
                logs[k - 1],
                errs[k - 1].diagnostic(locs[k - 1]),
            ),
        forall|i: int, j: int|
            0 <= i < j < errs.len() ==> errs[i].message() != errs[j].message() || errs[i].span()
                != errs[j].span(),
    ensures
        logs[errs.len() as int].len() == errs.len(),
        logs[errs.len() as int] == diagnostics_of(errs, locs),
{
    let batch = diagnostics_of(errs, locs);
    lemma_chain_is_merge(logs, batch, batch.len() as int);
    assert(batch.take(batch.len() as int) =~= batch);
    law_distinct_reports_counted(errs, locs);
}

} // verus!
