//! The global session: the compiler-wide error sink and the source map that
//! resolves byte offsets. Nothing in this file is proved: each function
//! states what the session's own source shows of the call it makes.
//!
//! A session's source map can gain buffers while it is shared, and never
//! loses one or changes one. So the names below stand for what a map holds
//! for good: a call that finds a buffer, a text or a position says so, and
//! a call that finds none says nothing, since a later call may find one.

use crate::diagnostic::{Resolved, ResolvedView};
use compiler_base_error::components::{CodeSnippet, Label};
use compiler_base_error::{Diagnostic, DiagnosticStyle};
use compiler_base_session::Session;
use compiler_base_span::span::new_byte_pos;
use compiler_base_span::Span;
use std::sync::Arc;
use vstd::prelude::*;

verus! {

#[verifier::external_type_specification]
#[verifier::external_body]
pub struct ExSession(Session);

#[verifier::external_type_specification]
#[verifier::external_body]
pub struct ExError(anyhow::Error);

/// Whether a session's source map holds a source buffer.
pub uninterp spec fn has_source(sess: Session) -> bool;

/// The text that a session's source map holds between two byte offsets,
/// where both lie in one buffer, in order, on character boundaries.
pub uninterp spec fn snippet_at(sess: Session, lo: u32, hi: u32) -> Option<Seq<char>>;

/// What a session's source map reports for a byte offset that it resolves.
pub uninterp spec fn position_at(sess: Session, pos: u32) -> ResolvedView;

/// The words of an error of the global session.
pub uninterp spec fn error_text(err: anyhow::Error) -> Seq<char>;

/// `SourceMap::files`, counted: how many source buffers the session knows
/// now. A count above 0 shows that the map holds a buffer; a count of 0
/// shows nothing that lasts.
#[verifier::external_body]
pub(crate) fn session_source_count(sess: &Session) -> (n: usize)
    ensures
        n > 0 ==> has_source(*sess),
{
    sess.sm.files().len()
}

/// `SourceMap::span_to_snippet` on the span from `lo` to `hi`: the source
/// text between the two offsets, or nothing where the source map has no such
/// text now. A text returned is a slice of one buffer, `hi - lo` bytes long,
/// and the map keeps it. An empty source map is left out: the call does not
/// return on it. So is a span longer than the map's spans can be.
#[verifier::external_body]
pub(crate) fn session_snippet(sess: &Session, lo: u32, hi: u32) -> (text: Option<String>)
    requires
        has_source(*sess),
        lo <= hi,
        hi - lo <= 0xFFFF,
    ensures
        text matches Some(t) ==> snippet_at(*sess, lo, hi) == Some(t@) && vstd::utf8::encode_utf8(
            t@,
        ).len() == hi - lo,
{
    sess.sm.span_to_snippet(Span::new(new_byte_pos(lo), new_byte_pos(hi))).ok()
}

/// `SourceMap::lookup_char_pos`: the file, line and column of a byte
/// offset. The call returns where the source map holds a buffer and the
/// offset lies in it on a character boundary, which is where the map has an
/// (empty) text at the offset; other offsets are left out. What the map
/// reports for such an offset it reports for good.
#[verifier::external_body]
pub(crate) fn session_position(sess: &Session, pos: u32) -> (raw: Resolved)
    requires
        has_source(*sess),
        snippet_at(*sess, pos, pos) is Some,
    ensures
        raw@ == position_at(*sess, pos),
{
    let loc = sess.sm.lookup_char_pos(new_byte_pos(pos));
    Resolved {
        file: format!("{}", loc.file.name.prefer_remapped()),
        line: loc.line,
        col: loc.col.0,
    }
}

/// `DiagnosticHandler::add_err_diagnostic` on the session's handler, with an
/// error label that carries `code`, a line of text behind it, and the code
/// snippet of the span from `lo` to `hi` in the session's own source map.
/// Whether the session takes the diagnostic is its own affair: nothing is
/// claimed of the outcome. A span that the map's spans cannot hold as it is
/// is left out.
#[verifier::external_body]
pub(crate) fn session_add_error(
    sess: &Session,
    code: String,
    line: String,
    lo: u32,
    hi: u32,
) -> (accepted: Result<(), anyhow::Error>)
    requires
        lo <= hi,
        hi - lo <= 0xFFFF,
{
    let mut diag = Diagnostic::<DiagnosticStyle>::new();
    diag.append_component(Box::new(Label::Error(code)));
    diag.append_component(Box::new(line));
    let span = Span::new(new_byte_pos(lo), new_byte_pos(hi));
    diag.append_component(Box::new(CodeSnippet::new(span, sess.sm.clone())));
    sess.diag_handler.add_err_diagnostic(diag).map(|_| ())
}

/// `Session::default`: a new session. Its source map starts without a
/// buffer, which is nothing that lasts, so nothing is claimed of it.
#[verifier::external_body]
pub(crate) fn session_default() -> (sess: Session) {
    Session::default()
}

/// `Arc::clone`: one more handle on the same session.
#[verifier::external_body]
pub(crate) fn session_share(sess: &Arc<Session>) -> (same: Arc<Session>)
    ensures
        same == *sess,
{
    Arc::clone(sess)
}

/// `anyhow::Error`'s display: the words of the error.
#[verifier::external_body]
pub(crate) fn error_words(err: &anyhow::Error) -> (words: String)
    ensures
        words@ == error_text(*err),
{
    err.to_string()
}

} // verus!
