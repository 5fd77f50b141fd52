use compiler_base_session::Session;
use indexmap::IndexSet;
use parse_session::abort::Abort;
use parse_session::diagnostic::{Diagnostic, Level, Loc};
use parse_session::handler::Handler;
use parse_session::session::{record, sink_report, ParseSession};
use parse_session::span::{Span, Token};
use std::path::PathBuf;
use std::sync::Arc;

const SOURCE: &str = "a = 1\nb = 2\nc = {;\n";

fn global() -> Arc<Session> {
    Arc::new(Session::new_with_file_and_code("main.k", Some(SOURCE)).unwrap())
}

fn token(text: &str, lo: u32, hi: u32) -> Token {
    Token::new(text.to_string(), Span::new(lo, hi))
}

fn at(line: u64, column: Option<u64>) -> Loc {
    Loc { file: "main.k".to_string(), line, column }
}

#[test]
fn with_session_starts_with_an_empty_log() {
    let sess = global();
    let session = ParseSession::with_session(sess.clone());
    assert!(Arc::ptr_eq(&session.0, &sess));
    assert_eq!(session.1.len(), 0);
    let (errors, warnings) = session.classification();
    assert!(errors.is_empty() && warnings.is_empty());
}

#[test]
fn lookup_resolves_line_and_column() {
    let session = ParseSession::with_session(global());
    assert_eq!(session.lookup_char_pos(17), Ok(at(3, Some(5))));
    assert_eq!(session.lookup_char_pos(8), Ok(at(2, Some(2))));
    assert_eq!(session.lookup_char_pos(0), Ok(at(1, Some(0))));
    assert_eq!(session.lookup_char_pos(6), Ok(at(2, Some(0))));
}

#[test]
fn lookup_at_end_of_buffer_resolves() {
    let session = ParseSession::with_session(global());
    assert_eq!(session.lookup_char_pos(SOURCE.len() as u32), Ok(at(3, Some(7))));
}

#[test]
fn lookup_outside_any_buffer_is_internal_error() {
    let session = ParseSession::with_session(global());
    let past = SOURCE.len() as u32 + 1;
    assert_eq!(session.lookup_char_pos(past), Err(Abort::UnknownOffset(past)));
    assert_eq!(session.lookup_char_pos(u32::MAX), Err(Abort::UnknownOffset(u32::MAX)));
}

#[test]
fn lookup_without_sources_is_internal_error() {
    let session = ParseSession::with_session(Arc::new(Session::default()));
    assert_eq!(session.lookup_char_pos(0), Err(Abort::UnknownOffset(0)));
}

#[test]
fn lookup_in_an_empty_buffer_has_line_zero() {
    let session = ParseSession::with_session(Arc::new(Session::new_with_src_code("").unwrap()));
    assert_eq!(
        session.lookup_char_pos(0),
        Ok(Loc { file: "".to_string(), line: 0, column: Some(0) })
    );
    assert_eq!(session.lookup_char_pos(1), Err(Abort::UnknownOffset(1)));
    assert_eq!(session.span_to_snippet(Span::new(0, 0)), Ok("".to_string()));
}

#[test]
fn lookup_inside_a_character_is_internal_error() {
    let sess = Arc::new(Session::new_with_file_and_code("u.k", Some("x = \"é\"\n")).unwrap());
    let session = ParseSession::with_session(sess);
    assert!(session.lookup_char_pos(5).is_ok());
    assert_eq!(session.lookup_char_pos(6), Err(Abort::UnknownOffset(6)));
    assert_eq!(
        session.lookup_char_pos(7),
        Ok(Loc { file: "u.k".to_string(), line: 1, column: Some(6) })
    );
}

#[test]
fn snippet_is_the_text_of_the_span() {
    let session = ParseSession::with_session(global());
    let text = session.span_to_snippet(Span::new(6, 11)).unwrap();
    assert_eq!(text, "b = 2");
    assert_eq!(text.len(), 5);
    assert_eq!(session.span_to_snippet(Span::new(17, 18)).unwrap(), ";");
    assert_eq!(session.span_to_snippet(Span::new(4, 4)).unwrap(), "");
    assert_eq!(session.span_to_snippet(Span::new(0, SOURCE.len() as u32)).unwrap(), SOURCE);
}

#[test]
fn snippet_length_is_counted_in_bytes() {
    let sess = Arc::new(Session::new_with_file_and_code("u.k", Some("x = \"é\"\n")).unwrap());
    let session = ParseSession::with_session(sess);
    let text = session.span_to_snippet(Span::new(4, 8)).unwrap();
    assert_eq!(text, "\"é\"");
    assert_eq!(text.len(), 4);
    assert_eq!(text.chars().count(), 3);
}

#[test]
fn snippet_of_invalid_span_is_internal_error() {
    let session = ParseSession::with_session(global());
    let end = SOURCE.len() as u32;
    let past = Span { lo: 3, hi: end + 5 };
    assert_eq!(session.span_to_snippet(past), Err(Abort::InvalidSpan(past)));
    let reversed = Span { lo: 9, hi: 3 };
    assert_eq!(session.span_to_snippet(reversed), Err(Abort::InvalidSpan(reversed)));
    let long = Span { lo: 0, hi: 70000 };
    assert_eq!(session.span_to_snippet(long), Err(Abort::InvalidSpan(long)));
    let whole = Span { lo: 0, hi: u32::MAX };
    assert_eq!(session.span_to_snippet(whole), Err(Abort::InvalidSpan(whole)));
    let empty = ParseSession::with_session(Arc::new(Session::default()));
    assert_eq!(
        empty.span_to_snippet(Span { lo: 0, hi: 0 }),
        Err(Abort::InvalidSpan(Span { lo: 0, hi: 0 }))
    );
}

fn long_session(unit: &str, times: usize) -> (ParseSession, String) {
    let source = unit.repeat(times);
    let sess = Arc::new(Session::new_with_file_and_code("long.k", Some(&source)).unwrap());
    (ParseSession::with_session(sess), source)
}

#[test]
fn snippet_of_a_long_span_is_taken_in_pieces() {
    let (session, source) = long_session("abcdefg\n", 12000);
    assert_eq!(source.len(), 96000);
    let text = session.span_to_snippet(Span::new(0, 96000)).unwrap();
    assert_eq!(text.len(), 96000);
    assert_eq!(text, source);
    let text = session.span_to_snippet(Span::new(10, 70010)).unwrap();
    assert_eq!(text.len(), 70000);
    assert_eq!(text, &source[10..70010]);
    let text = session.span_to_snippet(Span::new(5, 5 + 65535)).unwrap();
    assert_eq!(text, &source[5..5 + 65535]);
    let text = session.span_to_snippet(Span::new(5, 5 + 65536)).unwrap();
    assert_eq!(text, &source[5..5 + 65536]);
}

#[test]
fn pieces_of_a_long_span_end_between_characters() {
    let (session, source) = long_session("é", 40000);
    let text = session.span_to_snippet(Span::new(0, 70000)).unwrap();
    assert_eq!(text.len(), 70000);
    assert_eq!(text.chars().count(), 35000);
    assert_eq!(text, &source[0..70000]);
    let (session, source) = long_session("€", 30000);
    let text = session.span_to_snippet(Span::new(3, 90000)).unwrap();
    assert_eq!(text, &source[3..90000]);
    let (session, source) = long_session("😀", 50000);
    let text = session.span_to_snippet(Span::new(4, 200000)).unwrap();
    assert_eq!(text.len(), 199996);
    assert_eq!(text, &source[4..200000]);
}

#[test]
fn long_span_without_text_is_internal_error() {
    let (session, _) = long_session("é", 40000);
    let past = Span { lo: 0, hi: 80001 };
    assert_eq!(session.span_to_snippet(past), Err(Abort::InvalidSpan(past)));
    let inside = Span { lo: 1, hi: 70000 };
    assert_eq!(session.span_to_snippet(inside), Err(Abort::InvalidSpan(inside)));
    let split = Span { lo: 0, hi: 70001 };
    assert_eq!(session.span_to_snippet(split), Err(Abort::InvalidSpan(split)));
}

#[test]
fn snippet_that_splits_a_character_is_internal_error() {
    let sess = Arc::new(Session::new_with_file_and_code("u.k", Some("x = \"é\"\n")).unwrap());
    let session = ParseSession::with_session(sess);
    let span = Span { lo: 4, hi: 6 };
    assert_eq!(session.span_to_snippet(span), Err(Abort::InvalidSpan(span)));
}

#[test]
fn token_loc_uses_low_start_and_high_end() {
    let session = ParseSession::with_session(global());
    let found = session.struct_token_loc(token("b", 6, 7), token("{", 16, 17));
    assert_eq!(found, Ok((at(2, Some(0)), at(3, Some(5)))));
}

#[test]
fn token_loc_at_the_first_offset_has_column_zero() {
    let sess = Arc::new(Session::new_with_file_and_code("a.k", Some("a = 1\n")).unwrap());
    let session = ParseSession::with_session(sess);
    let found = session.struct_token_loc(token("a", 0, 1), token("1", 4, 5)).unwrap();
    assert_eq!(found.0, Loc { file: "a.k".to_string(), line: 1, column: Some(0) });
    assert_eq!(found.1, Loc { file: "a.k".to_string(), line: 1, column: Some(5) });
}

#[test]
fn column_counts_characters_also_behind_zero_width_ones() {
    let sess = Arc::new(Session::new_with_file_and_code("z.k", Some("\u{200b}x = 1\n")).unwrap());
    let session = ParseSession::with_session(sess);
    assert_eq!(
        session.lookup_char_pos(3),
        Ok(Loc { file: "z.k".to_string(), line: 1, column: Some(1) })
    );
}

#[test]
fn token_loc_fails_on_the_first_unknown_offset() {
    let session = ParseSession::with_session(global());
    assert_eq!(
        session.struct_token_loc(token("b", 100, 101), token("{", 200, 201)),
        Err(Abort::UnknownOffset(100))
    );
    assert_eq!(
        session.struct_token_loc(token("b", 6, 7), token("{", 200, 201)),
        Err(Abort::UnknownOffset(201))
    );
}

#[test]
fn unexpected_token_recovery_scenario() {
    let sess = global();
    let mut session = ParseSession::with_session(sess.clone());
    let done = session.struct_token_error_recovery(&["}".to_string()], token(";", 17, 18));
    assert_eq!(done, Ok(()));
    assert_eq!(session.1.len(), 1);
    let entry = session.1.get(0).unwrap();
    assert!(entry.message.contains("\"}\""));
    assert!(entry.message.contains(";"));
    assert_eq!(entry.message, "expected one of [\"}\"] got ;");
    assert_eq!(entry.level, Level::Error);
    assert_eq!(entry.span, Span { lo: 17, hi: 18 });
    assert_eq!(entry.loc, at(3, Some(5)));
    let (errors, warnings) = session.classification();
    assert_eq!(errors.len(), 1);
    assert!(errors.contains(session.1.get(0).unwrap()));
    assert!(warnings.is_empty());
    assert_eq!(sess.diagnostics_count().unwrap(), 1);
}

#[test]
fn span_error_recovery_accumulates() {
    let sess = global();
    let mut session = ParseSession::with_session(sess.clone());
    assert_eq!(session.struct_span_error_recovery("first", Span::new(0, 1)), Ok(()));
    assert_eq!(session.struct_span_error_recovery("second", Span::new(0, 1)), Ok(()));
    assert_eq!(session.struct_span_error_recovery("first", Span::new(0, 2)), Ok(()));
    assert_eq!(session.1.len(), 3);
    assert_eq!(session.1.get(0).unwrap().message, "first");
    assert_eq!(session.1.get(1).unwrap().message, "second");
    assert_eq!(session.1.get(2).unwrap().span, Span { lo: 0, hi: 2 });
    assert_eq!(sess.diagnostics_count().unwrap(), 3);
}

#[test]
fn same_span_error_twice_is_one_local_entry() {
    let sess = global();
    let mut session = ParseSession::with_session(sess.clone());
    assert_eq!(session.struct_span_error_recovery("again", Span::new(6, 7)), Ok(()));
    assert_eq!(session.struct_span_error_recovery("again", Span::new(6, 7)), Ok(()));
    assert_eq!(session.1.len(), 1);
    assert_eq!(sess.diagnostics_count().unwrap(), 2);
}

#[test]
fn recovery_at_unknown_offset_reports_nothing() {
    let sess = global();
    let mut session = ParseSession::with_session(sess.clone());
    let done = session.struct_span_error_recovery("lost", Span::new(500, 501));
    assert_eq!(done, Err(Abort::UnknownOffset(500)));
    assert_eq!(session.1.len(), 0);
    assert_eq!(sess.diagnostics_count().unwrap(), 0);
    let done = session.struct_token_error_recovery(&[], token("x", 500, 501));
    assert_eq!(done, Err(Abort::UnknownOffset(500)));
    assert_eq!(session.1.len(), 0);
}

#[test]
fn fatal_span_error_gives_the_payload() {
    let sess = global();
    let mut session = ParseSession::with_session(sess.clone());
    let span = Span::new(17, 18);
    let abort = session.struct_span_error("bad thing", span);
    let payload = match abort {
        Abort::Syntax(payload) => payload,
        other => panic!("no syntax abort: {:?}", other),
    };
    let value: serde_json::Value = serde_json::from_str(&payload).unwrap();
    let loc = session.lookup_char_pos(span.lo).unwrap();
    assert_eq!(value["kcl_line"].as_u64(), Some(loc.line));
    assert_eq!(value["kcl_col"].as_u64(), Some(loc.column.unwrap()));
    assert_eq!(value["kcl_line"].as_u64(), Some(3));
    assert_eq!(value["kcl_col"].as_u64(), Some(5));
    assert_eq!(value["kcl_file"].as_str(), Some("main.k"));
    assert!(value["message"].as_str().unwrap().starts_with("Invalid syntax: bad thing"));
    assert_eq!(
        payload,
        "{\"kcl_file\":\"main.k\",\"kcl_line\":3,\"kcl_col\":5,\"message\":\"Invalid syntax: bad thing\"}"
    );
    assert_eq!(session.1.len(), 1);
    assert_eq!(session.1.get(0).unwrap().message, "bad thing");
    assert_eq!(sess.diagnostics_count().unwrap(), 1);
}

#[test]
fn global_session_is_told_code_message_and_span() {
    let sess = global();
    let mut session = ParseSession::with_session(sess.clone());
    assert_eq!(session.struct_span_error_recovery("bad thing", Span::new(17, 18)), Ok(()));
    let shown = sess.emit_nth_diag_into_string(0).unwrap().unwrap().unwrap();
    assert!(shown.contains("error[E1001]: bad thing"), "{}", shown);
    assert!(shown.contains("main.k:3:6"), "{}", shown);
    assert!(shown.contains("c = {;"), "{}", shown);
}

#[test]
fn report_for_the_global_session() {
    let diag = Diagnostic::new(Level::Error, "bad thing".to_string(), Span::new(17, 18), at(3, Some(5)));
    let told = sink_report(&diag).unwrap();
    assert_eq!(told.0, "E1001");
    assert_eq!(told.1, ": bad thing");
    assert_eq!(told.2, Span { lo: 17, hi: 18 });
    let edge = Diagnostic::new(Level::Error, "m".to_string(), Span::new(10, 10 + 65535), at(1, Some(10)));
    assert_eq!(sink_report(&edge).unwrap().2, Span { lo: 10, hi: 10 + 65535 });
}

#[test]
fn report_of_a_span_that_no_record_holds_fails() {
    let long = Diagnostic::new(Level::Error, "m".to_string(), Span::new(10, 100000), at(1, Some(10)));
    assert_eq!(sink_report(&long), Err(Abort::InvalidSpan(Span { lo: 10, hi: 100000 })));
    let reversed = Diagnostic::new(
        Level::Error,
        "m".to_string(),
        Span { lo: 9, hi: 3 },
        at(1, Some(9)),
    );
    assert_eq!(sink_report(&reversed), Err(Abort::InvalidSpan(Span { lo: 9, hi: 3 })));
}

#[test]
fn report_with_a_long_span_is_internal_error() {
    let (mut session, _) = long_session("abcdefg\n", 12000);
    let long = Span::new(8, 90000);
    assert_eq!(session.struct_span_error_recovery("long", long), Err(Abort::InvalidSpan(long)));
    assert_eq!(session.struct_span_error("long", long), Abort::InvalidSpan(long));
    assert_eq!(
        session.struct_token_error_recovery(&[], Token::new("x".to_string(), long)),
        Err(Abort::InvalidSpan(long))
    );
    assert_eq!(
        session.struct_token_error(&[], Token::new("x".to_string(), long)),
        Abort::InvalidSpan(long)
    );
    assert_eq!(session.1.len(), 0);
    assert_eq!(session.0.diagnostics_count().unwrap(), 0);
    let fits = Span::new(8, 8 + 65535);
    assert_eq!(session.struct_span_error_recovery("fits", fits), Ok(()));
    assert_eq!(session.1.len(), 1);
    assert_eq!(session.1.get(0).unwrap().span, fits);
    assert_eq!(session.0.diagnostics_count().unwrap(), 1);
}

#[test]
fn report_with_ends_out_of_order_is_internal_error() {
    let mut session = ParseSession::with_session(global());
    let reversed = Span { lo: 900, hi: 3 };
    assert_eq!(
        session.struct_span_error_recovery("m", reversed),
        Err(Abort::InvalidSpan(reversed))
    );
    assert_eq!(session.1.len(), 0);
}

#[test]
fn offsets_resolve_once_their_buffer_is_there() {
    let sess = Arc::new(Session::default());
    let mut session = ParseSession::with_session(sess.clone());
    assert_eq!(session.lookup_char_pos(2), Err(Abort::UnknownOffset(2)));
    assert_eq!(
        session.struct_span_error_recovery("early", Span::new(2, 3)),
        Err(Abort::UnknownOffset(2))
    );
    sess.sm.new_source_file(PathBuf::from("late.k").into(), "x = 1\n".to_string());
    let found = Loc { file: "late.k".to_string(), line: 1, column: Some(2) };
    assert_eq!(session.lookup_char_pos(2), Ok(found.clone()));
    assert_eq!(session.lookup_char_pos(8), Err(Abort::UnknownOffset(8)));
    assert_eq!(session.span_to_snippet(Span::new(0, 5)), Ok("x = 1".to_string()));
    sess.sm.new_source_file(PathBuf::from("later.k").into(), "y = 2\n".to_string());
    assert_eq!(session.lookup_char_pos(2), Ok(found));
    assert_eq!(session.span_to_snippet(Span::new(0, 5)), Ok("x = 1".to_string()));
    assert_eq!(
        session.lookup_char_pos(8),
        Ok(Loc { file: "later.k".to_string(), line: 1, column: Some(1) })
    );
    assert_eq!(session.struct_span_error_recovery("late", Span::new(2, 3)), Ok(()));
    assert_eq!(session.1.len(), 1);
}

#[test]
fn append_diagnostic_gives_the_session_back() {
    let mut session = ParseSession::with_session(global());
    let mut first = IndexSet::new();
    first.insert(Diagnostic::new(Level::Warning, "a".to_string(), Span::new(0, 1), at(1, Some(0))));
    let mut second = IndexSet::new();
    second.insert(Diagnostic::new(Level::Error, "b".to_string(), Span::new(2, 3), at(1, Some(2))));
    second.insert(Diagnostic::new(Level::Warning, "a".to_string(), Span::new(0, 1), at(1, Some(0))));
    let there = format!("{:p}", session.append_diagnostic(first).append_diagnostic(second));
    let here = format!("{:p}", &session);
    assert_eq!(here, there);
    assert_eq!(session.1.len(), 2);
    assert_eq!(session.1.get(0).unwrap().message, "a");
    assert_eq!(session.1.get(1).unwrap().message, "b");
}

#[test]
fn default_session_knows_no_source() {
    let mut session = ParseSession::default();
    assert_eq!(session.1.len(), 0);
    assert_eq!(session.lookup_char_pos(0), Err(Abort::UnknownOffset(0)));
    assert_eq!(
        session.struct_span_error_recovery("m", Span::new(0, 1)),
        Err(Abort::UnknownOffset(0))
    );
    assert_eq!(session.0.diagnostics_count().unwrap(), 0);
}

#[test]
fn cloned_session_shares_the_global_session_and_copies_the_log() {
    let sess = global();
    let mut session = ParseSession::with_session(sess.clone());
    assert_eq!(session.struct_span_error_recovery("one", Span::new(0, 1)), Ok(()));
    let mut copy = session.clone();
    assert!(Arc::ptr_eq(&copy.0, &session.0));
    assert_eq!(copy.1.len(), 1);
    assert_eq!(copy.1.get(0), session.1.get(0));
    assert_eq!(copy.struct_span_error_recovery("two", Span::new(6, 7)), Ok(()));
    assert_eq!(copy.1.len(), 2);
    assert_eq!(session.1.len(), 1);
    assert_eq!(sess.diagnostics_count().unwrap(), 2);
}

#[test]
fn fatal_span_error_at_line_start_has_column_zero() {
    let mut session = ParseSession::with_session(global());
    let abort = session.struct_span_error("x", Span::new(6, 7));
    assert_eq!(
        abort,
        Abort::Syntax(
            "{\"kcl_file\":\"main.k\",\"kcl_line\":2,\"kcl_col\":0,\"message\":\"Invalid syntax: x\"}"
                .to_string()
        )
    );
}

#[test]
fn fatal_token_error_gives_the_payload() {
    let mut session = ParseSession::with_session(global());
    let abort = session.struct_token_error(&["}".to_string()], token(";", 17, 18));
    assert!(!abort.is_internal());
    let value: serde_json::Value = serde_json::from_str(&abort.message()).unwrap();
    assert_eq!(
        value["message"].as_str(),
        Some("Invalid syntax: expected one of [\"}\"] got ;")
    );
    assert_eq!(value["kcl_line"].as_u64(), Some(3));
    assert_eq!(value["kcl_col"].as_u64(), Some(5));
    assert_eq!(session.1.len(), 1);
    assert_eq!(session.1.get(0).unwrap().message, "expected one of [\"}\"] got ;");
}

#[test]
fn fatal_error_at_unknown_offset_is_internal() {
    let mut session = ParseSession::with_session(global());
    let abort = session.struct_span_error("bad thing", Span::new(900, 901));
    assert_eq!(abort, Abort::UnknownOffset(900));
    assert!(abort.is_internal());
    assert!(!abort.message().starts_with("Invalid syntax: "));
    assert_eq!(session.1.len(), 0);
    let abort = session.struct_token_error(&[], token("x", 900, 901));
    assert_eq!(abort, Abort::UnknownOffset(900));
    assert_eq!(session.fatal("m", Span::new(900, 901)), Abort::UnknownOffset(900));
}

#[test]
fn refused_diagnostic_stays_out_of_the_log() {
    let mut handler = Handler::new();
    let diag = Diagnostic::new(Level::Error, "m".to_string(), Span::new(0, 1), at(1, Some(0)));
    let done = record(&mut handler, diag.clone(), Err(anyhow::Error::msg("sink is broken")));
    assert_eq!(done, Err(Abort::Rejected("sink is broken".to_string())));
    assert_eq!(handler.len(), 0);
    let done = record(&mut handler, diag, Ok(()));
    assert_eq!(done, Ok(()));
    assert_eq!(handler.len(), 1);
}

#[test]
fn append_diagnostic_touches_only_the_local_log() {
    let sess = global();
    let mut session = ParseSession::with_session(sess.clone());
    assert_eq!(session.struct_span_error_recovery("own", Span::new(0, 1)), Ok(()));
    let own = session.1.get(0).unwrap().clone();
    let mut batch = IndexSet::new();
    batch.insert(Diagnostic::new(Level::Warning, "w".to_string(), Span::new(2, 3), at(1, Some(2))));
    batch.insert(own);
    batch.insert(Diagnostic::new(Level::Error, "e".to_string(), Span::new(4, 5), at(1, Some(4))));
    session.append_diagnostic(batch);
    assert_eq!(session.1.len(), 3);
    assert_eq!(session.1.get(0).unwrap().message, "own");
    assert_eq!(session.1.get(1).unwrap().message, "w");
    assert_eq!(session.1.get(2).unwrap().message, "e");
    assert_eq!(sess.diagnostics_count().unwrap(), 1);
    let (errors, warnings) = session.classification();
    assert_eq!(errors.len(), 2);
    assert_eq!(warnings.len(), 1);
    assert_eq!(warnings.get_index(0).unwrap().message, "w");
}

#[test]
fn sessions_on_one_global_session_keep_their_own_logs() {
    let sess = global();
    let mut first = ParseSession::with_session(sess.clone());
    let mut second = ParseSession::with_session(sess.clone());
    assert_eq!(first.struct_span_error_recovery("from first", Span::new(0, 1)), Ok(()));
    assert_eq!(second.struct_span_error_recovery("from second", Span::new(6, 7)), Ok(()));
    assert_eq!(first.struct_span_error_recovery("first again", Span::new(12, 13)), Ok(()));
    assert_eq!(first.1.len(), 2);
    assert_eq!(second.1.len(), 1);
    assert_eq!(first.1.get(0).unwrap().message, "from first");
    assert_eq!(first.1.get(1).unwrap().message, "first again");
    assert_eq!(second.1.get(0).unwrap().message, "from second");
    assert_eq!(sess.diagnostics_count().unwrap(), 3);
}
