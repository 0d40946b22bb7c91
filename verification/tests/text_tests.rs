use bendsql::text::{chars_of, replace_chars, split_words, trim_class, CharClass};
use bendsql::tokenizer::{tokenize, TokenKind};
use bendsql::{QueryRequest, Session, SessionConfig, PaginationConfig};

fn s(v: &[char]) -> String {
    v.iter().collect()
}

#[test]
fn tokens_are_ordered_spans_ending_in_eoi() {
    let text = chars_of("select a.b, 'x;y' -- c\n/* z */ 1.5e3;");
    let toks = tokenize(&text);
    assert!(!toks.failed);
    let t = &toks.tokens;
    for w in t.windows(2) {
        assert!(w[0].start <= w[0].end && w[0].end <= w[1].start);
    }
    let last = t.last().unwrap();
    assert_eq!((last.kind, last.start, last.end), (TokenKind::EOI, text.len(), text.len()));
    let kinds: Vec<TokenKind> = t.iter().map(|t| t.kind).collect();
    assert!(kinds.contains(&TokenKind::Comment));
    assert!(kinds.contains(&TokenKind::Newline));
    assert!(kinds.contains(&TokenKind::CommentBlockStart));
    assert!(kinds.contains(&TokenKind::CommentBlockEnd));
    assert_eq!(kinds.iter().filter(|k| **k == TokenKind::SemiColon).count(), 1);
    let failed = tokenize(&chars_of("select 'open"));
    assert!(failed.failed);
    assert_eq!(failed.tokens.len(), 1);
}

#[test]
fn trimming_twice_is_trimming_once() {
    let once = trim_class(&chars_of(" \t a b \u{3000}"), CharClass::Whitespace);
    assert_eq!(s(&once), "a b");
    assert_eq!(trim_class(&once, CharClass::Whitespace), once);
    assert_eq!(s(&trim_class(&chars_of(";;x;;"), CharClass::Semicolon)), "x");
}

#[test]
fn words_hold_no_separators() {
    let ws = split_words(&chars_of("  a\u{a0}b  c "), CharClass::Whitespace);
    let ws: Vec<String> = ws.iter().map(|w| s(w)).collect();
    assert_eq!(ws, vec!["a", "b", "c"]);
    let ascii = split_words(&chars_of("a\u{a0}b c"), CharClass::AsciiWhitespace);
    assert_eq!(ascii.len(), 2);
}

#[test]
fn replacing_an_absent_pattern_changes_nothing() {
    let text = chars_of("no placeholders here");
    assert_eq!(replace_chars(&text, &chars_of("{host}"), &chars_of("h")), text);
    assert_eq!(
        s(&replace_chars(&chars_of("{host}{host}x"), &chars_of("{host}"), &chars_of("h"))),
        "hhx"
    );
}

#[test]
fn batch_mode_never_runs_shell_commands() {
    let s = Session::new(true, true);
    assert!(matches!(s.handle_query(false, ".multi_line false"), bendsql::QueryPlan::Query { .. }));
    assert!(matches!(s.handle_query(false, "quit"), bendsql::QueryPlan::Query { .. }));
}

#[test]
fn upper_case_of_t_with_diaeresis_starts_with_t() {
    let mut s = Session::new(true, true);
    assert_eq!(s.append_query("pu\u{1e97} x"), vec!["pu\u{1e97} x"]);
    assert_eq!("pu\u{1e97} x".to_uppercase().starts_with("PUT"), true);
}

#[test]
fn request_builders_commute_in_practice() {
    let a = QueryRequest::new("q")
        .with_session(Some(SessionConfig { database: Some("d".into()), settings: None }))
        .with_pagination(Some(PaginationConfig { wait_time_secs: Some(2), max_rows_in_buffer: None, max_rows_per_page: None }));
    let b = QueryRequest::new("q")
        .with_pagination(Some(PaginationConfig { wait_time_secs: Some(2), max_rows_in_buffer: None, max_rows_per_page: None }))
        .with_session(Some(SessionConfig { database: Some("d".into()), settings: None }));
    assert_eq!(a.sql(), b.sql());
    assert_eq!(
        a.session().as_ref().unwrap().database,
        b.session().as_ref().unwrap().database
    );
    assert_eq!(
        a.pagination().as_ref().unwrap().wait_time_secs,
        b.pagination().as_ref().unwrap().wait_time_secs
    );
}
