use std::time::Duration;

use pty_expect::{Pattern, PtyError, Transcript, DEFAULT_COLS, DEFAULT_ROWS};

fn fed(chunks: &[&[u8]]) -> Transcript {
    let mut t = Transcript::with_default_size();
    for c in chunks {
        assert_eq!(t.on_read(Some(c)), Some(Vec::new()));
    }
    t
}

#[test]
fn pattern_compiles_or_reports_regex_error() {
    assert!(Pattern::new(r"hello").is_ok());
    assert_eq!(Pattern::new(r"a+b").unwrap().source(), "a+b");
    match Pattern::new(r"foo(bar") {
        Err(PtyError::Regex(_)) => {}
        other => panic!("expected a regex error, got {:?}", other.map(|p| p.source().to_string())),
    }
}

#[test]
fn pattern_find_reports_byte_span() {
    let p = Pattern::new("FOO").unwrap();
    assert_eq!(p.find("abcFOOxyz"), Some((3, 6)));
    assert_eq!(p.find("abcxyz"), None);
    let g = Pattern::new(r"\p{Greek}+").unwrap();
    assert_eq!(g.find("Greek: αβγδ"), Some((7, 15)));
}

#[test]
fn read_outcomes_keep_bytes_or_finish() {
    let mut t = Transcript::new(DEFAULT_ROWS, DEFAULT_COLS);
    assert_eq!(t.on_read(Some(b"abc")), Some(Vec::new()));
    assert_eq!(t.unconsumed_text(), "abc");
    assert_eq!(t.on_read(Some(b"")), None);
    // Once finished, a transcript takes no more output.
    assert_eq!(t.on_read(Some(b"late")), None);
    assert_eq!(t.unconsumed_text(), "abc");
    let mut u = Transcript::with_default_size();
    assert_eq!(u.on_read(None), None);
    // A finished transcript answers an unmatched expect with Eof.
    let p = Pattern::new("zzz").unwrap();
    match u.expect_step(&p, Duration::from_secs(1), false) {
        Some(Err(PtyError::Eof(s))) => assert_eq!(s, "zzz"),
        other => panic!("unexpected {:?}", other),
    }
}

#[test]
fn expect_returns_matched_text_and_advances() {
    let mut t = fed(&[b"hello world\r\n", b"prompt> "]);
    let p = Pattern::new("world").unwrap();
    assert_eq!(t.poll_match(&p).as_deref(), Some("world"));
    // The next expect only sees what follows the match.
    assert_eq!(t.unconsumed_text(), "\r\nprompt> ");
    let hello = Pattern::new("hello").unwrap();
    assert_eq!(t.poll_match(&hello), None);
    assert_eq!(t.unconsumed_text(), "\r\nprompt> ");
    let prompt = Pattern::new(r"prompt> ").unwrap();
    assert_eq!(t.poll_match(&prompt).as_deref(), Some("prompt> "));
    assert_eq!(t.unconsumed_text(), "");
}

#[test]
fn expect_returns_only_the_matched_substring() {
    let mut t = fed(&[b"abc hello xyz"]);
    let p = Pattern::new("hel+o").unwrap();
    assert_eq!(t.poll_match(&p).as_deref(), Some("hello"));
    assert_eq!(t.unconsumed_text(), " xyz");
}

#[test]
fn output_arriving_later_is_matched_later() {
    let mut t = fed(&[b"pi"]);
    let p = Pattern::new("ping").unwrap();
    assert!(matches!(t.expect_step(&p, Duration::from_secs(10), false), None));
    assert_eq!(t.on_read(Some(b"ng\n")), Some(Vec::new()));
    match t.expect_step(&p, Duration::from_secs(10), false) {
        Some(Ok(m)) => assert_eq!(m, "ping"),
        other => panic!("unexpected {:?}", other),
    }
    assert_eq!(t.unconsumed_text(), "\n");
}

#[test]
fn expect_times_out_only_after_deadline() {
    let mut t = fed(&[b"nothing here"]);
    let p = Pattern::new("absent").unwrap();
    assert!(t.expect_step(&p, Duration::from_millis(5), false).is_none());
    match t.expect_step(&p, Duration::from_millis(5), true) {
        Some(Err(PtyError::Timeout(d, s))) => {
            assert_eq!(d, Duration::from_millis(5));
            assert_eq!(s, "absent");
        }
        other => panic!("unexpected {:?}", other),
    }
    assert_eq!(t.unconsumed_text(), "nothing here");
}

#[test]
fn consume_match_takes_matched_span() {
    let mut t = fed(&[b"hi!"]);
    assert_eq!(t.consume_match("hi!", None), None);
    assert_eq!(t.consume_match("hi!", Some((1, 2))).as_deref(), Some("i"));
    assert_eq!(t.unconsumed_text(), "!");
    let mut u = fed(&[b"abc hello xyz"]);
    assert_eq!(u.consume_match("abc hello xyz", Some((4, 9))).as_deref(), Some("hello"));
    assert_eq!(u.unconsumed_text(), " xyz");
}

#[test]
fn invalid_utf8_cursor_stops_after_the_raw_bytes_of_the_match() {
    let mut t = fed(&[&[0xFF, b'a', b'b']]);
    assert_eq!(t.unconsumed_text(), "\u{FFFD}ab");
    let a = Pattern::new("a").unwrap();
    assert_eq!(t.poll_match(&a).as_deref(), Some("a"));
    // The replacement character stood for one raw byte: only `b` is left.
    assert_eq!(t.unconsumed_text(), "b");
    let b = Pattern::new("b").unwrap();
    assert_eq!(t.poll_match(&b).as_deref(), Some("b"));
    assert_eq!(t.unconsumed_text(), "");
}

#[test]
fn replacement_character_is_consumed_with_its_whole_raw_run() {
    // `F0 9F` is a truncated four-byte sequence cut short by `a`.
    let mut t = fed(&[&[0xF0, 0x9F, b'a', 0xFF, b'z']]);
    assert_eq!(t.unconsumed_text(), "\u{FFFD}a\u{FFFD}z");
    let p = Pattern::new("\u{FFFD}").unwrap();
    assert_eq!(t.poll_match(&p).as_deref(), Some("\u{FFFD}"));
    assert_eq!(t.unconsumed_text(), "a\u{FFFD}z");
    let z = Pattern::new("z").unwrap();
    assert_eq!(t.poll_match(&z).as_deref(), Some("z"));
    assert_eq!(t.unconsumed_text(), "");
}

#[test]
fn cursor_position_requests_are_answered() {
    let mut t = Transcript::with_default_size();
    assert_eq!(t.on_read(Some(b"start\x1b[6n")), Some(b"\x1b[1;1R".to_vec()));
    // A request split across reads is answered by the read that completes it.
    assert_eq!(t.on_read(Some(b"x\x1b[")), Some(Vec::new()));
    assert_eq!(t.on_read(Some(b"6n")), Some(b"\x1b[1;1R".to_vec()));
    // Two requests in one read get two answers; other sequences get none.
    assert_eq!(
        t.on_read(Some(b"\x1b[6n\x1b[5n\x1b[6n")),
        Some(b"\x1b[1;1R\x1b[1;1R".to_vec())
    );
    // The request bytes stay in the transcript.
    let p = Pattern::new("start").unwrap();
    assert_eq!(t.poll_match(&p).as_deref(), Some("start"));
}

#[test]
fn utf8_output_is_matched_on_char_boundaries() {
    let mut t = fed(&["αβγ done".as_bytes()]);
    let p = Pattern::new("β").unwrap();
    assert_eq!(t.poll_match(&p).as_deref(), Some("β"));
    assert_eq!(t.unconsumed_text(), "γ done");
}
