use prompted::{inputln, readln, strip_line_ending, ReadlnError};

#[test]
fn inputln_removes_line_feed() {
    let line = inputln("42\n");
    assert_eq!(line, "42");
    assert_eq!(line.chars().count(), 2);
}

#[test]
fn inputln_of_empty_input_is_empty() {
    assert_eq!(inputln(""), "");
}

#[test]
fn inputln_removes_carriage_return_and_line_feed() {
    assert_eq!(inputln("42\r\n"), "42");
}

#[test]
fn inputln_reads_both_line_endings_alike() {
    for text in ["", "7", "hello world", "tab\tinside", "caf\u{e9}", "\u{65e5}\u{672c}\u{8a9e}"] {
        let with_lf = format!("{}\n", text);
        let with_crlf = format!("{}\r\n", text);
        assert_eq!(inputln(&with_lf), text);
        assert_eq!(inputln(&with_crlf), text);
    }
}

#[test]
fn inputln_returns_what_was_written_before_the_terminator() {
    for text in ["", "x", "two words", "\u{1f600} smile", "a\rb"] {
        let written = format!("{}\n", text);
        assert_eq!(inputln(&written), text);
    }
}

#[test]
fn inputln_without_terminator_returns_all() {
    assert_eq!(inputln("no newline"), "no newline");
    assert_eq!(inputln("\u{3b1}\u{3b2}\u{3b3}"), "\u{3b1}\u{3b2}\u{3b3}");
}

#[test]
fn inputln_stops_at_first_line() {
    assert_eq!(inputln("first\nsecond\n"), "first");
    assert_eq!(inputln("first\r\nsecond"), "first");
    assert_eq!(inputln("\nsecond"), "");
}

#[test]
fn inputln_keeps_carriage_return_without_line_feed() {
    assert_eq!(inputln("abc\r"), "abc\r");
    assert_eq!(inputln("\r"), "\r");
}

#[test]
fn inputln_removes_one_carriage_return_only() {
    assert_eq!(inputln("abc\r\r\n"), "abc\r");
    assert_eq!(inputln("\r\n"), "");
    assert_eq!(inputln("\n"), "");
}

#[test]
fn strip_line_ending_removes_at_most_one_ending() {
    assert_eq!(strip_line_ending("line\n"), "line");
    assert_eq!(strip_line_ending("line\r\n"), "line");
    assert_eq!(strip_line_ending("line\n\n"), "line\n");
    assert_eq!(strip_line_ending("line\n\r\n"), "line\n");
    assert_eq!(strip_line_ending("line"), "line");
    assert_eq!(strip_line_ending("line\r"), "line\r");
    assert_eq!(strip_line_ending(""), "");
}

#[test]
fn strip_line_ending_keeps_multibyte_text() {
    assert_eq!(strip_line_ending("\u{e9}\n"), "\u{e9}");
    assert_eq!(strip_line_ending("\u{20ac}\r\n"), "\u{20ac}");
    assert_eq!(strip_line_ending("\u{1f600}\n"), "\u{1f600}");
    assert_eq!(strip_line_ending("\u{10a}"), "\u{10a}");
    assert_eq!(strip_line_ending("\u{10d}\n"), "\u{10d}");
}

#[test]
fn readln_preserves_line_feed() {
    assert_eq!(readln(b"42\n").unwrap(), "42\n");
}

#[test]
fn readln_preserves_carriage_return_and_line_feed() {
    assert_eq!(readln(b"42\r\n").unwrap(), "42\r\n");
}

#[test]
fn readln_stops_after_first_line_feed() {
    assert_eq!(readln(b"one\ntwo\n").unwrap(), "one\n");
    assert_eq!(readln(b"\n\n").unwrap(), "\n");
}

#[test]
fn readln_does_not_decode_beyond_the_line() {
    assert_eq!(readln(b"ok\n\xff\xfe").unwrap(), "ok\n");
}

#[test]
fn readln_without_terminator_returns_all() {
    assert_eq!(readln(b"tail").unwrap(), "tail");
}

#[test]
fn readln_of_empty_source_is_empty() {
    assert_eq!(readln(b"").unwrap(), "");
}

#[test]
fn readln_decodes_multibyte_text() {
    let source = "gr\u{fc}\u{df}e \u{4e16}\u{754c}\nrest";
    assert_eq!(readln(source.as_bytes()).unwrap(), "gr\u{fc}\u{df}e \u{4e16}\u{754c}\n");
}

#[test]
fn readln_reports_invalid_utf8() {
    let outcome = readln(b"bad \xff byte\n");
    assert!(matches!(outcome, Err(ReadlnError::Utf8(_))));
}

#[test]
fn readln_reports_truncated_character() {
    let outcome = readln(b"\xe2\x82");
    assert!(matches!(outcome, Err(ReadlnError::Utf8(_))));
}

#[test]
fn readln_reports_character_cut_by_line_feed() {
    let outcome = readln(b"\xc3\n\xa9");
    assert!(matches!(outcome, Err(ReadlnError::Utf8(_))));
}

#[test]
fn readln_then_strip_equals_inputln() {
    for text in ["a\n", "a\r\n", "a", "", "a\nb", "\u{e9}t\u{e9}\r\nx"] {
        let line = readln(text.as_bytes()).unwrap();
        assert_eq!(strip_line_ending(&line), inputln(text));
    }
}
