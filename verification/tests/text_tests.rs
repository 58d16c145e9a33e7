use lspyx::text::{
    chars_of, debug_quote, indent_block, indent_prefix, join_with_newlines, str_eq,
    str_eq_ignore_ascii_case, str_is_blank, usize_to_string,
};

#[test]
fn decimal_numbers() {
    assert_eq!(usize_to_string(0), "0");
    assert_eq!(usize_to_string(7), "7");
    assert_eq!(usize_to_string(10), "10");
    assert_eq!(usize_to_string(1234567890), "1234567890");
    assert_eq!(usize_to_string(usize::MAX), usize::MAX.to_string());
}

#[test]
fn decimal_reads_back() {
    for n in [0usize, 1, 9, 10, 99, 100, 4096, 65535, 1_000_001] {
        let text = usize_to_string(n);
        assert_eq!(text.parse::<usize>().unwrap(), n);
        assert!(text.chars().all(|c| c.is_ascii_digit()));
        assert!(n == 0 || !text.starts_with('0'));
    }
}

#[test]
fn debug_quote_matches_std_debug() {
    let samples = [
        "",
        "plain",
        "say \"hi\"",
        "back\\slash",
        "tab\there",
        "line\nbreak\r\n",
        "nul\0byte",
        "esc\u{1b}[0m",
        "del\u{7f}",
        "caf\u{e9}",
        "e\u{301}",
        "\u{301}start",
        "snow \u{2603} man",
        "zero\u{200b}width",
        "\u{feff}bom",
        "emoji \u{1f600}",
        "it's",
    ];
    for s in samples {
        assert_eq!(debug_quote(s), format!("{:?}", s), "sample {:?}", s);
    }
}

#[test]
fn plain_text_quotes_as_itself() {
    assert_eq!(debug_quote("foo_bar 42"), "\"foo_bar 42\"");
}

#[test]
fn debug_quote_escapes_non_printable_non_ascii() {
    let quoted = debug_quote("a\u{200b}b");
    assert_eq!(quoted, "\"a\\u{200b}b\"");
}

#[test]
fn lines_match_std_lines() {
    let samples = [
        "",
        "one",
        "one\n",
        "one\ntwo",
        "one\r\ntwo\r\n",
        "a\n\nb",
        "\n",
        "\n\n",
        "trailing cr\r",
        "cr\r\r\nmiddle",
        "lone\rcr\nend",
    ];
    for s in samples {
        let expected: Vec<String> = s.lines().map(|l| format!("> {l}")).collect();
        assert_eq!(indent_block(s, "> "), expected, "sample {:?}", s);
    }
}

#[test]
fn lines_join_round_trip() {
    for s in ["a\nb\nc", "a\nb\nc\n", "single", "", "x\n\ny\n"] {
        let lines = indent_block(s, "");
        let joined = join_with_newlines(&lines);
        let expected = s.strip_suffix('\n').unwrap_or(s);
        assert_eq!(joined, expected);
    }
}

#[test]
fn join_puts_line_feeds_between() {
    let lines = vec!["a".to_string(), "".to_string(), "c".to_string()];
    assert_eq!(join_with_newlines(&lines), "a\n\nc");
    assert_eq!(join_with_newlines(&Vec::new()), "");
}

#[test]
fn indent_prefix_is_two_spaces_per_level() {
    assert_eq!(indent_prefix(0), "");
    assert_eq!(indent_prefix(3), "      ");
}

#[test]
fn blank_text() {
    assert!(str_is_blank(""));
    assert!(str_is_blank(" \t\n\r\u{a0}\u{3000}"));
    assert!(!str_is_blank("  x  "));
    for s in ["", "  ", "\u{2028}", "a", "\u{200b}"] {
        assert_eq!(str_is_blank(s), s.trim().is_empty(), "sample {:?}", s);
    }
}

#[test]
fn string_equality() {
    assert!(str_eq("abc", "abc"));
    assert!(!str_eq("abc", "abd"));
    assert!(!str_eq("abc", "ab"));
    assert!(str_eq_ignore_ascii_case("Foo_Bar", "fOO_bAR"));
    assert!(!str_eq_ignore_ascii_case("\u{c9}", "\u{e9}"));
    assert!(!str_eq_ignore_ascii_case("foo", "foo "));
    assert_eq!(chars_of("h\u{e9}"), vec!['h', '\u{e9}']);
}
