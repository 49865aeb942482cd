use rust_shell::text::{
    from_chars, is_whitespace, join_from, same_chars, split_tokens, strip_line_end_chars,
    to_chars, trim_chars,
};

fn chars(s: &str) -> Vec<char> {
    s.chars().collect()
}

#[test]
fn whitespace_matches_unicode_property() {
    for u in 0u32..0x11_0000 {
        if let Some(c) = char::from_u32(u) {
            assert_eq!(is_whitespace(c), c.is_whitespace(), "U+{:04X}", u);
        }
    }
}

#[test]
fn chars_round_trip() {
    let s = "héllo wörld ✓";
    assert_eq!(to_chars(s), chars(s));
    assert_eq!(from_chars(&chars(s)), s.to_string());
    assert_eq!(from_chars(&Vec::new()), String::new());
}

#[test]
fn trim_removes_surrounding_whitespace() {
    for s in ["  12 \n", "\t\u{3000}x y\u{a0}", "", "   ", "abc", " a "] {
        assert_eq!(trim_chars(&chars(s)), chars(s.trim()));
    }
}

#[test]
fn strip_line_end_keeps_other_whitespace() {
    assert_eq!(strip_line_end_chars(&chars("exit \r\n")), chars("exit "));
    assert_eq!(strip_line_end_chars(&chars("a\n\n")), chars("a"));
    assert_eq!(strip_line_end_chars(&chars("\n")), chars(""));
    assert_eq!(strip_line_end_chars(&chars(" a\tb")), chars(" a\tb"));
}

#[test]
fn tokens_split_on_whitespace_runs() {
    for s in ["echo   a  b", "  lead", "trail  ", "", "   ", "one", "a\tb\nc\u{2003}d"] {
        let expected: Vec<Vec<char>> = s.split_whitespace().map(chars).collect();
        assert_eq!(split_tokens(&chars(s)), expected);
    }
}

#[test]
fn join_from_skips_leading_parts() {
    let words = vec![chars("echo"), chars("a"), chars("bc")];
    assert_eq!(join_from(&words, 1), "a bc".to_string());
    assert_eq!(join_from(&words, 0), "echo a bc".to_string());
    assert_eq!(join_from(&words, 3), String::new());
}

#[test]
fn same_chars_compares_contents() {
    assert!(same_chars(&chars("ls"), &chars("ls")));
    assert!(!same_chars(&chars("ls"), &chars("lt")));
    assert!(!same_chars(&chars("ls"), &chars("l")));
}
