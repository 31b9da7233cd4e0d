use discord_fend::text::{
    chars_of, is_whitespace, join_strings, lines_of, push_decimal_i64, push_decimal_u64,
    split_rules_of, str_eq, string_of, trim_str, words_of,
};

fn strings(v: &[&str]) -> Vec<String> {
    v.iter().map(|s| s.to_string()).collect()
}

#[test]
fn whitespace_is_unicode_white_space() {
    for c in [' ', '\t', '\n', '\r', '\u{b}', '\u{c}', '\u{85}', '\u{a0}', '\u{1680}', '\u{2000}', '\u{200a}', '\u{2028}', '\u{2029}', '\u{202f}', '\u{205f}', '\u{3000}'] {
        assert!(is_whitespace(c));
        assert!(c.is_whitespace());
    }
    for c in ['a', '\u{200b}', '\u{feff}', '_', '\u{180e}'] {
        assert!(!is_whitespace(c));
        assert_eq!(is_whitespace(c), c.is_whitespace());
    }
}

#[test]
fn trim_matches_str_trim() {
    for s in ["  a b  ", "", "   ", "\u{3000}x\u{a0}", "x"] {
        assert_eq!(trim_str(s), s.trim());
    }
}

#[test]
fn lines_match_str_lines() {
    for s in ["a\nb", "a\n", "", "\n", "a\r\nb\r\n", "a\r", "a\n\nb\n\n", "\r\n"] {
        let expected: Vec<String> = s.lines().map(String::from).collect();
        assert_eq!(lines_of(&chars_of(s)), expected);
    }
}

#[test]
fn words_match_split_whitespace() {
    for s in ["a b", "  a\t\tb  c ", "", "   ", "one"] {
        let expected: Vec<String> = s.split_whitespace().map(String::from).collect();
        assert_eq!(words_of(&chars_of(s)), expected);
    }
}

#[test]
fn rules_split_like_str_split() {
    for s in ["a---b---c", "---", "-----x", "no rule", "", "a--b"] {
        let expected: Vec<String> = s.split("---").map(String::from).collect();
        assert_eq!(split_rules_of(&chars_of(s)), expected);
    }
}

#[test]
fn join_matches_slice_join() {
    assert_eq!(join_strings(&strings(&["a", "b", "c"]), ", "), "a, b, c");
    assert_eq!(join_strings(&strings(&["a"]), ", "), "a");
    assert_eq!(join_strings(&Vec::new(), ", "), "");
}

#[test]
fn decimal_matches_display() {
    for n in [0u64, 7, 10, 1234, u64::MAX] {
        let mut s = String::new();
        push_decimal_u64(&mut s, n);
        assert_eq!(s, n.to_string());
    }
    for n in [0i64, -1, 42, -9876, i64::MIN, i64::MAX] {
        let mut s = String::from(">");
        push_decimal_i64(&mut s, n);
        assert_eq!(s, format!(">{}", n));
    }
}

#[test]
fn string_helpers() {
    assert!(str_eq("abc", "abc"));
    assert!(!str_eq("abc", "abd"));
    assert!(!str_eq("ab", "abc"));
    assert_eq!(string_of(&chars_of("h\u{e9}llo")), "h\u{e9}llo");
}
