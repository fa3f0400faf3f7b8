use rustdown::text::{first_word_of, is_whitespace, push_decimal, push_prefixed_lines, trimmed};

fn cs(s: &str) -> Vec<char> {
    s.chars().collect()
}

fn st(v: &[char]) -> String {
    v.iter().collect()
}

#[test]
fn whitespace_is_unicode_white_space() {
    for c in [' ', '\t', '\n', '\u{b}', '\u{85}', '\u{a0}', '\u{2003}', '\u{3000}'] {
        assert!(is_whitespace(c));
        assert_eq!(is_whitespace(c), c.is_whitespace());
    }
    for c in ['a', '\u{200b}', '\u{1c}', '-'] {
        assert!(!is_whitespace(c));
        assert_eq!(is_whitespace(c), c.is_whitespace());
    }
}

#[test]
fn trimming_matches_str_trim() {
    for s in ["", "   ", "  a b  ", "\u{3000}x\u{a0}", "abc"] {
        assert_eq!(st(&trimmed(&cs(s))), s.trim());
    }
}

#[test]
fn first_word_matches_split_whitespace() {
    for s in ["", "  ", "rust extra", "  python3\tx", "one"] {
        assert_eq!(st(&first_word_of(&cs(s))), s.split_whitespace().next().unwrap_or(""));
    }
}

#[test]
fn lines_match_str_lines() {
    for s in ["", "a", "a\n", "a\r\nb", "\n\nx\r", "a\n\nb\n"] {
        let mut out = Vec::new();
        push_prefixed_lines(&mut out, &cs(s), &cs("> "));
        let expected: String = s.lines().map(|l| format!("> {}\n", l)).collect();
        assert_eq!(st(&out), expected);
    }
}

#[test]
fn decimal_notation() {
    for n in [0usize, 7, 10, 42, 1000, 18446744073709551615] {
        let mut out = Vec::new();
        push_decimal(&mut out, n);
        assert_eq!(st(&out), n.to_string());
    }
}
