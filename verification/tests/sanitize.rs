use rustdown::sanitize::strip_terminal_escapes;

#[test]
fn strips_control_sequence() {
    assert_eq!(strip_terminal_escapes("a\u{1b}[31mb"), "ab");
    assert_eq!(strip_terminal_escapes("a\u{1b}[1;2@b"), "ab");
    assert_eq!(strip_terminal_escapes("x\u{1b}[1;2"), "x");
}

#[test]
fn strips_operating_system_command() {
    assert_eq!(strip_terminal_escapes("a\u{1b}]0;title\u{7}b"), "ab");
    assert_eq!(strip_terminal_escapes("a\u{1b}]0;t\u{1b}\\b"), "ab");
    // A backslash right after the `]` does not end the command: the rest goes.
    assert_eq!(strip_terminal_escapes("a\u{1b}]\\b"), "a");
}

#[test]
fn strips_two_character_escape_and_lone_escape() {
    assert_eq!(strip_terminal_escapes("a\u{1b}Xb"), "ab");
    assert_eq!(strip_terminal_escapes("ab\u{1b}"), "ab");
}

#[test]
fn strips_control_characters_but_keeps_whitespace() {
    assert_eq!(strip_terminal_escapes("a\u{0}\u{8}\u{b}\u{c}\u{e}\u{1a}\u{7f}b"), "ab");
    assert_eq!(strip_terminal_escapes("a\u{1c}\u{1d}\u{1e}\u{1f}b"), "ab");
    assert_eq!(strip_terminal_escapes("a\u{80}\u{9b}31m\u{9f}b\u{a0}"), "a31mb\u{a0}");
    assert_eq!(strip_terminal_escapes("a\tb\nc\rd"), "a\tb\nc\rd");
}

#[test]
fn stripping_is_idempotent_and_never_longer() {
    let inputs = ["", "plain", "\u{1b}[1m\u{1b}[0m", "x\u{1b}]y\u{7}\u{1b}[z", "é\u{7f}ü", "\u{1c}\u{9b}x"];
    for s in inputs {
        let once = strip_terminal_escapes(s);
        assert_eq!(strip_terminal_escapes(&once), once);
        assert!(once.chars().count() <= s.chars().count());
        assert!(once.chars().all(|c| !c.is_control() || c == '\t' || c == '\n' || c == '\r'));
    }
}
