use wyrtloom_provider_nous::strip_control;

#[test]
fn strip_control_removes_ansi_keeps_whitespace() {
    assert_eq!(strip_control("\x1b[31mred\x1b[0m text"), "red text");
    assert_eq!(strip_control("line1\nline2\tcol\r\n"), "line1\nline2\tcol\r\n");
    assert_eq!(strip_control("bell\x07here"), "bellhere");
}

#[test]
fn strings_of_the_terminal_are_removed_whole() {
    assert_eq!(strip_control("a\x1b]0;owned title\x07b"), "ab");
    assert_eq!(strip_control("a\x1b]8;;https://evil\x1b\\link\x1b]8;;\x1b\\b"), "alinkb");
    assert_eq!(strip_control("a\x1bPq#0;2;0\x1b\\b"), "ab");
    assert_eq!(strip_control("a\x1bPone\x07two\u{9c}b"), "ab");
    assert_eq!(strip_control("a\x1b]0;one\u{9c}b"), "ab");
}

#[test]
fn unfinished_sequences_run_to_the_end() {
    assert_eq!(strip_control("a\x1b"), "a");
    assert_eq!(strip_control("a\x1b[31"), "a");
    assert_eq!(strip_control("a\x1b]0;title"), "a");
    assert_eq!(strip_control("a\x1bPpayload\x1b"), "a");
}

#[test]
fn other_sequences_run_to_a_letter() {
    assert_eq!(strip_control("a\x1b(Bb"), "ab");
    assert_eq!(strip_control("a\x1bcb"), "ab");
    assert_eq!(strip_control("\x1b[1;31mx\x1b[K"), "x");
}

#[test]
fn bidi_and_format_characters_are_removed() {
    assert_eq!(strip_control("ab\u{202e}cd\u{2066}ef\u{2069}"), "abcdef");
    assert_eq!(strip_control("\u{feff}z\u{200b}w\u{ad}\u{e0041}"), "zw");
    assert_eq!(strip_control("\u{61c}\u{200e}\u{200f}"), "");
}

#[test]
fn each_control_character_is_removed() {
    for code in 0..=0x10ffffu32 {
        if let Some(c) = char::from_u32(code) {
            let s = format!("a{}", c);
            let out = strip_control(&s);
            if c == '\n' || c == '\r' || c == '\t' {
                assert_eq!(out, s);
            } else if c.is_control() {
                assert_eq!(out, "a", "{:x}", code);
            } else {
                assert!(out == "a" || out == s, "{:x}", code);
            }
        }
    }
}

#[test]
fn stripping_twice_changes_nothing() {
    for s in ["", "plain", "\x1b[31mred\x1b[0m", "a\x1b]x\x07\u{202e}b", "\u{1b}\u{1b}[m"] {
        let once = strip_control(s);
        assert_eq!(strip_control(&once), once);
    }
    assert_eq!(strip_control("Grüße, 世界 \u{1f600}"), "Grüße, 世界 \u{1f600}");
}

#[test]
fn text_without_escape_is_stripped_by_itself() {
    for a in ["", "plain", "a\u{7}b\u{202e}", "\u{9c}[31m"] {
        for b in ["tail", "\x1b[31mred", "\x1b]0;x\x07", "\u{1}z"] {
            let whole = format!("{}{}", a, b);
            assert_eq!(strip_control(&whole), format!("{}{}", strip_control(a), strip_control(b)));
        }
    }
}

#[test]
fn an_escape_within_a_string_does_not_end_it() {
    assert_eq!(strip_control("a\x1b]0;\x1b[31mred\x07b"), "ab");
    assert_eq!(strip_control("a\x1bP\x1bx\x07y\x1b\x1b\\b"), "ab");
}
