use english_input_assistant::text::{is_blank, is_whitespace, starts_with, str_eq, trim, trim_end, trim_start};

#[test]
fn trimming_matches_str_trim() {
    for s in ["", "  a b  ", "\u{3000}全角\u{3000}", "\t\n x\r\n", "no-space", "\u{85}\u{a0}y\u{2029}"] {
        assert_eq!(trim(s), s.trim());
        assert_eq!(trim_start(s), s.trim_start());
        assert_eq!(trim_end(s), s.trim_end());
        assert_eq!(is_blank(s), s.trim().is_empty());
    }
}

#[test]
fn whitespace_matches_char_is_whitespace() {
    for c in [' ', '\t', '\u{b}', '\u{c}', '\u{1680}', '\u{200b}', '\u{202f}', '\u{205f}', 'a', '\u{feff}'] {
        assert_eq!(is_whitespace(c), c.is_whitespace());
    }
}

#[test]
fn string_comparisons() {
    assert!(str_eq("STOP", "STOP"));
    assert!(!str_eq("STOP", "STOPPED"));
    assert!(starts_with("gemini-2.5-flash", "gemini-2.5"));
    assert!(!starts_with("gem", "gemini"));
}
