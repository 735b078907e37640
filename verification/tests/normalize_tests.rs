use lunch_tray::normalize::normalize_text;
use lunch_tray::text::is_whitespace;

#[test]
fn normalized_text_keeps_every_non_whitespace_character() {
    for value in ["  Tofu\t wok \n(G,  L) ", "\u{A0}a\u{2003}b\r\nc", "", "   ", "x"] {
        let result = normalize_text(value);
        assert_eq!(normalize_text(&result), result);
        assert_eq!(result, result.trim());
        assert!(!result.contains("  "));
        assert!(result.chars().all(|c| c == ' ' || !c.is_whitespace()));
        assert!(result.chars().filter(|c| *c != ' ').eq(value.chars().filter(|c| !c.is_whitespace())));
    }
    assert_eq!(normalize_text("  Tofu\t wok \n(G,  L) "), "Tofu wok (G, L)");
}

#[test]
fn whitespace_is_the_unicode_property() {
    for c in [' ', '\t', '\n', '\u{b}', '\u{c}', '\r', '\u{85}', '\u{A0}', '\u{1680}', '\u{2003}', '\u{200A}', '\u{2028}', '\u{2029}', '\u{202F}', '\u{205F}', '\u{3000}'] {
        assert!(is_whitespace(c));
    }
    for c in ['a', '0', '_', '\u{0}', '\u{7f}', 'ä', '\u{180E}', '\u{200B}', '\u{FEFF}'] {
        assert!(!is_whitespace(c));
    }
}

#[test]
fn no_break_and_wide_spaces_normalize_to_plain_spaces() {
    assert_eq!(normalize_text("\u{A0}Tofu\u{2003}\u{3000}wok\u{85}"), "Tofu wok");
}
