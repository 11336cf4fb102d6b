use kino_relay::text::{
    decimal_text, eq_ignore_ascii_case, same_text, strip_prefix, trim, trim_end_slashes,
};

#[test]
fn white_space_is_trimmed() {
    for text in [
        "", " ", "a", " a ", "\t a b \r\n", "\u{a0}x\u{3000}", "é ", "\u{200b}x", "\u{85}\u{2003}y",
        "x\u{1680}\u{2028}\u{2029}\u{202f}\u{205f}", "\u{b}\u{c}z\u{1c}", "\u{180e}q",
    ] {
        assert_eq!(trim(text), text.trim());
    }
}

#[test]
fn every_character_is_trimmed_as_white_space_or_kept() {
    for code in 0..0x3100u32 {
        if let Some(c) = char::from_u32(code) {
            let text = c.to_string();
            assert_eq!(trim(&text).is_empty(), c.is_whitespace());
        }
    }
}

#[test]
fn end_slashes_are_trimmed() {
    assert_eq!(trim_end_slashes("a/b//"), "a/b");
    assert_eq!(trim_end_slashes("//"), "");
    assert_eq!(trim_end_slashes("é/"), "é");
    assert_eq!(trim_end_slashes("a/ "), "a/ ");
}

#[test]
fn prefix_is_stripped() {
    assert_eq!(strip_prefix("éa", "é"), Some("a"));
    assert_eq!(strip_prefix("a", ""), Some("a"));
    assert_eq!(strip_prefix("a", "ab"), None);
    assert_eq!(strip_prefix("ba", "a"), None);
}

#[test]
fn texts_are_compared() {
    assert!(same_text("añ", "añ"));
    assert!(!same_text("añ", "an"));
    assert!(!same_text("a", "aa"));
    assert!(eq_ignore_ascii_case("YeS", "yEs"));
    assert!(!eq_ignore_ascii_case("É", "é"));
    assert!(!eq_ignore_ascii_case("[", "{"));
    assert!(!eq_ignore_ascii_case("y", "ye"));
}

#[test]
fn numbers_in_decimal() {
    for n in [0, 9, 10, 99, 100, 401, 65535, u32::MAX] {
        assert_eq!(decimal_text(n), n.to_string());
    }
}
