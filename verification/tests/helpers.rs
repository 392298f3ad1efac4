use domfmt::text::trim_str;
use domfmt::{escape_default, is_empty};

#[test]
fn escape_passes_printable_ascii_through() {
    assert_eq!(escape_default("ab c~!"), "ab c~!");
}

#[test]
fn escape_named_escapes() {
    assert_eq!(escape_default("a\tb\rc\nd"), "a\\tb\\rc\\nd");
}

#[test]
fn escape_backslash_and_quotes() {
    assert_eq!(escape_default("\\\"'"), "\\\\\\\"\\'");
}

#[test]
fn escape_control_characters_as_unicode() {
    assert_eq!(escape_default("\u{0}\u{7f}"), "\\u{0}\\u{7f}");
}

#[test]
fn escape_non_ascii_as_lowercase_hex() {
    assert_eq!(escape_default("\u{e9}\u{1F600}"), "\\u{e9}\\u{1f600}");
}

#[test]
fn escape_empty_is_empty() {
    assert_eq!(escape_default(""), "");
}

#[test]
fn is_empty_on_empty_string() {
    assert!(is_empty(""));
}

#[test]
fn is_empty_on_ascii_whitespace() {
    assert!(is_empty(" \t\r\n\u{b}\u{c}"));
}

#[test]
fn is_empty_on_unicode_whitespace() {
    assert!(is_empty("\u{85}\u{a0}\u{1680}\u{2000}\u{200a}\u{2028}\u{2029}\u{202f}\u{205f}\u{3000}"));
}

#[test]
fn is_empty_rejects_zero_width_space() {
    assert!(!is_empty("\u{200b}"));
}

#[test]
fn is_empty_rejects_text() {
    assert!(!is_empty("  x  "));
}

#[test]
fn trim_removes_both_ends() {
    assert_eq!(trim_str("  a b\t"), "a b");
}

#[test]
fn trim_of_all_whitespace_is_empty() {
    assert_eq!(trim_str(" \n "), "");
}

#[test]
fn trim_keeps_inner_whitespace_only() {
    assert_eq!(trim_str("\u{a0}x y\u{3000}"), "x y");
}
