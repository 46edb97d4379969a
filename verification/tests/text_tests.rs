use opencode_gpui::selection_filter::matches_query;
use opencode_gpui::text::{
    ascii_lowercase, contains, eq_ignore_ascii_case, replace_char, starts_with, str_less, trim,
    u64_text,
};

#[test]
fn lowercase_follows_unicode() {
    assert!(matches_query(&["ÀB"], "àb"));
    assert!(!matches_query(&["ÀB"], "ÀB"));
    assert_eq!(ascii_lowercase("ÀB"), "Àb");
    assert!(eq_ignore_ascii_case("</KBD>", "</kbd>"));
    assert!(!eq_ignore_ascii_case("</kbd>", "<kbd>"));
}

#[test]
fn trimming_uses_unicode_white_space() {
    assert_eq!(trim("\u{3000} a b \n"), "a b");
    assert_eq!(trim("   "), "");
    assert_eq!(trim("\u{a0}x\u{a0}"), "x");
}

#[test]
fn searching_and_replacing() {
    assert!(contains("hello", "ell"));
    assert!(contains("hello", ""));
    assert!(!contains("he", "hello"));
    assert!(starts_with("hello", "he"));
    assert!(!starts_with("he", "hello"));
    assert_eq!(replace_char("a\nb\n", '\n', ' '), "a b ");
    assert_eq!(u64_text(1203), "1203");
}

#[test]
fn strings_sort_by_code_point() {
    assert!(str_less("alpha", "beta"));
    assert!(str_less("a", "ab"));
    assert!(!str_less("b", "a"));
    assert!(!str_less("same", "same"));
}

#[test]
fn trimming_drops_unicode_white_space_only() {
    assert_eq!(opencode_gpui::text::trim("\u{3000}\u{85} x\u{a0}y \u{2028}\t"), "x\u{a0}y");
    assert_eq!(opencode_gpui::text::trim("\u{200b}x\u{200b}"), "\u{200b}x\u{200b}");
    for c in ['\u{9}', '\u{d}', ' ', '\u{1680}', '\u{2000}', '\u{200a}', '\u{2029}', '\u{202f}', '\u{205f}'] {
        assert_eq!(opencode_gpui::text::trim(&format!("{c}a{c}")), "a");
    }
}
