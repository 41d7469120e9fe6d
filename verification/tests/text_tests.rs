use ai_gateway_engine::text::{
    chars_of, contains_text, decimal_chars, ends_with_text, find_char, is_space_char,
    lower_chars, same_text, starts_with_text, strip_leading_chars, strip_trailing_chars,
    text_after_first, text_without_prefix, trim_chars,
};

fn s(v: Vec<char>) -> String {
    v.into_iter().collect()
}

#[test]
fn trim_removes_unicode_white_space() {
    assert_eq!(s(trim_chars(&chars_of("  a b \t\r\n"))), "a b");
    assert_eq!(s(trim_chars(&chars_of("\u{a0}\u{3000}x\u{2028}"))), "x");
    assert_eq!(s(trim_chars(&chars_of("   "))), "");
    assert_eq!(s(trim_chars(&chars_of(""))), "");
    assert_eq!(s(trim_chars(&chars_of("\u{200b}x"))), "\u{200b}x");
}

#[test]
fn white_space_is_what_std_says() {
    for n in 0u32..0x3100 {
        if let Some(c) = char::from_u32(n) {
            assert_eq!(is_space_char(c), c.is_whitespace(), "U+{:04X}", n);
        }
    }
}

#[test]
fn strip_removes_every_repeat() {
    assert_eq!(s(strip_leading_chars(&chars_of(":: x"), ':')), " x");
    assert_eq!(s(strip_trailing_chars(&chars_of("u//"), '/')), "u");
    assert_eq!(s(strip_leading_chars(&chars_of("x:"), ':')), "x:");
}

#[test]
fn find_char_gives_the_first_index_or_the_length() {
    assert_eq!(find_char(&chars_of("a:b:c"), ':'), 1);
    assert_eq!(find_char(&chars_of("abc"), ':'), 3);
    assert_eq!(find_char(&chars_of(""), ':'), 0);
}

#[test]
fn contains_finds_substrings() {
    assert!(contains_text("status 401 Unauthorized", "401"));
    assert!(!contains_text("status 500", "401"));
    assert!(contains_text("abc", ""));
    assert!(!contains_text("40", "400"));
    assert!(contains_text("x400", "400"));
}

#[test]
fn prefixes_and_suffixes() {
    assert!(starts_with_text("/v1/messages/x", "/v1/messages"));
    assert!(!starts_with_text("/v1/m", "/v1/messages"));
    assert!(ends_with_text("http://h/v1", "/v1"));
    assert!(!ends_with_text("http://h/v1/", "/v1"));
    assert!(!ends_with_text("v1", "/v1"));
    assert!(same_text("a", "a"));
    assert!(!same_text("a", "A"));
}

#[test]
fn after_first_splits_at_the_first_occurrence() {
    assert_eq!(text_after_first("a: b: c", ": "), Some("b: c".to_string()));
    assert_eq!(text_after_first("abc", ": "), None);
    assert_eq!(text_after_first("abc: ", ": "), Some(String::new()));
    assert_eq!(text_after_first("", ": "), None);
}

#[test]
fn without_prefix_strips_once() {
    assert_eq!(text_without_prefix("Bearer abc", "Bearer "), Some("abc".to_string()));
    assert_eq!(text_without_prefix("bearer abc", "Bearer "), None);
    assert_eq!(text_without_prefix("Bearer ", "Bearer "), Some(String::new()));
}

#[test]
fn lower_touches_ascii_capitals_only() {
    assert_eq!(s(lower_chars("Content-LENGTH")), "content-length");
    assert_eq!(s(lower_chars("\u{c4}b")), "\u{c4}b");
}

#[test]
fn decimal_writes_numbers() {
    assert_eq!(s(decimal_chars(0)), "0");
    assert_eq!(s(decimal_chars(7)), "7");
    assert_eq!(s(decimal_chars(404)), "404");
    assert_eq!(s(decimal_chars(u64::MAX)), "18446744073709551615");
}
