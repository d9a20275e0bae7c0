use news_aggregator::tools::{
    empty_string_as_option, i64_to_string, same_text, starts_with, text_contains,
};

#[test]
fn empty_string_is_none() {
    assert_eq!(empty_string_as_option(""), None);
    assert_eq!(empty_string_as_option("a"), Some("a".to_string()));
    assert_eq!(empty_string_as_option(" "), Some(" ".to_string()));
}

#[test]
fn integers_are_written_in_decimal() {
    assert_eq!(i64_to_string(0), "0");
    assert_eq!(i64_to_string(7), "7");
    assert_eq!(i64_to_string(10), "10");
    assert_eq!(i64_to_string(-1), "-1");
    assert_eq!(i64_to_string(1700000000), "1700000000");
    assert_eq!(i64_to_string(i64::MAX), "9223372036854775807");
    assert_eq!(i64_to_string(i64::MIN), "-9223372036854775808");
    for v in [-1005i64, -99, 99, 100, 101, 123456789] {
        assert_eq!(i64_to_string(v), v.to_string());
    }
}

#[test]
fn text_is_found_inside_text() {
    assert!(text_contains("https://x.test/rss", "x.test"));
    assert!(text_contains("abc", ""));
    assert!(text_contains("", ""));
    assert!(text_contains("abc", "abc"));
    assert!(text_contains("abc", "c"));
    assert!(!text_contains("abc", "abcd"));
    assert!(!text_contains("abc", "ac"));
    assert!(!text_contains("", "a"));
    assert!(text_contains("ааб", "аб"));
}

#[test]
fn prefixes_and_equal_texts_are_told() {
    assert!(starts_with("https://x", "https://"));
    assert!(!starts_with("http://x", "https://"));
    assert!(starts_with("x", ""));
    assert!(!starts_with("ht", "http://"));
    assert!(same_text("abc", "abc"));
    assert!(!same_text("abc", "abd"));
    assert!(!same_text("abc", "ab"));
}
