use pdf_translator::text::replace_all;
use pdf_translator::text::split_numbered_lines;
use pdf_translator::text::str_contains;

#[test]
fn contains_finds_patterns() {
    assert!(str_contains("hello world", "lo wo"));
    assert!(str_contains("abc", ""));
    assert!(!str_contains("abc", "abcd"));
    assert!(!str_contains("", "a"));
    assert!(str_contains("aaa", "aa"));
}

#[test]
fn replace_is_leftmost_and_non_overlapping() {
    assert_eq!(replace_all("aaa", "aa", "b"), "ba");
    assert_eq!(replace_all("x", "xy", "z"), "x");
    assert_eq!(replace_all("", "a", "b"), "");
    assert_eq!(replace_all("ababab", "ab", "c"), "ccc");
}

#[test]
fn split_handles_mixed_line_endings() {
    let r = split_numbered_lines("a\nb\r\nc");
    let expected: Vec<(usize, String)> =
        vec![(0, "a".to_string()), (1, "b".to_string()), (2, "c".to_string())];
    assert_eq!(r, expected);
}
