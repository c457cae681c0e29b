use label_audit::text::contains_substr;
use label_audit::text::split_lines;
use label_audit::text::u64_to_string;

#[test]
fn contains_finds_marker_substring() {
    assert!(contains_substr("pub fn foo() {}", "fn "));
    assert!(contains_substr("#[tested]", "#[tested]"));
    assert!(contains_substr("xx #[tested] yy", "#[tested]"));
    assert!(!contains_substr("#[untested]", "#[tested]"));
    assert!(!contains_substr("fn_name", "fn "));
    assert!(!contains_substr("abc", "abcd"));
}

#[test]
fn contains_empty_needle() {
    assert!(contains_substr("anything", ""));
    assert!(contains_substr("", ""));
    assert!(!contains_substr("", "x"));
}

#[test]
fn split_on_newlines() {
    let lines = split_lines("a\nbb\nccc");
    assert_eq!(lines, vec!["a", "bb", "ccc"]);
}

#[test]
fn split_keeps_trailing_empty_line() {
    assert_eq!(split_lines("a\n"), vec!["a", ""]);
    assert_eq!(split_lines(""), vec![""]);
    assert_eq!(split_lines("\n"), vec!["", ""]);
}

#[test]
fn split_keeps_carriage_returns() {
    assert_eq!(split_lines("a\r\nb"), vec!["a\r", "b"]);
}

#[test]
fn decimal_rendering() {
    assert_eq!(u64_to_string(0), "0");
    assert_eq!(u64_to_string(7), "7");
    assert_eq!(u64_to_string(10), "10");
    assert_eq!(u64_to_string(12345), "12345");
    assert_eq!(u64_to_string(u64::MAX), "18446744073709551615");
}
