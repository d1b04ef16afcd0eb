use mcp_filesystem::size::filesize_in_range;
use mcp_filesystem::text::{detect_line_ending, escape_regex, normalize_line_endings};

#[test]
fn test_normalize_line_endings() {
    let input = "line1\r\nline2\r\nline3";
    let normalized = normalize_line_endings(input);
    assert_eq!(normalized, "line1\nline2\nline3");
}

#[test]
fn normalize_turns_lone_cr_into_lf() {
    assert_eq!(normalize_line_endings("a\rb\r\nc\r"), "a\nb\nc\n");
    assert_eq!(normalize_line_endings("\r\r\n\n"), "\n\n\n");
    assert_eq!(normalize_line_endings(""), "");
}

#[test]
fn detect_line_ending_prefers_crlf_then_cr() {
    assert_eq!(detect_line_ending("a\r\nb"), "\r\n");
    assert_eq!(detect_line_ending("a\rb\r\nc"), "\r\n");
    assert_eq!(detect_line_ending("a\rb"), "\r");
    assert_eq!(detect_line_ending("a\nb"), "\n");
    assert_eq!(detect_line_ending("a\n\rb"), "\r");
    assert_eq!(detect_line_ending(""), "\n");
}

#[test]
fn escape_regex_puts_a_backslash_before_each_special_character() {
    assert_eq!(escape_regex("a.b"), "a\\.b");
    assert_eq!(escape_regex(".^$*+?()[]{}\\|/"), "\\.\\^\\$\\*\\+\\?\\(\\)\\[\\]\\{\\}\\\\\\|\\/");
    assert_eq!(escape_regex("Watso\\d*n"), "Watso\\\\d\\*n");
    assert_eq!(escape_regex("plain text-é"), "plain text-é");
    assert_eq!(escape_regex(""), "");
}

#[test]
fn filesize_in_range_is_inclusive_on_both_sides() {
    assert!(filesize_in_range(10, None, None));
    assert!(filesize_in_range(10, Some(10), Some(10)));
    assert!(!filesize_in_range(9, Some(10), None));
    assert!(!filesize_in_range(11, None, Some(10)));
    assert!(filesize_in_range(11, Some(10), None));
    assert!(!filesize_in_range(5, Some(10), Some(1)));
}
