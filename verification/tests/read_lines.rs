use mcp_filesystem::service::FileSystemService;

fn service() -> FileSystemService {
    FileSystemService::new(vec!["/srv/data".to_string()])
}

fn ten_lines() -> String {
    (1..=10).map(|i| format!("line{}", i)).collect::<Vec<_>>().join("\n")
}

fn read(content: &str, offset: usize, limit: Option<usize>, from_end: bool) -> String {
    String::from_utf8(service().read_file_lines(content.as_bytes(), offset, limit, from_end)).unwrap()
}

#[test]
fn test_from_end_optimization() {
    let content = ten_lines();
    assert_eq!(read(&content, 0, Some(3), true), "line8\nline9\nline10");
    assert_eq!(read(&content, 0, Some(5), true), "line6\nline7\nline8\nline9\nline10");
    assert_eq!(read(&content, 2, Some(3), true), "line6\nline7\nline8");
    assert_eq!(read(&content, 0, None, true), content);
    assert_eq!(read(&content, 20, Some(3), true), "");
}

#[test]
fn test_from_end_with_trailing_newline() {
    assert_eq!(read("line1\nline2\nline3\n", 0, Some(2), true), "line2\nline3\n");
}

#[test]
fn head_then_tail_of_ten_lines() {
    let content = ten_lines();
    assert_eq!(read(&content, 0, Some(3), false), "line1\nline2\nline3\n");
    assert_eq!(read(&content, 0, Some(3), true), "line8\nline9\nline10");
}

#[test]
fn test_head_file_normal() {
    assert_eq!(read("line1\nline2\nline3\nline4\nline5", 0, Some(3), false), "line1\nline2\nline3\n");
}

#[test]
fn test_head_file_empty_file() {
    assert_eq!(read("", 0, Some(5), false), "");
}

#[test]
fn test_head_file_n_zero() {
    assert_eq!(read("line1\nline2\nline3", 0, Some(0), false), "");
}

#[test]
fn test_head_file_n_larger_than_file() {
    assert_eq!(read("line1\nline2", 0, Some(5), false), "line1\nline2");
}

#[test]
fn test_head_file_no_trailing_newline() {
    assert_eq!(read("line1\nline2\nline3", 0, Some(3), false), "line1\nline2\nline3");
}

#[test]
fn test_head_file_single_line() {
    assert_eq!(read("line1", 0, Some(1), false), "line1");
}

#[test]
fn test_head_file_windows_line_endings() {
    assert_eq!(read("line1\r\nline2\r\nline3", 0, Some(2), false), "line1\r\nline2\r\n");
}

#[test]
fn test_tail_file_normal() {
    assert_eq!(read("line1\nline2\nline3\nline4\nline5", 0, Some(3), true), "line3\nline4\nline5");
}

#[test]
fn test_tail_file_empty_file() {
    assert_eq!(read("", 0, Some(5), true), "");
}

#[test]
fn test_tail_file_n_zero() {
    assert_eq!(read("line1\nline2\nline3", 0, Some(0), true), "");
}

#[test]
fn test_tail_file_n_larger_than_file() {
    assert_eq!(read("line1\nline2", 0, Some(5), true), "line1\nline2");
}

#[test]
fn test_tail_file_no_newline_at_end() {
    assert_eq!(read("line1\nline2\nline3", 0, Some(2), true), "line2\nline3");
}

#[test]
fn test_tail_file_single_line() {
    assert_eq!(read("line1", 0, Some(1), true), "line1");
}

#[test]
fn test_tail_file_windows_line_endings() {
    assert_eq!(read("line1\r\nline2\r\nline3", 0, Some(2), true), "line2\r\nline3");
}

#[test]
fn test_read_file_lines_normal() {
    assert_eq!(read("line1\nline2\nline3\nline4\nline5", 1, Some(2), false), "line2\nline3\n");
}

#[test]
fn test_read_file_lines_empty_file() {
    assert_eq!(read("", 0, Some(5), false), "");
}

#[test]
fn test_read_file_lines_offset_beyond_file() {
    assert_eq!(read("line1\nline2", 5, Some(3), false), "");
}

#[test]
fn test_read_file_lines_no_limit() {
    assert_eq!(read("line1\nline2\nline3\nline4", 2, None, false), "line3\nline4");
}

#[test]
fn test_read_file_lines_limit_zero() {
    assert_eq!(read("line1\nline2\nline3", 1, Some(0), false), "");
}

#[test]
fn test_read_file_lines_exact_file_length() {
    assert_eq!(read("line1\nline2\nline3", 0, Some(3), false), "line1\nline2\nline3");
}

#[test]
fn test_read_file_lines_no_newline_at_end() {
    assert_eq!(read("line1\nline2\nline3", 1, Some(2), false), "line2\nline3");
}

#[test]
fn test_read_file_lines_windows_line_endings() {
    assert_eq!(read("line1\r\nline2\r\nline3", 1, Some(2), false), "line2\r\nline3");
}

#[test]
fn whole_file_from_start_is_verbatim() {
    let content = "a\r\nb\rc\n\n\nlast";
    assert_eq!(read(content, 0, None, false), content);
}

#[test]
fn tail_of_windows_file_keeps_final_ending() {
    assert_eq!(read("a\r\nb\r\nc\r\n", 0, Some(2), true), "b\r\nc\r\n");
    assert_eq!(read("a\r\nb\r\nc\r\n", 1, Some(2), true), "a\r\nb");
}

#[test]
fn tail_joins_mixed_endings_with_crlf() {
    assert_eq!(read("a\nb\r\nc", 0, None, true), "a\r\nb\r\nc");
}

#[test]
fn offset_at_line_count_reads_nothing() {
    assert_eq!(read("a\nb\n", 2, None, false), "");
    assert_eq!(read("a\nb\n", 2, None, true), "");
    assert_eq!(read("a\nb\n", 1, None, true), "a");
}

#[test]
fn huge_limit_does_not_overflow() {
    assert_eq!(read("a\nb\nc", 1, Some(usize::MAX), false), "b\nc");
    assert_eq!(read("a\nb\nc", 1, Some(usize::MAX), true), "a\nb");
}

#[test]
fn reading_everything_from_the_end_keeps_the_final_newline_as_it_is() {
    for content in ["", "a", "a\n", "a\nb", "a\nb\n", "\n", "\n\n", "a\r\nb\r\n", "a\r\nb", "a\n\n", "x\r"] {
        let window = read(content, 0, None, true);
        assert_eq!(window.ends_with('\n'), content.ends_with('\n'), "{content:?}");
    }
    assert_eq!(read("a\nb\n", 0, None, true), "a\nb\n");
    assert_eq!(read("\n\n", 0, None, true), "\n\n");
}
