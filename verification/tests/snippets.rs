use mcp_filesystem::service::FileSystemService;
use mcp_filesystem::snippet::{extract_snippet_static, Match};

fn setup_service() -> FileSystemService {
    FileSystemService::new(vec!["/srv/dir_search".to_string()])
}

#[test]
fn test_match_near_start_short_line() {
    let service = setup_service();
    let line = "match this text";
    let m = Match::new(0, 5);
    let result = service.extract_snippet(line, m, Some(20), Some(5));
    assert_eq!(result, "match this text");
}

#[test]
fn test_snippet_back_chars() {
    let service = setup_service();
    let line = "this is a long enough line for testing match in middle";
    let m = Match::new(40, 45);
    let result = service.extract_snippet(line, m, Some(20), Some(5));
    assert!(result.starts_with("..."));
    assert!(!result.ends_with("..."));
    assert!(result.contains("match"));
    assert_eq!(result, "...ing match in middle");

    let line = "this is a long enough line for testing match in middles .";
    let m = Match::new(40, 45);
    let result = service.extract_snippet(line, m, Some(20), Some(5));
    assert!(result.starts_with("..."));
    assert!(result.ends_with("..."));
    assert!(result.contains("match"));
    assert_eq!(result, "...ing match in middles...");
}

#[test]
fn test_match_triggers_only_end_ellipsis() {
    let service = setup_service();
    let line = "match is at start but line is long";
    let m = Match::new(0, 5);
    let result = service.extract_snippet(line, m, Some(10), Some(5));
    assert!(!result.starts_with("..."));
    assert!(result.ends_with("..."));
    assert_eq!(result, "match is a...");
}

#[test]
fn test_match_triggers_only_start_ellipsis() {
    let service = setup_service();
    let line = "line is long and match is near end";
    let m = Match::new(31, 36);
    let result = service.extract_snippet(line, m, Some(10), Some(5));
    assert!(result.starts_with("..."));
    assert!(!result.ends_with("..."));
    assert_eq!(result, "...near end");
}

#[test]
fn test_trim_applied() {
    let service = setup_service();
    let line = "     match here with spaces    ";
    let m = Match::new(5, 10);
    let result = service.extract_snippet(line, m, Some(10), Some(5));
    assert!(!result.contains("     "));
    assert!(result.contains("match"));
    assert_eq!(result, "match here...");
}

#[test]
fn test_exact_snippet_end() {
    let service = setup_service();
    let line = "some content with match inside";
    let m = Match::new(18, 23);
    let result = service.extract_snippet(line, m, Some(line.len()), Some(18));
    assert_eq!(result, "some content with match inside");
}

#[test]
fn test_extract_snippet_bug_37() {
    let service = setup_service();
    let line = "If and when that happens, however, we will not be able to declare victory quite yet. Defeating the open conspiracy to deprive students of physical access to books will do little to counteract the more diffuse confluence of forces that are depriving students of their education with a curly apostrophe ’ followed by more text";
    let curly_pos = line.find("’").unwrap();
    println!("Curly apostrophe at byte: {curly_pos}");
    let match_start = curly_pos + 3;
    let match_end = match_start + 8;
    let match_result = Match::new(match_start, match_end);
    let backward_chars = match_start - (curly_pos + 1);
    println!("match_start: {match_start}, match_end: {match_end},  backward_chars  {backward_chars} ");
    let result = service.extract_snippet(line, match_result, Some(5), Some(backward_chars));
    println!("Snippet: {result}");
    assert_eq!(result, "... foll...");
}

#[test]
fn snippet_defaults_are_200_characters_and_30_bytes_back() {
    let service = setup_service();
    let line = "x".repeat(400);
    let result = service.extract_snippet(&line, Match::new(100, 101), None, None);
    assert_eq!(result, format!("...{}...", "x".repeat(200)));
    let result = service.extract_snippet(&line, Match::new(20, 21), None, None);
    assert_eq!(result, format!("{}...", "x".repeat(200)));
}

#[test]
fn snippet_start_moves_to_the_next_character_boundary() {
    // 'é' takes the bytes 1..3; a start that falls on byte 2 moves to byte 3.
    assert_eq!(extract_snippet_static("aébc", 4, 10, 2), "...bc");
    assert_eq!(extract_snippet_static("aébc", 4, 10, 3), "...ébc");
}

#[test]
fn snippet_start_past_the_last_character_is_the_end_of_the_line() {
    assert_eq!(extract_snippet_static("aé", 2, 10, 0), "...");
    assert_eq!(extract_snippet_static("abc", 50, 10, 0), "...");
}

#[test]
fn snippet_of_a_match_inside_the_leading_space_starts_the_line() {
    assert_eq!(extract_snippet_static("   abc", 1, 10, 0), "abc");
}

#[test]
fn snippet_of_blank_line_is_empty() {
    assert_eq!(extract_snippet_static("  \t ", 0, 10, 0), "");
    assert_eq!(extract_snippet_static("", 0, 10, 0), "");
}

#[test]
fn snippet_with_zero_length_is_just_the_cut_mark() {
    assert_eq!(extract_snippet_static("abc", 0, 0, 0), "...");
}

#[test]
fn snippet_trims_unicode_white_space() {
    assert_eq!(extract_snippet_static("\u{3000}\u{a0}abc\u{2003}\n", 5, 10, 0), "abc");
}
