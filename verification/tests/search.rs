use mcp_filesystem::content::{FileSearchResult, SourceFile};
use mcp_filesystem::dedup::key_at_level;
use mcp_filesystem::error::ServiceError;
use mcp_filesystem::service::FileSystemService;
use mcp_filesystem::walk::{eq_ignore_ascii_case, exclude_glob, name_glob, EntryKind, SearchFilter, WalkEntry};

const ROOT: &str = "/srv/data/dir1";

fn service() -> FileSystemService {
    FileSystemService::new(vec![ROOT.to_string()])
}

fn entry(rel: &str, kind: EntryKind, size: Option<u64>) -> WalkEntry {
    let file_name = rel.rsplit('/').next().unwrap().to_string();
    let extension = match file_name.rfind('.') {
        Some(at) if at > 0 => Some(file_name[at + 1..].to_string()),
        _ => None,
    };
    WalkEntry { path: format!("{ROOT}/{rel}"), relative_path: rel.to_string(), file_name, extension, kind: Some(kind), size }
}

fn file(rel: &str, content: &str) -> SourceFile {
    SourceFile { entry: entry(rel, EntryKind::File, Some(content.len() as u64)), content: Some(content.as_bytes().to_vec()) }
}

fn dir(rel: &str) -> WalkEntry {
    entry(rel, EntryKind::Directory, Some(4096))
}

fn names(found: &[WalkEntry]) -> Vec<String> {
    found.iter().map(|e| e.file_name.clone()).collect()
}

const WATSON: &str = "For the Doctor Watsons of this world, as opposed to the Sherlock
        Holmeses, success in the province of detective work must always
        be, to a very large extent, the result of luck. Sherlock Holmes
        can extract a clew from a wisp of straw or a flake of cigar ash;
        but Doctor Watso2n has to have it taken out for him and dusted,
        and exhibited clearly, with Watso\\d*n a label attached.";

#[test]
fn test_content_search() {
    let service = service();
    let path = "/srv/data/dir1/file_to_search.txt";
    let query = r#"Watso\d*n"#;

    let result = service.content_search(query, path, WATSON.as_bytes(), Some(true)).unwrap();
    assert!(result.is_some());
    let result = result.unwrap();
    assert_eq!(result.file_path, path);
    assert_eq!(result.matches.len(), 2);
    assert_eq!(result.matches[0].line_number, 1);
    assert_eq!(result.matches[1].line_number, 5);
    assert_eq!(result.matches[0].line_text.trim(), "For the Doctor Watsons of this world, as opposed to the Sherlock");
    assert_eq!(result.matches[1].line_text.trim(), "but Doctor Watso2n has to have it taken out for him and dusted,");
    assert_eq!(result.matches[0].start_pos, 15);
    assert_eq!(result.matches[1].start_pos, 19);

    let result = service.content_search(query, path, WATSON.as_bytes(), Some(false)).unwrap();
    assert!(result.is_some());
    let result = result.unwrap();
    assert_eq!(result.matches.len(), 1);
    assert_eq!(result.matches[0].line_number, 6);
    assert_eq!(result.matches[0].line_text.trim(), "and exhibited clearly, with Watso\\d*n a label attached.");
}

#[test]
fn content_search_is_literal_by_default_and_ignores_case() {
    let service = service();
    let found = service.content_search("A.B", "/srv/data/dir1/f", b"xaxb\nza.bz\n", None).unwrap().unwrap();
    assert_eq!(found.matches.len(), 1);
    assert_eq!(found.matches[0].line_number, 2);
    assert_eq!(found.matches[0].start_pos, 1);
    assert_eq!(found.matches[0].line_text, "za.bz");
}

#[test]
fn content_search_of_empty_file_or_empty_query_finds_nothing() {
    let service = service();
    assert_eq!(service.content_search("x", "/srv/data/dir1/f", b"", Some(true)), Ok(None));
    assert_eq!(service.content_search("", "/srv/data/dir1/f", b"abc\n", Some(true)), Ok(None));
    assert_eq!(service.content_search("", "/srv/data/dir1/f", b"abc\n", Some(false)), Ok(None));
    assert_eq!(service.content_search("nothing", "/srv/data/dir1/f", b"abc\n", None), Ok(None));
}

#[test]
fn content_search_refuses_a_broken_regex() {
    let service = service();
    let found = service.content_search("(unclosed", "/srv/data/dir1/f", b"abc\n", Some(true));
    assert!(matches!(found, Err(ServiceError::ContentSearchError(_))));
    let found = service.content_search("(unclosed", "/srv/data/dir1/f", b"x (unclosed y\n", Some(false));
    assert_eq!(found.unwrap().unwrap().matches[0].start_pos, 2);
}

#[test]
fn content_search_stops_at_a_nul_byte() {
    let service = service();
    let found = service.content_search("needle", "/srv/data/dir1/f", b"needle one\n\x00binary\nneedle two\n", None).unwrap();
    let lines: Vec<u64> = found.map(|r| r.matches.iter().map(|m| m.line_number).collect()).unwrap_or_default();
    assert!(!lines.contains(&3));
}

#[test]
fn content_search_snippet_is_cut_around_the_match() {
    let service = service();
    let line = format!("{}needle{}\n", "a".repeat(100), "b".repeat(300));
    let found = service.content_search("needle", "/srv/data/dir1/f", line.as_bytes(), None).unwrap().unwrap();
    assert_eq!(found.matches[0].start_pos, 100);
    assert_eq!(found.matches[0].line_text, format!("...{}needle{}...", "a".repeat(30), "b".repeat(164)));
}

#[test]
fn search_files_content() {
    let service = service();
    let text = WATSON.replace("Watso\\d*n a label", "Watso2n a label").replace("Doctor Watso2n has", "Doctor Watson has");
    let files = vec![file("file1.txt", &text), file("file2.txt", &text)];
    let results = service.search_files_content(ROOT, &files, "*.txt", r#"Watso\d*n"#, true, None, None, None).unwrap();
    assert_eq!(results.len(), 2);
    assert_eq!(results[0].matches.len(), 3);
    assert_eq!(results[1].matches.len(), 3);
    assert_eq!(results[0].file_path, "/srv/data/dir1/file1.txt");
    assert_eq!(results[1].file_path, "/srv/data/dir1/file2.txt");
}

#[test]
fn search_files_content_filters_by_glob_exclude_size_and_kind() {
    let service = service();
    let mut unreadable = file("locked.txt", "needle");
    unreadable.content = None;
    let mut directory = file("needle.txt.d", "needle");
    directory.entry.kind = Some(EntryKind::Directory);
    let files = vec![
        file("a.txt", "needle\n"),
        file("b.md", "needle\n"),
        file("skip/c.txt", "needle\n"),
        file("sub/d.txt", "a needle that is in a larger file\n"),
        file("e.txt", "nothing here\n"),
        unreadable,
        directory,
    ];
    let found = |pattern: &str, excludes: Option<Vec<String>>, min: Option<u64>, max: Option<u64>| -> Vec<String> {
        let results: Vec<FileSearchResult> = service.search_files_content(ROOT, &files, pattern, "needle", false, excludes, min, max).unwrap();
        results.into_iter().map(|r| r.file_path.replace("/srv/data/dir1/", "")).collect()
    };
    assert_eq!(found("**/*", None, None, None), vec!["a.txt", "b.md", "skip/c.txt", "sub/d.txt"]);
    assert_eq!(found("*.txt", None, None, None), vec!["a.txt"]);
    assert_eq!(found("**/*.txt", None, None, None), vec!["a.txt", "skip/c.txt", "sub/d.txt"]);
    assert_eq!(found("**/*.txt", Some(vec!["/skip/**".to_string()]), None, None), vec!["a.txt", "sub/d.txt"]);
    assert_eq!(found("**/*", Some(vec!["a.t".to_string(), "md".to_string()]), None, None), vec!["skip/c.txt", "sub/d.txt"]);
    assert_eq!(found("**/*", None, Some(10), None), vec!["sub/d.txt"]);
    assert_eq!(found("**/*", None, None, Some(7)), vec!["a.txt", "b.md", "skip/c.txt"]);
}

#[test]
fn search_files_content_refuses_bad_root_and_bad_regex() {
    let service = service();
    let files = vec![file("a.txt", "needle\n")];
    let denied = service.search_files_content("/srv/other", &files, "*", "needle", false, None, None, None);
    assert!(matches!(denied, Err(ServiceError::NotAllowed(_))));
    let broken = service.search_files_content(ROOT, &files, "*", "[", true, None, None, None);
    assert!(matches!(broken, Err(ServiceError::ContentSearchError(_))));
    let broken_without_files = service.search_files_content(ROOT, &Vec::new(), "*", "[", true, None, None, None);
    assert!(matches!(broken_without_files, Err(ServiceError::ContentSearchError(_))));
    let empty_query = service.search_files_content(ROOT, &files, "*", "", true, None, None, None).unwrap();
    assert!(empty_query.is_empty());
}

#[test]
fn test_search_files() {
    let service = service();
    let entries = vec![dir(""), entry("test1.txt", EntryKind::File, Some(7)), entry("test2.doc", EntryKind::File, Some(7))];
    let mut root_entry = entries[0].clone();
    root_entry.path = ROOT.to_string();
    let entries = vec![root_entry, entries[1].clone(), entries[2].clone()];
    let result = service.search_files(ROOT, &entries, "*.txt".to_string(), vec![], None, None, None).unwrap();
    assert_eq!(names(&result), vec!["test1.txt"]);
}

#[test]
fn test_search_files_with_exclude() {
    let service = service();
    let entries = vec![entry("test1.txt", EntryKind::File, Some(7)), entry("test2.txt", EntryKind::File, Some(7))];
    let result = service.search_files(ROOT, &entries, "*.txt".to_string(), vec!["test2.txt".to_string()], None, None, None).unwrap();
    assert_eq!(names(&result), vec!["test1.txt"]);
}

#[test]
fn test_search_files_brace_expanded_github_issue_50() {
    let service = service();
    let entries = vec![
        entry("target", EntryKind::Directory, None),
        entry("target/dont_find.ts", EntryKind::File, Some(0)),
        entry("file1.ts", EntryKind::File, Some(21)),
        entry("file2.java", EntryKind::File, Some(21)),
        entry("file3.js", EntryKind::File, Some(28)),
        entry("sub1", EntryKind::Directory, None),
        entry("sub1/file4.ts", EntryKind::File, Some(22)),
        entry("sub1/file5.java", EntryKind::File, Some(12)),
        entry("sub1/file6.js", EntryKind::File, Some(22)),
        entry("sub2", EntryKind::Directory, None),
        entry("sub2/nested", EntryKind::Directory, None),
        entry("sub2/nested/file7.ts", EntryKind::File, Some(18)),
        entry("sub2/nested/file8.rs", EntryKind::File, Some(12)),
    ];
    let result = service
        .search_files(
            ROOT,
            &entries,
            "**/*.{java,ts}".to_string(),
            vec!["/node_modules/".to_string(), "/.git/".to_string(), "/target/**".to_string()],
            None,
            None,
            None,
        )
        .unwrap();
    assert_eq!(names(&result), vec!["file1.ts", "file2.java", "file4.ts", "file5.java", "file7.ts"]);
}

#[test]
fn search_files_matches_names_without_regard_to_case_and_in_part() {
    let service = service();
    let entries = vec![
        entry("README.md", EntryKind::File, Some(1)),
        entry("docs/readme.txt", EntryKind::File, Some(1)),
        entry("src/main.rs", EntryKind::File, Some(1)),
    ];
    let result = service.search_files_iter(ROOT, &entries, "ReadMe".to_string(), vec![], None, None, None).unwrap();
    assert_eq!(names(&result), vec!["README.md", "readme.txt"]);
    let result = service.search_files_iter(ROOT, &entries, "*.MD".to_string(), vec![], None, None, None).unwrap();
    assert_eq!(names(&result), vec!["README.md"]);
}

#[test]
fn search_files_filters_by_extension_and_size() {
    let service = service();
    let entries = vec![
        entry("a.TXT", EntryKind::File, Some(5)),
        entry("b.txt", EntryKind::File, Some(50)),
        entry("c.md", EntryKind::File, Some(5)),
        entry("noext", EntryKind::File, Some(5)),
        entry("unknown.txt", EntryKind::File, None),
        entry("d.txt", EntryKind::Directory, None),
    ];
    let exts = Some(vec!["txt".to_string()]);
    let result = service.search_files(ROOT, &entries, "**/*".to_string(), vec![], exts.clone(), None, None).unwrap();
    assert_eq!(names(&result), vec!["a.TXT", "b.txt", "unknown.txt", "d.txt"]);
    let result = service.search_files(ROOT, &entries, "**/*".to_string(), vec![], exts, Some(10), None).unwrap();
    assert_eq!(names(&result), vec!["b.txt", "d.txt"]);
    let result = service.search_files(ROOT, &entries, "**/*".to_string(), vec![], None, None, Some(10)).unwrap();
    assert_eq!(names(&result), vec!["a.TXT", "c.md", "noext", "d.txt"]);
}

#[test]
fn search_files_refuses_a_root_outside_the_allow_list() {
    let service = service();
    let result = service.search_files("/etc", &Vec::new(), "*".to_string(), vec![], None, None, None);
    assert_eq!(result, Err(ServiceError::NotAllowed("/etc".to_string())));
    let empty = FileSystemService::new(vec![]);
    assert!(matches!(empty.search_files(ROOT, &Vec::new(), "*".to_string(), vec![], None, None, None), Err(ServiceError::NotAllowed(_))));
}

#[test]
fn exclude_and_name_globs_are_normalised() {
    assert_eq!(exclude_glob("node_modules"), "*node_modules*");
    assert_eq!(exclude_glob("/target/**"), "target/**");
    assert_eq!(exclude_glob("target/**"), "target/**");
    assert_eq!(exclude_glob("/.git/"), "*/.git/*");
    assert_eq!(name_glob("Test"), "**/*test*");
    assert_eq!(name_glob("*.TXT"), "*.txt");
    assert!(eq_ignore_ascii_case("TxT", "txt"));
    assert!(!eq_ignore_ascii_case("txt", "tx"));
    assert!(!eq_ignore_ascii_case("é", "É"));
    let filter = SearchFilter::new(ROOT, "x", &vec!["a".to_string()], None, None, Some(3));
    assert_eq!(filter.name_glob, "**/*x*");
    assert_eq!(filter.exclude_globs, vec!["*a*".to_string()]);
    assert_eq!(filter.max_bytes, Some(3));
}

fn sorted(mut groups: Vec<Vec<String>>) -> Vec<Vec<String>> {
    for group in groups.iter_mut() {
        group.sort();
    }
    groups.sort();
    groups
}

#[test]
fn test_find_duplicate_files_normal() {
    let service = service();
    let files = vec![file("file1.txt", "same content"), file("file2.txt", "same content"), file("file3.txt", "different")];
    let result = service.find_duplicate_files(ROOT, &files, Some("*".to_string()), None, None, None).unwrap();
    assert_eq!(result.len(), 1);
    assert_eq!(sorted(result), vec![vec!["/srv/data/dir1/file1.txt".to_string(), "/srv/data/dir1/file2.txt".to_string()]]);
}

#[test]
fn test_find_duplicate_files_no_duplicates() {
    let service = service();
    let files = vec![file("file1.txt", "content1"), file("file2.txt", "content2")];
    let result = service.find_duplicate_files(ROOT, &files, Some("*".to_string()), None, None, None).unwrap();
    assert_eq!(result, Vec::<Vec<String>>::new());
}

#[test]
fn test_find_duplicate_files_with_pattern() {
    let service = service();
    let files = vec![file("file1.txt", "same content"), file("file2.txt", "same content"), file("file3.log", "same content")];
    let result = service.find_duplicate_files(ROOT, &files, Some("*.txt".to_string()), None, None, None).unwrap();
    assert_eq!(sorted(result), vec![vec!["/srv/data/dir1/file1.txt".to_string(), "/srv/data/dir1/file2.txt".to_string()]]);
}

#[test]
fn test_find_duplicate_files_with_exclude_patterns() {
    let service = service();
    let files = vec![file("file1.txt", "same content"), file("file2.txt", "same content"), file("excluded.txt", "same content")];
    let result = service.find_duplicate_files(ROOT, &files, Some("*".to_string()), Some(vec!["*excluded*".to_string()]), None, None).unwrap();
    assert_eq!(sorted(result), vec![vec!["/srv/data/dir1/file1.txt".to_string(), "/srv/data/dir1/file2.txt".to_string()]]);
}

#[test]
fn test_find_duplicate_files_size_filters() {
    let service = service();
    let files = vec![file("file1.txt", "a"), file("file2.txt", "a"), file("file3.txt", "larger content"), file("file4.txt", "larger content")];
    let result = service.find_duplicate_files(ROOT, &files, Some("*".to_string()), None, Some(5), Some(20)).unwrap();
    assert_eq!(sorted(result), vec![vec!["/srv/data/dir1/file3.txt".to_string(), "/srv/data/dir1/file4.txt".to_string()]]);
}

#[test]
fn test_find_duplicate_files_empty_dir() {
    let service = service();
    let result = service.find_duplicate_files(ROOT, &Vec::new(), Some("*".to_string()), None, None, None).unwrap();
    assert_eq!(result, Vec::<Vec<String>>::new());
}

#[test]
fn test_find_duplicate_files_invalid_path() {
    let service = service();
    let result = service.find_duplicate_files("/srv/data/dir2", &Vec::new(), Some("*".to_string()), None, None, None);
    assert!(result.is_err(), "Expected error for invalid path");
}

#[test]
fn test_find_duplicate_files_nested_duplicates() {
    let service = service();
    let files = vec![file("file1.txt", "same content"), file("subdir/file2.txt", "same content"), file("file3.txt", "different")];
    let result = service.find_duplicate_files(ROOT, &files, None, None, None, None).unwrap();
    assert_eq!(sorted(result), vec![vec!["/srv/data/dir1/file1.txt".to_string(), "/srv/data/dir1/subdir/file2.txt".to_string()]]);
}

#[test]
fn duplicates_differ_beyond_the_first_four_kib_and_form_several_groups() {
    let service = service();
    let head = "h".repeat(5000);
    let files = vec![
        file("a1", &format!("{head}A")),
        file("b1", &format!("{head}B")),
        file("a2", &format!("{head}A")),
        file("c", "x"),
        file("b2", &format!("{head}B")),
        file("a3", &format!("{head}A")),
        file("d", "y"),
    ];
    let result = service.find_duplicate_files(ROOT, &files, None, None, None, None).unwrap();
    let paths = |names: &[&str]| -> Vec<String> { names.iter().map(|n| format!("{ROOT}/{n}")).collect() };
    assert_eq!(sorted(result), vec![paths(&["a1", "a2", "a3"]), paths(&["b1", "b2"])]);
}

#[test]
fn duplicates_pass_over_files_that_could_not_be_read_and_directories() {
    let service = service();
    let mut unread = file("b", "same");
    unread.content = None;
    let mut directory = file("c", "same");
    directory.entry.kind = Some(EntryKind::Directory);
    let files = vec![file("a", "same"), unread, directory];
    assert!(service.find_duplicate_files(ROOT, &files, None, None, None, None).unwrap().is_empty());
}

#[test]
fn test_calculate_directory_size_normal() {
    let service = service();
    let entries = vec![entry("file1.txt", EntryKind::File, Some(8)), entry("file2.txt", EntryKind::File, Some(9))];
    assert_eq!(service.calculate_directory_size(ROOT, &entries), Ok(17));
}

#[test]
fn test_calculate_directory_size_empty_dir() {
    let service = service();
    assert_eq!(service.calculate_directory_size(ROOT, &Vec::new()), Ok(0));
}

#[test]
fn test_calculate_directory_size_nested_files() {
    let service = service();
    let entries = vec![entry("file1.txt", EntryKind::File, Some(8)), dir("subdir"), entry("subdir/file2.txt", EntryKind::File, Some(9))];
    assert_eq!(service.calculate_directory_size(ROOT, &entries), Ok(17));
}

#[test]
fn test_calculate_directory_size_invalid_path() {
    let service = service();
    let result = service.calculate_directory_size("/srv/data/dir2", &Vec::new());
    assert!(result.is_err(), "Expected error for invalid path");
}

#[test]
fn directory_size_stops_at_the_greatest_number() {
    let service = service();
    let entries = vec![entry("a", EntryKind::File, Some(u64::MAX - 1)), entry("b", EntryKind::File, Some(5)), entry("c", EntryKind::File, None)];
    assert_eq!(service.calculate_directory_size(ROOT, &entries), Ok(u64::MAX));
}

#[test]
fn test_find_empty_directories_normal() {
    let service = service();
    let entries = vec![dir("empty1"), dir("empty2"), dir("non_empty"), entry("non_empty/file.txt", EntryKind::File, Some(7))];
    let result = service.find_empty_directories(ROOT, &entries, None).unwrap();
    assert_eq!(result, vec!["/srv/data/dir1/empty1", "/srv/data/dir1/empty2"]);
}

#[test]
fn test_find_empty_directories_no_empty_dirs() {
    let service = service();
    let entries = vec![dir("dir_a"), entry("dir_a/file.txt", EntryKind::File, Some(7)), dir("dir_b"), entry("dir_b/file.txt", EntryKind::File, Some(7))];
    assert_eq!(service.find_empty_directories(ROOT, &entries, None).unwrap(), Vec::<String>::new());
}

#[test]
fn test_find_empty_directories_empty_root() {
    let service = service();
    assert_eq!(service.find_empty_directories(ROOT, &Vec::new(), None).unwrap(), Vec::<String>::new());
}

#[test]
fn test_find_empty_directories_invalid_path() {
    let service = service();
    assert!(service.find_empty_directories("/srv/data/dir2", &Vec::new(), None).is_err());
}

#[test]
fn test_find_empty_directories_exclude_patterns() {
    let service = service();
    let entries = vec![dir("empty1"), dir("empty2.tmp"), dir("empty3")];
    let result = service.find_empty_directories(ROOT, &entries, Some(vec!["*.tmp".to_string()])).unwrap();
    assert_eq!(result, vec!["/srv/data/dir1/empty1", "/srv/data/dir1/empty3"]);
}

#[test]
fn empty_directories_may_hold_empty_directories_and_metadata_files() {
    let service = service();
    let entries = vec![
        dir("outer"),
        dir("outer/inner"),
        entry("outer/inner/.DS_Store", EntryKind::File, Some(1)),
        entry("outer/Thumbs.db", EntryKind::File, Some(1)),
        dir("outerwear"),
        entry("outerwear/coat.txt", EntryKind::File, Some(1)),
        dir("linked"),
        entry("linked/to", EntryKind::Symlink, None),
    ];
    let result = service.find_empty_directories(ROOT, &entries, None).unwrap();
    assert_eq!(result, vec!["/srv/data/dir1/outer", "/srv/data/dir1/outer/inner", "/srv/data/dir1/linked"]);
}

fn hex(bytes: &[u8]) -> String {
    bytes.iter().map(|b| format!("{b:02x}")).collect()
}

#[test]
fn files_are_keyed_by_size_and_sha256() {
    let abc = file("abc.txt", "abc");
    let by_size = key_at_level(&abc, 0);
    assert_eq!((by_size.size, by_size.digest.len()), (3, 0));
    let whole = key_at_level(&abc, 2);
    assert_eq!(whole.size, 3);
    assert_eq!(hex(&whole.digest), "ba7816bf8f01cfea414140de5dae2223b00361a396177a9cb410ff61f20015ad");
    assert_eq!(hex(&key_at_level(&abc, 1).digest), hex(&whole.digest));
    assert_eq!(hex(&key_at_level(&file("empty", ""), 2).digest), "e3b0c44298fc1c149afbf4c8996fb92427ae41e4649b934ca495991b7852b855");

    let long = file("long", &"x".repeat(5000));
    let head = key_at_level(&long, 1);
    let first_four_kib = key_at_level(&file("head", &"x".repeat(4096)), 2);
    assert_eq!(head.digest, first_four_kib.digest);
    assert_ne!(head.digest, key_at_level(&long, 2).digest);
    assert_eq!(head.size, 5000);
}
