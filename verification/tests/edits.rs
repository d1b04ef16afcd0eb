use mcp_filesystem::diff::{fence_diff, unified_diff};
use mcp_filesystem::edit::{apply_edits, EditOperation, EditPlan};
use mcp_filesystem::error::ServiceError;
use mcp_filesystem::service::FileSystemService;

const DIR: &str = "/tmp/work/dir1";

fn setup_service() -> FileSystemService {
    FileSystemService::new(vec![DIR.to_string()])
}

fn edit(old_text: &str, new_text: &str) -> EditOperation {
    EditOperation { old_text: old_text.to_string(), new_text: new_text.to_string() }
}

fn run(name: &str, content: &str, edits: Vec<EditOperation>, dry_run: Option<bool>, save_to: Option<&str>) -> Result<EditPlan, ServiceError> {
    setup_service().apply_file_edits(&format!("{DIR}/{name}"), content, edits, dry_run, save_to)
}

#[test]
fn test_create_unified_diff() {
    let service = FileSystemService::new(vec![]);
    let original = "line1\nline2\nline3".to_string();
    let new = "line1\nline4\nline3".to_string();
    let diff = service.create_unified_diff(&original, &new, Some("test.txt".to_string()));
    assert!(diff.contains("Index: test.txt"));
    assert!(diff.contains("--- test.txt\toriginal"));
    assert!(diff.contains("+++ test.txt\tmodified"));
    assert!(diff.contains("-line2"));
    assert!(diff.contains("+line4"));
    assert_eq!(
        diff,
        "```diff\nIndex: test.txt\n===================================================================\n--- test.txt\toriginal\n+++ test.txt\tmodified\n@@ -1,3 +1,3 @@\n line1\n-line2\n+line4\n line3\n\\ No newline at end of file\n```\n\n"
    );
}

#[test]
fn test_apply_file_edits() {
    let plan = run("test.txt", "line1\nline2\nline3", vec![edit("line2", "line4")], Some(false), None).unwrap();
    assert!(plan.diff.contains("Index:"));
    assert!(plan.diff.contains("-line2"));
    assert!(plan.diff.contains("+line4"));
    assert_eq!(plan.new_content, "line1\nline4\nline3");
    assert_eq!(plan.write_to.as_deref(), Some("/tmp/work/dir1/test.txt"));
}

#[test]
fn test_apply_file_edits_dry_run() {
    let plan = run("test.txt", "line1\nline2\nline3", vec![edit("line2", "line4")], Some(true), None).unwrap();
    assert!(plan.diff.contains("Index:"));
    assert!(plan.diff.contains("-line2"));
    assert!(plan.diff.contains("+line4"));
    assert_eq!(plan.write_to, None);
}

#[test]
fn test_apply_file_edits_no_match() {
    let result = run("test.txt", "line1\nline2\nline3", vec![edit("non_existent", "line4")], Some(false), None);
    assert_eq!(result, Err(ServiceError::NoMatch("non_existent".to_string())));
    assert_eq!(result.unwrap_err().message(), "Could not find exact match for edit:\nnon_existent");
}

const TABBED: &str = "
            // some descriptions
\t\t\tconst categories = [
\t\t\t\t{
\t\t\t\t\ttitle: 'Подготовка и исследование',
\t\t\t\t\tkeywords: ['изуч', 'исследов', 'анализ', 'подготов', 'планиров'],
\t\t\t\t\ttasks: [] as any[]
\t\t\t\t},
\t\t\t];
\t\t// some other descriptions
        ";

const REPLACEMENT: &str = "const categories = [
\t\t\t\t{
\t\t\t\t\ttitle: 'Подготовка и исследование',
\t\t\t\t\tdescription: 'Анализ требований и подготовка к разработке',
\t\t\t\t\tkeywords: ['изуч', 'исследов', 'анализ', 'подготов', 'планиров'],
\t\t\t\t\ttasks: [] as any[]
\t\t\t\t},
\t\t\t];";

#[test]
fn test_apply_file_edits_mixed_indentation() {
    let old_text = "const categories = [
\t\t\t\t{
\t\t\t\t\ttitle: 'Подготовка и исследование',
\t\t\t\t\t\tkeywords: ['изуч', 'исследов', 'анализ', 'подготов', 'планиров'],
\t\t\t\t\ttasks: [] as any[]
\t\t\t\t},
\t\t\t];";
    let result = run("test_indent.txt", TABBED, vec![edit(old_text, REPLACEMENT)], Some(false), Some("/tmp/work/dir1/out_indent.txt"));
    assert!(result.is_ok());
    let plan = result.unwrap();
    assert_eq!(plan.write_to.as_deref(), Some("/tmp/work/dir1/out_indent.txt"));
    let lines: Vec<&str> = plan.new_content.split('\n').collect();
    assert_eq!(lines[2], "\t\t\tconst categories = [");
    assert_eq!(lines[5].trim(), "description: 'Анализ требований и подготовка к разработке',");
    for line in &lines[2..10] {
        let indent: String = line.chars().take_while(|c| c.is_whitespace()).collect();
        assert!(!indent.is_empty() && indent.chars().all(|c| c == '\t'), "{line:?}");
    }
    assert_eq!(lines[10], "\t\t// some other descriptions");
}

#[test]
fn test_apply_file_edits_mixed_indentation_2() {
    let old_text = "const categories = [
\t\t\t\t{
\t\t\t\t\ttitle: 'Подготовка и исследование',
\t\t\tkeywords: ['изуч', 'исследов', 'анализ', 'подготов', 'планиров'],
\t\t\t\t\ttasks: [] as any[]
\t\t\t\t},
\t\t\t];";
    let result = run("test_indent.txt", TABBED, vec![edit(old_text, REPLACEMENT)], Some(false), Some("/tmp/work/dir1/out_indent.txt"));
    assert!(result.is_ok());
}

#[test]
fn test_exact_match() {
    let plan = run("tets_file1.txt", "hello world\n", vec![edit("hello world", "hello universe")], Some(false), None).unwrap();
    assert_eq!(plan.new_content, "hello universe\n");
    assert!(plan.diff.contains("-hello world\n+hello universe"));
}

#[test]
fn test_exact_match_edit2() {
    let plan = run("test_file1.txt", "hello world\n", vec![edit("hello world\n", "hello Rust\n")], Some(false), None).unwrap();
    assert_eq!(plan.new_content, "hello Rust\n");
}

#[test]
fn test_line_by_line_match_with_indent() {
    let content = "    let x = 42;\n    println!(\"{}\");\n";
    let edits = vec![edit("let x = 42;\nprintln!(\"{}\");\n", "let x = 43;\nprintln!(\"x = {}\", x)")];
    let plan = run("test_file2.rs", content, edits, Some(false), None).unwrap();
    assert!(plan.new_content.contains("let x = 43;"));
    assert!(plan.new_content.contains("println!(\"x = {}\", x)"));
    assert_eq!(plan.new_content, "    let x = 43;\n    println!(\"x = {}\", x)");
}

#[test]
fn test_dry_run_mode() {
    let plan = run("test_file4.sh", "echo hello\n", vec![edit("echo hello\n", "echo world\n")], Some(true), None).unwrap();
    assert_eq!(plan.write_to, None);
    assert_eq!(plan.new_content, "echo world\n");
}

#[test]
fn test_save_to_different_path() {
    let plan = run("test_file5.txt", "foo = 1\n", vec![edit("foo = 1\n", "foo = 2\n")], Some(false), Some("/tmp/work/dir1/saved_output.txt")).unwrap();
    assert_eq!(plan.write_to.as_deref(), Some("/tmp/work/dir1/saved_output.txt"));
    assert_eq!(plan.new_content, "foo = 2\n");
}

#[test]
fn test_diff_backtick_formatting() {
    let plan = run("test_file6.md", "```\nhello\n```\n", vec![edit("```\nhello\n```", "```\nworld\n```")], Some(true), None).unwrap();
    assert!(plan.diff.contains("diff"));
    assert!(plan.diff.starts_with("```"));
    assert!(plan.diff.starts_with("````diff\n"));
    assert!(plan.diff.ends_with("````\n\n"));
}

#[test]
fn test_no_edits_provided() {
    let plan = run("test_file7.toml", "enabled = true\n", vec![], Some(false), None).unwrap();
    assert_eq!(plan.new_content, "enabled = true\n");
    assert_eq!(
        plan.diff,
        "```diff\nIndex: /tmp/work/dir1/test_file7.toml\n===================================================================\n--- /tmp/work/dir1/test_file7.toml\toriginal\n+++ /tmp/work/dir1/test_file7.toml\tmodified\n```\n\n"
    );
}

#[test]
fn test_preserve_windows_line_endings() {
    let plan = run("test_file.txt", "line1\r\nline2\r\n", vec![edit("line1\nline2", "updated1\nupdated2")], Some(false), None).unwrap();
    assert_eq!(plan.new_content, "updated1\r\nupdated2\r\n");
}

#[test]
fn test_preserve_unix_line_endings() {
    let plan = run("unix_line_file.txt", "line1\nline2\n", vec![edit("line1\nline2", "updated1\nupdated2")], Some(false), None).unwrap();
    assert_eq!(plan.new_content, "updated1\nupdated2\n");
}

#[test]
fn test_panic_on_out_of_bounds_edit() {
    let sought = "line e\n".repeat(41);
    let result = run("test_input.txt", "line A\nline B\n", vec![edit(&sought, "replaced content")], Some(true), None);
    assert!(result.is_err());
}

#[test]
fn dry_run_and_real_run_plan_the_same_diff() {
    let edits = || vec![edit("b", "B"), edit("B\nc", "x\ny")];
    let dry = run("f", "a\nb\nc\n", edits(), Some(true), None).unwrap();
    let real = run("f", "a\nb\nc\n", edits(), None, None).unwrap();
    assert_eq!(dry.diff, real.diff);
    assert_eq!(dry.new_content, real.new_content);
    assert_eq!(real.new_content, "a\nx\ny\n");
    assert_eq!((dry.write_to, real.write_to), (None, Some("/tmp/work/dir1/f".to_string())));
}

#[test]
fn edits_are_refused_outside_the_allowed_directories() {
    let service = setup_service();
    let outside = service.apply_file_edits("/etc/passwd", "x", vec![], Some(true), None);
    assert_eq!(outside, Err(ServiceError::NotAllowed("/etc/passwd".to_string())));
    let saved_outside = service.apply_file_edits("/tmp/work/dir1/f", "x", vec![], Some(true), Some("/etc/passwd"));
    assert_eq!(saved_outside, Err(ServiceError::NotAllowed("/etc/passwd".to_string())));
}

#[test]
fn edits_apply_in_order_to_the_first_occurrence() {
    assert_eq!(apply_edits("a a a", &vec![edit("a", "b")]).unwrap(), "b a a");
    assert_eq!(apply_edits("a a a", &vec![edit("a", "b"), edit("a", "c")]).unwrap(), "b c a");
    assert_eq!(apply_edits("one", &vec![edit("one", "two"), edit("two", "three")]).unwrap(), "three");
    assert_eq!(apply_edits("one", &vec![edit("two", "x"), edit("one", "two")]), Err(ServiceError::NoMatch("two".to_string())));
    assert_eq!(apply_edits("abc", &vec![edit("", ">")]).unwrap(), ">abc");
    assert_eq!(apply_edits("", &vec![edit("", "x")]).unwrap(), "x");
    assert_eq!(apply_edits("abc", &vec![edit("abc", "")]).unwrap(), "");
    assert_eq!(apply_edits("abc", &vec![edit("abcd", "")]), Err(ServiceError::NoMatch("abcd".to_string())));
}

#[test]
fn edits_keep_the_line_ending_of_the_file() {
    assert_eq!(apply_edits("a\r\nb\r\n", &vec![edit("a\r\nb", "x\ny\r\nz")]).unwrap(), "x\r\ny\r\nz\r\n");
    assert_eq!(apply_edits("a\rb\r", &vec![edit("a\nb", "x")]).unwrap(), "x\r");
    assert_eq!(apply_edits("a\nb\rc\r\nd", &vec![edit("d", "e")]).unwrap(), "a\r\nb\r\nc\r\ne");
    assert_eq!(apply_edits("a\nb", &vec![edit("a\r\nb", "c\rd")]).unwrap(), "c\nd");
}

#[test]
fn line_match_ignores_white_space_at_the_ends_and_reindents() {
    let content = "fn main() {\n    if x {\n        go();\n    }\n}\n";
    let plan = apply_edits(content, &vec![edit("if x {\n  go();\n}", "if y {\n  stop();\n    now();\n}")]).unwrap();
    assert_eq!(plan, "fn main() {\n    if y {\n      stop();\n        now();\n    }\n}\n");
    let tabs = "\tstart\n\t\tinner\n";
    let plan = apply_edits(tabs, &vec![edit("  start\n inner", " first\n   second\nthird")]).unwrap();
    assert_eq!(plan, "\tfirst\n\t\tsecond\n\tthird\n");
    assert_eq!(apply_edits("  a  \n", &vec![edit("a\n\n", "b")]), Err(ServiceError::NoMatch("a\n\n".to_string())));
    assert_eq!(apply_edits("  a  \n\n", &vec![edit(" a\n\n", "b")]).unwrap(), "  b");
}

#[test]
fn diff_shows_one_hunk_with_three_lines_of_context() {
    let old: String = (1..=12).map(|i| format!("l{i}\n")).collect();
    let new = old.replace("l6\n", "six\n").replace("l7\n", "");
    let diff = unified_diff("f.txt", &old, &new);
    assert_eq!(
        diff,
        "Index: f.txt\n===================================================================\n--- f.txt\toriginal\n+++ f.txt\tmodified\n@@ -3,8 +3,7 @@\n l3\n l4\n l5\n-l6\n-l7\n+six\n l8\n l9\n l10\n"
    );
}

#[test]
fn diff_of_insertions_deletions_and_empty_texts() {
    let header = "Index: f\n===================================================================\n--- f\toriginal\n+++ f\tmodified\n";
    assert_eq!(unified_diff("f", "", ""), header);
    assert_eq!(unified_diff("f", "same\n", "same\n"), header);
    assert_eq!(unified_diff("f", "", "a\nb\n"), format!("{header}@@ -0,0 +1,2 @@\n+a\n+b\n"));
    assert_eq!(unified_diff("f", "a\nb\n", ""), format!("{header}@@ -1,2 +0,0 @@\n-a\n-b\n"));
    assert_eq!(unified_diff("f", "a\nc\n", "a\nb\nc\n"), format!("{header}@@ -1,2 +1,3 @@\n a\n+b\n c\n"));
    assert_eq!(unified_diff("f", "a\na\n", "a\n"), format!("{header}@@ -1,2 +1,1 @@\n a\n-a\n"));
    assert_eq!(unified_diff("f", "a", "a\n"), format!("{header}@@ -1,1 +1,1 @@\n-a\n\\ No newline at end of file\n+a\n"));
    assert_eq!(unified_diff("f", "a\r\nb\r\n", "a\r\nc\r\n"), format!("{header}@@ -1,2 +1,2 @@\n a\r\n-b\r\n+c\r\n"));
}

#[test]
fn fence_is_longer_than_any_run_of_backticks() {
    assert_eq!(fence_diff("x"), "```diff\nx```\n\n");
    assert_eq!(fence_diff("a `` b"), "```diff\na `` b```\n\n");
    assert_eq!(fence_diff("a ``` b ` c"), "````diff\na ``` b ` c````\n\n");
    assert_eq!(fence_diff("`````"), "``````diff\n```````````\n\n");
    assert_eq!(fence_diff(""), "```diff\n```\n\n");
}
