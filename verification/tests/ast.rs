use mcp_filesystem::ast::{SearchNote, MAX_FILES_LIMIT, MAX_FILES_WARNING};
use mcp_filesystem::content::SourceFile;
use mcp_filesystem::error::ServiceError;
use mcp_filesystem::globs::{compile_exclude_glob, compile_include_glob, compile_single_glob};
use mcp_filesystem::language::{language_for, Language};
use mcp_filesystem::service::FileSystemService;
use mcp_filesystem::walk::{EntryKind, WalkEntry};

const ROOT: &str = "/srv/code";

fn service() -> FileSystemService {
    FileSystemService::new(vec![ROOT.to_string()])
}

fn source(rel: &str, content: &str) -> SourceFile {
    let file_name = rel.rsplit('/').next().unwrap().to_string();
    let extension = file_name.rfind('.').map(|at| file_name[at + 1..].to_string());
    SourceFile {
        entry: WalkEntry {
            path: format!("{ROOT}/{rel}"),
            relative_path: rel.to_string(),
            file_name,
            extension,
            kind: Some(EntryKind::File),
            size: Some(content.len() as u64),
        },
        content: Some(content.as_bytes().to_vec()),
    }
}

#[test]
fn parse_language_knows_the_aliases_without_regard_to_case() {
    let service = service();
    assert_eq!(service.parse_language("typescript"), Ok(Language::TypeScript));
    assert_eq!(service.parse_language("TS"), Ok(Language::TypeScript));
    assert_eq!(service.parse_language("tsx"), Ok(Language::Tsx));
    assert_eq!(service.parse_language("JavaScript"), Ok(Language::JavaScript));
    assert_eq!(service.parse_language("js"), Ok(Language::JavaScript));
    assert_eq!(service.parse_language("py"), Ok(Language::Python));
    assert_eq!(service.parse_language("Rust"), Ok(Language::Rust));
    assert_eq!(service.parse_language("rs"), Ok(Language::Rust));
    assert_eq!(service.parse_language("go"), Ok(Language::Go));
    assert_eq!(service.parse_language("java"), Ok(Language::Java));
    assert_eq!(service.parse_language("kt"), Ok(Language::Kotlin));
    assert_eq!(service.parse_language("C++"), Ok(Language::Cpp));
    assert_eq!(service.parse_language("cxx"), Ok(Language::Cpp));
    assert_eq!(service.parse_language("c"), Ok(Language::C));
    assert_eq!(service.parse_language("c#"), Ok(Language::CSharp));
    assert_eq!(service.parse_language("cs"), Ok(Language::CSharp));
    assert_eq!(service.parse_language("swift"), Ok(Language::Swift));
    assert_eq!(service.parse_language("rb"), Ok(Language::Ruby));
    assert_eq!(service.parse_language("php"), Ok(Language::Php));
    assert_eq!(service.parse_language("HTML"), Ok(Language::Html));
    assert_eq!(service.parse_language("css"), Ok(Language::Css));
    assert_eq!(service.parse_language("json"), Ok(Language::Json));
    assert_eq!(service.parse_language("yml"), Ok(Language::Yaml));
    assert_eq!(service.parse_language("sh"), Ok(Language::Bash));
    assert_eq!(service.parse_language("lua"), Ok(Language::Lua));
    assert_eq!(service.parse_language("ex"), Ok(Language::Elixir));
    assert_eq!(service.parse_language("scala"), Ok(Language::Scala));
    assert_eq!(service.parse_language("hs"), Ok(Language::Haskell));
    assert_eq!(service.parse_language("sol"), Ok(Language::Solidity));
    assert_eq!(service.parse_language("nix"), Ok(Language::Nix));
    assert_eq!(service.parse_language("Terraform"), Ok(Language::Hcl));
    assert_eq!(service.parse_language("hcl"), Ok(Language::Hcl));
}

#[test]
fn parse_language_refuses_an_unknown_name_as_it_was_given() {
    let service = service();
    let refused = service.parse_language("COBOL").unwrap_err();
    assert_eq!(refused, ServiceError::UnsupportedLanguage("COBOL".to_string()));
    assert_eq!(refused.message(), "Unsupported language: COBOL");
    assert!(service.parse_language("").is_err());
    assert!(service.parse_language(" ts").is_err());
    assert_eq!(language_for("TS"), None);
}

#[test]
fn every_language_is_known_to_the_parser_under_its_name() {
    let service = service();
    let all = [
        Language::TypeScript, Language::Tsx, Language::JavaScript, Language::Python, Language::Rust, Language::Go, Language::Java,
        Language::Kotlin, Language::Cpp, Language::C, Language::CSharp, Language::Swift, Language::Ruby, Language::Php, Language::Html,
        Language::Css, Language::Json, Language::Yaml, Language::Bash, Language::Lua, Language::Elixir, Language::Scala, Language::Haskell,
        Language::Solidity, Language::Nix, Language::Hcl,
    ];
    for language in all {
        assert_eq!(service.parse_language(language.name()), Ok(language));
        let verdict = service.validate_pattern("", language);
        assert!(!matches!(verdict, Err(ServiceError::UnsupportedLanguage(_))), "{}", language.display_name());
    }
}

#[test]
fn ast_search_finds_functions_with_line_column_and_bytes() {
    let service = service();
    let code = "function first() {}\n\n  function second() {}\nconst x = 1;\n";
    let found = service.ast_search("function $NAME() {}", "/srv/code/a.js", code, "javascript").unwrap().unwrap();
    assert_eq!(found.file_path, "/srv/code/a.js");
    assert_eq!(found.matches.len(), 2);
    assert_eq!(found.matches[0].matched_code, "function first() {}");
    assert_eq!(found.matches[0].line_number, 1);
    assert_eq!(found.matches[0].column, 1);
    assert_eq!(found.matches[0].byte_range, (0, 19));
    assert_eq!(found.matches[1].matched_code, "function second() {}");
    assert_eq!(found.matches[1].line_number, 3);
    assert_eq!(found.matches[1].column, 3);
    assert_eq!(found.matches[1].byte_range, (23, 43));
}

#[test]
fn ast_search_without_a_match_finds_nothing() {
    let service = service();
    assert_eq!(service.ast_search("function $NAME() {}", "/srv/code/a.js", "const x = 1;\n", "js"), Ok(None));
    assert_eq!(service.ast_search("function $NAME() {}", "/srv/code/a.js", "", "js"), Ok(None));
}

#[test]
fn ast_search_refuses_unknown_language_and_broken_pattern() {
    let service = service();
    let unknown = service.ast_search("x", "/srv/code/a", "x", "klingon");
    assert_eq!(unknown, Err(ServiceError::UnsupportedLanguage("klingon".to_string())));
    let broken = service.ast_search("fn (", "/srv/code/a.rs", "fn main() {}", "rust");
    match broken {
        Err(ServiceError::InvalidAstPattern(message)) => {
            assert!(message.starts_with("Invalid AST pattern syntax."));
            assert!(message.contains("Rust"));
            assert!(message.ends_with("Documentation: https://ast-grep.github.io/guide/pattern-syntax.html"));
        },
        other => panic!("expected an invalid pattern, got {other:?}"),
    }
}

#[test]
fn validate_pattern_accepts_sound_patterns() {
    let service = service();
    assert_eq!(service.validate_pattern("const $VAR = $VALUE", Language::JavaScript), Ok(()));
    assert_eq!(service.validate_pattern("fn $NAME() {}", Language::Rust), Ok(()));
    assert!(service.validate_pattern("fn $NAME( {", Language::Rust).is_err());
}

#[test]
fn search_files_ast_filters_and_keeps_the_order_of_the_walk() {
    let service = service();
    let files = vec![
        source("src/a.ts", "const a = 1;\n"),
        source("src/b.js", "const b = 2;\n"),
        source("src/deep/c.ts", "let c = 3;\nconst d = 4;\n"),
        source("node_modules/x.ts", "const hidden = 0;\n"),
        source("src/empty.ts", ""),
        source("src/e.ts", "let nothing;\n"),
    ];
    let report = service
        .search_files_ast(ROOT, &files, "**/*.ts", "const $VAR = $VALUE", "typescript", Some(vec!["node_modules".to_string()]), None)
        .unwrap();
    let paths: Vec<&str> = report.results.iter().map(|r| r.file_path.as_str()).collect();
    assert_eq!(paths, vec!["/srv/code/src/a.ts", "/srv/code/src/deep/c.ts"]);
    assert_eq!(report.results[1].matches[0].line_number, 2);
    assert_eq!(report.files_counted, 4);
    assert_eq!(report.note, None);

    let report = service.search_files_ast(ROOT, &files, "", "const $VAR = $VALUE", "ts", None, Some(vec!["JS".to_string()])).unwrap();
    let paths: Vec<&str> = report.results.iter().map(|r| r.file_path.as_str()).collect();
    assert_eq!(paths, vec!["/srv/code/src/b.js"]);
    assert_eq!(report.files_counted, 1);
}

#[test]
fn search_files_ast_passes_over_large_unreadable_and_binary_files() {
    let service = service();
    let mut large = source("large.js", "const a = 1;\n");
    large.entry.size = Some(1024 * 1024 + 1);
    let mut at_limit = source("at_limit.js", "const b = 1;\n");
    at_limit.entry.size = Some(1024 * 1024);
    let mut unknown_size = source("unknown.js", "const c = 1;\n");
    unknown_size.entry.size = None;
    let mut unread = source("unread.js", "const d = 1;\n");
    unread.content = None;
    let mut binary = source("binary.js", "const e = 1;\n");
    binary.content = Some(vec![0xff, 0xfe, 0x00]);
    let mut directory = source("dir.js", "const f = 1;\n");
    directory.entry.kind = Some(EntryKind::Directory);
    let files = vec![large, at_limit, unknown_size, unread, binary, directory];
    let report = service.search_files_ast(ROOT, &files, "*.js", "const $V = 1", "js", None, None).unwrap();
    let paths: Vec<&str> = report.results.iter().map(|r| r.file_path.as_str()).collect();
    assert_eq!(paths, vec!["/srv/code/at_limit.js", "/srv/code/unknown.js"]);
    assert_eq!(report.files_counted, 4);
}

#[test]
fn search_files_ast_checks_language_pattern_root_and_globs_in_this_order() {
    let service = service();
    let files = vec![source("a.js", "const a = 1;\n")];
    let run = |root: &str, glob: &str, pattern: &str, language: &str, excludes: Option<Vec<String>>| {
        service.search_files_ast(root, &files, glob, pattern, language, excludes, None).map(|r| r.results.len())
    };
    assert!(matches!(run("/etc", "[", "function (", "nope", None), Err(ServiceError::UnsupportedLanguage(_))));
    assert!(matches!(run("/etc", "[", "function (", "js", None), Err(ServiceError::InvalidAstPattern(_))));
    assert!(matches!(run("/etc", "[", "const $A = 1", "js", None), Err(ServiceError::NotAllowed(_))));
    match run(ROOT, "[", "const $A = 1", "js", None) {
        Err(ServiceError::InvalidPattern(message)) => assert!(message.starts_with("Invalid file glob pattern '[': "), "{message}"),
        other => panic!("expected an invalid glob, got {other:?}"),
    }
    match run(ROOT, "*", "const $A = 1", "js", Some(vec!["ok".to_string(), "[*".to_string()])) {
        Err(ServiceError::InvalidPattern(message)) => assert!(message.starts_with("Invalid exclude glob pattern '[*': "), "{message}"),
        other => panic!("expected an invalid glob, got {other:?}"),
    }
    assert_eq!(run(ROOT, "*", "const $A = 1", "js", Some(vec![" ".to_string()])), Ok(1));
}

#[test]
fn search_files_ast_notes_how_far_it_went() {
    let service = service();
    let make = |n: usize| -> Vec<SourceFile> { (0..n).map(|i| source(&format!("f{i}.json"), if i == n - 1 { "[1]" } else { "{}" })).collect() };
    let report = service.search_files_ast(ROOT, &make(MAX_FILES_WARNING - 1), "*", "[1]", "json", None, None).unwrap();
    assert_eq!(report.note, None);
    assert_eq!(report.results.len(), 1);
    let report = service.search_files_ast(ROOT, &make(MAX_FILES_WARNING), "*", "[1]", "json", None, None).unwrap();
    assert_eq!(report.note, Some(SearchNote::Searched(MAX_FILES_WARNING)));
    assert_eq!(SearchNote::Searched(MAX_FILES_WARNING).message(), "Info: Searched 2000 files.");
    assert!(SearchNote::LimitReached.message().starts_with("Warning: AST search hit maximum file limit of 10000."));
    let report = service.search_files_ast(ROOT, &make(MAX_FILES_LIMIT), "*", "[1]", "json", None, None).unwrap();
    assert_eq!(report.note, Some(SearchNote::LimitReached));
    assert_eq!(report.files_counted, MAX_FILES_LIMIT);
    assert_eq!(report.results.len(), 1);
    let report = service.search_files_ast(ROOT, &make(MAX_FILES_LIMIT + 5), "*", "[1]", "json", None, None).unwrap();
    assert_eq!(report.note, Some(SearchNote::LimitReached));
    assert_eq!(report.files_counted, MAX_FILES_LIMIT + 1);
    assert_eq!(report.results.len(), 0);
}

#[test]
fn globs_compile_and_match() {
    let set = compile_single_glob("*.RS", "**/*", true).unwrap();
    assert!(set.is_match("main.rs"));
    assert!(!set.is_match("main.ts"));
    let set = compile_single_glob("*.RS", "**/*", false).unwrap();
    assert!(!set.is_match("main.rs"));
    let set = compile_single_glob("  ", "*.md", false).unwrap();
    assert!(set.is_match("a.md"));
    assert!(!set.is_match("a.rs"));
    let set = compile_include_glob("").unwrap();
    assert!(set.is_match("src/deep/file.rs"));
    let set = compile_include_glob("src/**/*.rs").unwrap();
    assert!(set.is_match("src/deep/file.rs"));
    assert!(!set.is_match("lib/file.rs"));
    match compile_single_glob("a[", "*", false) {
        Err(ServiceError::InvalidPattern(message)) => assert!(message.starts_with("Invalid glob pattern 'a[': "), "{message}"),
        _ => panic!("expected an invalid glob"),
    }
}

#[test]
fn exclude_globs_are_normalised_before_they_are_compiled() {
    assert!(compile_exclude_glob(&None, false).unwrap().is_none());
    assert!(compile_exclude_glob(&Some(vec![]), false).unwrap().is_none());
    assert!(compile_exclude_glob(&Some(vec!["  ".to_string(), "".to_string()]), false).unwrap().is_none());
    let set = compile_exclude_glob(&Some(vec!["target".to_string(), "".to_string(), "/build/**".to_string()]), false).unwrap().unwrap();
    assert!(set.is_match("/srv/code/target/debug/x"));
    assert!(set.is_match("build/out.o"));
    assert!(!set.is_match("/srv/code/src/main.rs"));
    assert!(!set.is_match("/srv/code/TARGET/x"));
    let set = compile_exclude_glob(&Some(vec!["target".to_string()]), true).unwrap().unwrap();
    assert!(set.is_match("/srv/code/TARGET/x"));
}
