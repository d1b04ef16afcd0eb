use mcp_filesystem::ast::{AstFileSearchResult, AstMatchResult};
use mcp_filesystem::cli::CommandArguments;
use mcp_filesystem::content::{ContentMatchResult, FileSearchResult, SourceFile};
use mcp_filesystem::error::ServiceError;
use mcp_filesystem::handler::{negotiate_protocol_version, parse_enabled_tools, FileSystemHandler, RootsStep};
use mcp_filesystem::service::{DirectoryCandidate, FileSystemService, RootCandidate};
use mcp_filesystem::tools::{FileSystemTools, OutputFormat, ReadFileLines, SearchCodeAst, SearchFiles, SearchFilesContent};
use mcp_filesystem::walk::{EntryKind, WalkEntry};

fn args(allow_write: bool, enable_roots: bool, tools: Option<&str>, dirs: &[&str]) -> CommandArguments {
    CommandArguments {
        allow_write,
        enable_roots,
        tools: tools.map(|t| t.to_string()),
        list_tools: false,
        allowed_directories: dirs.iter().map(|d| d.to_string()).collect(),
    }
}

fn handler(allow_write: bool, enable_roots: bool, tools: Option<&str>, dirs: &[&str]) -> FileSystemHandler {
    let a = args(allow_write, enable_roots, tools, dirs);
    FileSystemHandler::new(&a, FileSystemService::new(a.allowed_directories.clone()))
}

#[test]
fn validate_asks_for_directories_unless_roots_are_enabled() {
    assert_eq!(args(false, false, None, &["/srv"]).validate(), Ok(()));
    assert_eq!(args(false, true, None, &[]).validate(), Ok(()));
    assert_eq!(args(false, true, None, &["/srv"]).validate(), Ok(()));
    let refused = args(true, false, None, &[]).validate().unwrap_err();
    assert_eq!(
        refused,
        " <ALLOWED_DIRECTORIES> is required when `--enable-roots` is not provided.\n Run `mcp-filesystem --help` to view the usage instructions."
    );
}

#[test]
fn tools_that_write_need_write_access() {
    let writers = [FileSystemTools::CreateDirectory, FileSystemTools::MoveFile, FileSystemTools::WriteFile, FileSystemTools::EditFile];
    let all = FileSystemTools::tools();
    assert_eq!(all.len(), 20);
    for tool in all {
        assert_eq!(tool.require_write_access(), writers.contains(&tool), "{}", tool.tool_name());
    }
    assert_eq!(FileSystemTools::SearchCodeAst.tool_name(), "search_code_ast");
    assert_eq!(FileSystemTools::ListAllowedDirectories.tool_name(), "list_allowed_directories");
    assert_ne!(OutputFormat::Text, OutputFormat::Json);
}

#[test]
fn enabled_tools_are_read_from_the_list() {
    assert_eq!(parse_enabled_tools(&None), None);
    assert_eq!(parse_enabled_tools(&Some("".to_string())), None);
    assert_eq!(parse_enabled_tools(&Some("   ".to_string())), None);
    assert_eq!(parse_enabled_tools(&Some(" ALL ".to_string())), None);
    assert_eq!(
        parse_enabled_tools(&Some(" Read_Text_File, ,write_file,,  edit_file ".to_string())),
        Some(vec!["read_text_file".to_string(), "write_file".to_string(), "edit_file".to_string(), "list_allowed_directories".to_string()])
    );
    assert_eq!(parse_enabled_tools(&Some(",".to_string())), Some(vec!["list_allowed_directories".to_string()]));
    assert_eq!(parse_enabled_tools(&Some("all,x".to_string())), Some(vec!["all".to_string(), "x".to_string(), "list_allowed_directories".to_string()]));
}

#[test]
fn a_call_is_authorized_when_the_tool_is_enabled_and_may_write() {
    let open = handler(true, false, None, &["/srv"]);
    assert_eq!(open.authorize(FileSystemTools::WriteFile), Ok(()));
    assert_eq!(open.assert_write_access(), Ok(()));

    let readonly = handler(false, false, None, &["/srv"]);
    assert_eq!(readonly.authorize(FileSystemTools::ReadTextFile), Ok(()));
    assert_eq!(readonly.authorize(FileSystemTools::EditFile), Err(ServiceError::NoWriteAccess));
    assert_eq!(readonly.assert_write_access(), Err(ServiceError::NoWriteAccess));
    assert_eq!(
        ServiceError::NoWriteAccess.message(),
        "Service is running in read-only mode. To enable write access, please run with the --allow-write flag."
    );

    let some = handler(false, false, Some("read_text_file,write_file"), &["/srv"]);
    assert_eq!(some.authorize(FileSystemTools::ReadTextFile), Ok(()));
    assert_eq!(some.authorize(FileSystemTools::ListAllowedDirectories), Ok(()));
    assert_eq!(some.authorize(FileSystemTools::WriteFile), Err(ServiceError::NoWriteAccess));
    let refused = some.authorize(FileSystemTools::EditFile).unwrap_err();
    assert_eq!(refused, ServiceError::ToolNotEnabled("edit_file".to_string()));
    assert_eq!(
        refused.message(),
        "Tool 'edit_file' is not enabled. Please add it to the --tools parameter or use --tools all to enable all tools."
    );
    assert!(some.is_enabled("READ_TEXT_FILE"));
    assert!(!some.is_enabled("move_file"));
}

#[test]
fn listed_tools_are_the_enabled_ones_in_order() {
    assert_eq!(handler(true, false, Some("all"), &["/srv"]).listed_tools(), FileSystemTools::tools());
    let some = handler(true, false, Some("write_file,read_text_file,no_such_tool"), &["/srv"]);
    assert_eq!(some.listed_tools(), vec![FileSystemTools::ReadTextFile, FileSystemTools::ListAllowedDirectories, FileSystemTools::WriteFile]);
}

#[test]
fn startup_message_names_the_mode_and_the_directories() {
    assert_eq!(
        handler(false, false, None, &["/srv/a", "/srv/b"]).startup_message(),
        "Secure MCP Filesystem Server running in \"readonly\" mode without \"MCP Roots\" support.\nAllowed directories:\n/srv/a,\n/srv/b"
    );
    assert_eq!(
        handler(true, true, None, &[]).startup_message(),
        "Secure MCP Filesystem Server running in \"read/write\" mode with \"MCP Roots\" support.\nNo allowed directories is set - waiting for client to provide roots via MCP protocol..."
    );
    assert_eq!(
        handler(true, false, None, &[]).startup_message(),
        "Secure MCP Filesystem Server running in \"read/write\" mode without \"MCP Roots\" support.\nAllowed directories:\n"
    );
}

#[test]
fn roots_of_the_client_are_asked_for_only_where_both_sides_support_them() {
    assert_eq!(handler(true, false, None, &["/srv"]).roots_step(Some(true)), RootsStep::Skip);
    assert_eq!(handler(true, true, None, &["/srv"]).roots_step(Some(true)), RootsStep::AskClient);
    assert_eq!(handler(true, true, None, &[]).roots_step(Some(true)), RootsStep::AskClient);
    assert_eq!(
        handler(true, true, None, &["/srv"]).roots_step(Some(false)),
        RootsStep::Notify("Client does not support MCP Roots. Allowed directories passed from command-line will be used.".to_string())
    );
    assert!(matches!(handler(true, true, None, &["/srv"]).roots_step(None), RootsStep::Notify(_)));
    match handler(true, true, None, &[]).roots_step(None) {
        RootsStep::GiveUp(message) => assert!(message.starts_with("Server cannot operate: No allowed directories available.")),
        other => panic!("expected to give up, got {other:?}"),
    }
    assert_eq!(
        handler(true, false, None, &["/srv"]).roots_changed_step(Some(true)),
        RootsStep::Notify("Skipping ROOTS client updates, server launched without the --enable-roots flag.".to_string())
    );
    assert_eq!(handler(true, true, None, &["/srv"]).roots_changed_step(Some(true)), RootsStep::AskClient);
}

#[test]
fn valid_roots_replace_the_allowed_directories() {
    let mut h = handler(true, true, None, &["/srv"]);
    let messages = h.update_allowed_directories(vec!["/home/a".to_string(), "/home/b".to_string()], Some("skipped one".to_string()));
    assert_eq!(messages, vec!["skipped one", "Updated allowed directories from MCP roots: 2 valid directories"]);
    assert_eq!(h.fs_service.allowed_directories(), &vec!["/home/a".to_string(), "/home/b".to_string()]);

    let messages = h.update_allowed_directories(vec![], None);
    assert_eq!(messages, vec!["Client provided empty roots. Allowed directories passed from command-line will be used."]);
    assert_eq!(h.fs_service.allowed_directories().len(), 2);

    let mut bare = handler(true, true, None, &[]);
    let messages = bare.update_allowed_directories(vec![], None);
    assert_eq!(messages.len(), 1);
    assert!(messages[0].contains("client provided empty roots"));
    assert!(bare.fs_service.allowed_directories().is_empty());
}

#[test]
fn try_new_takes_directories_only() {
    let made = FileSystemService::try_new(&vec![
        DirectoryCandidate { path: "/srv/a".to_string(), is_directory: true },
        DirectoryCandidate { path: "/srv/b".to_string(), is_directory: true },
    ])
    .unwrap();
    assert_eq!(made.allowed_directories(), &vec!["/srv/a".to_string(), "/srv/b".to_string()]);
    assert!(FileSystemService::try_new(&vec![]).unwrap().allowed_directories().is_empty());
    let refused = FileSystemService::try_new(&vec![
        DirectoryCandidate { path: "/srv/a".to_string(), is_directory: true },
        DirectoryCandidate { path: "/does/not/exist".to_string(), is_directory: false },
        DirectoryCandidate { path: "/nor/this".to_string(), is_directory: false },
    ]);
    assert_eq!(refused.err(), Some(ServiceError::FromString("Error: /does/not/exist is not a directory".to_string())));
}

#[test]
fn test_allowed_directories() {
    let mut service = FileSystemService::new(vec!["/srv/dir1".to_string()]);
    assert_eq!(service.allowed_directories().len(), 1);
    assert_eq!(service.allowed_directories()[0], "/srv/dir1");
    service.update_allowed_paths(vec![]);
    assert!(service.allowed_directories().is_empty());
    assert!(!service.is_allowed("/srv/dir1"));
}

#[test]
fn valid_roots_are_the_directories_and_the_rest_is_named() {
    let service = FileSystemService::new(vec![]);
    let (valid, skipped) = service.valid_roots(&vec![
        RootCandidate { uri: "file:///home/a".to_string(), resolved: Some("/home/a".to_string()) },
        RootCandidate { uri: "file:///nowhere".to_string(), resolved: None },
        RootCandidate { uri: "/home/b".to_string(), resolved: Some("/home/b".to_string()) },
        RootCandidate { uri: "file:///a/file.txt".to_string(), resolved: None },
    ]);
    assert_eq!(valid, vec!["/home/a", "/home/b"]);
    assert_eq!(skipped.as_deref(), Some("Skipped roots that are not directories: file:///nowhere, file:///a/file.txt"));
    let (valid, skipped) = service.valid_roots(&vec![RootCandidate { uri: "/x".to_string(), resolved: Some("/x".to_string()) }]);
    assert_eq!((valid.len(), skipped), (1, None));
    assert_eq!(service.valid_roots(&vec![]), (vec![], None));
}

fn ast_result() -> AstFileSearchResult {
    AstFileSearchResult {
        file_path: "/srv/a.js".to_string(),
        matches: vec![
            AstMatchResult { matched_code: "function f() {\r\n  one();\n  two();\n}".to_string(), line_number: 3, column: 5, byte_range: (40, 78) },
            AstMatchResult { matched_code: "x".to_string(), line_number: 10, column: 1, byte_range: (100, 101) },
        ],
    }
}

fn ast_params(max_lines: Option<u64>) -> SearchCodeAst {
    SearchCodeAst {
        path: "/srv".to_string(),
        pattern: "*.js".to_string(),
        ast_pattern: "const $A = 1".to_string(),
        language: "js".to_string(),
        exclude_patterns: None,
        file_extensions: None,
        max_lines,
    }
}

#[test]
fn ast_results_are_written_with_their_lines_indented() {
    let text = ast_params(None).format_result(vec![ast_result()]);
    assert_eq!(
        text,
        "/srv/a.js\n  3:5 (bytes 40-78):\n    function f() {\n      one();\n      two();\n    }\n\n  10:1 (bytes 100-101):\n    x\n\n\n"
    );
    let text = ast_params(Some(2)).format_result(vec![ast_result()]);
    assert_eq!(
        text,
        "/srv/a.js\n  3:5 (bytes 40-78):\n    function f() {\n      one();\n    ... (2 more lines omitted)\n\n  10:1 (bytes 100-101):\n    x\n\n\n"
    );
    let text = ast_params(Some(0)).format_result(vec![ast_result()]);
    assert_eq!(text, "/srv/a.js\n  3:5 (bytes 40-78):\n    ... (4 more lines omitted)\n\n  10:1 (bytes 100-101):\n    ... (1 more lines omitted)\n\n\n");
    assert_eq!(ast_params(Some(4)).format_result(vec![ast_result()]), ast_params(None).format_result(vec![ast_result()]));
    assert_eq!(ast_params(None).format_result(vec![]), "");
}

#[test]
fn content_results_are_written_one_line_for_each_match() {
    let params = SearchFilesContent {
        path: "/srv".to_string(),
        pattern: "*".to_string(),
        query: "x".to_string(),
        is_regex: None,
        exclude_patterns: None,
        min_bytes: None,
        max_bytes: None,
    };
    let results = vec![
        FileSearchResult {
            file_path: "/srv/a.txt".to_string(),
            matches: vec![
                ContentMatchResult { line_number: 1, start_pos: 0, line_text: "x marks".to_string() },
                ContentMatchResult { line_number: 12, start_pos: 34, line_text: "...the x...".to_string() },
            ],
        },
        FileSearchResult { file_path: "/srv/b.txt".to_string(), matches: vec![] },
    ];
    assert_eq!(params.format_result(results), "/srv/a.txt\n  1:0: x marks\n  12:34: ...the x...\n\n/srv/b.txt\n\n");
}

fn walked(rel: &str, content: &str) -> SourceFile {
    let file_name = rel.rsplit('/').next().unwrap().to_string();
    SourceFile {
        entry: WalkEntry {
            path: format!("/srv/{rel}"),
            relative_path: rel.to_string(),
            extension: file_name.rfind('.').map(|at| file_name[at + 1..].to_string()),
            file_name,
            kind: Some(EntryKind::File),
            size: Some(content.len() as u64),
        },
        content: Some(content.as_bytes().to_vec()),
    }
}

#[test]
fn search_tools_answer_with_text_or_say_that_nothing_was_found() {
    let service = FileSystemService::new(vec!["/srv".to_string()]);
    let files = vec![walked("a.js", "const a = 1;\n"), walked("b.txt", "plain\n")];

    let answer = SearchCodeAst::run_tool(ast_params(None), &service, "/srv", &files).unwrap();
    assert_eq!(answer.text, "/srv/a.js\n  1:1 (bytes 0-12):\n    const a = 1;\n\n\n");
    assert_eq!(answer.note, None);
    let mut other = ast_params(None);
    other.ast_pattern = "const $A = 2".to_string();
    let answer = SearchCodeAst::run_tool(other, &service, "/srv", &files);
    assert_eq!(answer.err(), Some(ServiceError::FromString("No AST pattern matches found in the files.".to_string())));
    let mut unknown = ast_params(None);
    unknown.language = "nope".to_string();
    assert!(matches!(SearchCodeAst::run_tool(unknown, &service, "/srv", &files), Err(ServiceError::UnsupportedLanguage(_))));

    let content = |query: &str, is_regex: Option<bool>| SearchFilesContent {
        path: "/srv".to_string(),
        pattern: "*".to_string(),
        query: query.to_string(),
        is_regex,
        exclude_patterns: None,
        min_bytes: None,
        max_bytes: None,
    };
    let answer = SearchFilesContent::run_tool(content("PLAIN", None), &service, "/srv", &files).unwrap();
    assert_eq!(answer, "/srv/b.txt\n  1:0: plain\n\n");
    let answer = SearchFilesContent::run_tool(content("absent", None), &service, "/srv", &files);
    assert_eq!(answer, Err(ServiceError::FromString("No matches found in the files content.".to_string())));
    let answer = SearchFilesContent::run_tool(content("", None), &service, "/srv", &files);
    assert_eq!(answer, Err(ServiceError::FromString("No matches found in the files content.".to_string())));
    assert!(matches!(SearchFilesContent::run_tool(content("(", Some(true)), &service, "/srv", &files), Err(ServiceError::ContentSearchError(_))));
    assert!(matches!(SearchFilesContent::run_tool(content("x", None), &service, "/etc", &files), Err(ServiceError::NotAllowed(_))));

    let entries: Vec<WalkEntry> = files.iter().map(|f| f.entry.clone()).collect();
    let by_name = |pattern: &str| SearchFiles {
        path: "/srv".to_string(),
        pattern: pattern.to_string(),
        exclude_patterns: None,
        file_extensions: None,
        min_bytes: None,
        max_bytes: None,
    };
    assert_eq!(SearchFiles::run_tool(by_name("*"), &service, "/srv", &entries), Ok("/srv/a.js\n/srv/b.txt".to_string()));
    assert_eq!(SearchFiles::run_tool(by_name("*.js"), &service, "/srv", &entries), Ok("/srv/a.js".to_string()));
    assert_eq!(SearchFiles::run_tool(by_name("*.rs"), &service, "/srv", &entries), Ok("No matches found".to_string()));
    assert!(SearchFiles::run_tool(by_name("*"), &service, "/var", &entries).is_err());
}

#[test]
fn read_file_lines_tool_reads_the_window() {
    let service = FileSystemService::new(vec!["/srv".to_string()]);
    let params = ReadFileLines { path: "/srv/f".to_string(), offset: 1, limit: Some(2), from_end: false };
    assert_eq!(ReadFileLines::run_tool(params, &service, b"a\nb\nc\nd\n"), b"b\nc\n");
    let params = ReadFileLines { path: "/srv/f".to_string(), offset: 0, limit: None, from_end: true };
    assert_eq!(ReadFileLines::run_tool(params, &service, b"a\r\nb"), b"a\r\nb");
    let params = ReadFileLines { path: "/srv/f".to_string(), offset: u64::MAX, limit: Some(u64::MAX), from_end: false };
    assert_eq!(ReadFileLines::run_tool(params, &service, b"a\nb\n"), b"");
}

#[test]
fn an_older_client_is_met_at_its_protocol_version() {
    assert_eq!(negotiate_protocol_version("2025-06-18", "2024-11-05"), "2024-11-05");
    assert_eq!(negotiate_protocol_version("2025-06-18", "2025-06-18"), "2025-06-18");
    assert_eq!(negotiate_protocol_version("2025-06-18", "2025-11-25"), "2025-06-18");
    assert_eq!(negotiate_protocol_version("2025-06-18", "2025-06"), "2025-06");
    assert_eq!(negotiate_protocol_version("2025-06", "2025-06-18"), "2025-06");
    assert_eq!(negotiate_protocol_version("", "1"), "");
    assert_eq!(negotiate_protocol_version("1", ""), "");
    for (server, client) in [("b", "a"), ("a", "b"), ("é", "z"), ("z", "é"), ("ab", "a"), ("\u{10000}", "\u{ffff}")] {
        let expected = if server > client { client } else { server };
        assert_eq!(negotiate_protocol_version(server, client), expected);
    }
}
