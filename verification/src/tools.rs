//! The tools of the service: which there are, what each is called, and
//! which of them write.

use vstd::prelude::*;
use vstd::string::StringExecFns;
use crate::ast::{files_ast_outcome, AstFileSearchResult, AstSearchReport, SearchNote};
use crate::content::{effective_pattern, filter_values_of, results_of_files, FileSearchResult, SourceFile};
use crate::error::ServiceError;
use crate::grep::pattern_compiles;
use crate::lines::{limit_nat, line_window};
use crate::render::{ast_results_text, content_results_text, format_ast_results, format_content_results};
use crate::sandbox::path_allowed;
use crate::service::FileSystemService;
use crate::tree::{models_of, tree_of, DirNode, TreeNode};
use crate::walk::{search_selection, EntryKind, WalkEntry};

verus! {

/// A tool of the service.
#[derive(Debug, Clone, Copy, PartialEq, Eq, Structural)]
pub enum FileSystemTools {
    ReadTextFile,
    CreateDirectory,
    DirectoryTree,
    EditFile,
    GetFileInfo,
    ListAllowedDirectories,
    ListDirectory,
    MoveFile,
    ReadMultipleTextFiles,
    SearchFiles,
    SearchCodeAst,
    WriteFile,
    SearchFilesContent,
    ListDirectoryWithSizes,
    ReadMediaFile,
    ReadMultipleMediaFiles,
    ReadFileLines,
    FindEmptyDirectories,
    CalculateDirectorySize,
    FindDuplicateFiles,
}

/// How the result of a tool is laid out.
#[derive(Debug, Clone, Copy, PartialEq, Eq, Structural)]
pub enum OutputFormat {
    Text,
    Json,
}

/// Whether the tool changes files or directories.
pub open spec fn writes(tool: FileSystemTools) -> bool {
    tool == FileSystemTools::CreateDirectory || tool == FileSystemTools::MoveFile || tool == FileSystemTools::WriteFile || tool
        == FileSystemTools::EditFile
}

/// The name under which a client calls the tool.
pub open spec fn name_of_tool(tool: FileSystemTools) -> Seq<char> {
    match tool {
        FileSystemTools::ReadTextFile => "read_text_file"@,
        FileSystemTools::CreateDirectory => "create_directory"@,
        FileSystemTools::DirectoryTree => "directory_tree"@,
        FileSystemTools::EditFile => "edit_file"@,
        FileSystemTools::GetFileInfo => "get_file_info"@,
        FileSystemTools::ListAllowedDirectories => "list_allowed_directories"@,
        FileSystemTools::ListDirectory => "list_directory"@,
        FileSystemTools::MoveFile => "move_file"@,
        FileSystemTools::ReadMultipleTextFiles => "read_multiple_text_files"@,
        FileSystemTools::SearchFiles => "search_files"@,
        FileSystemTools::SearchCodeAst => "search_code_ast"@,
        FileSystemTools::WriteFile => "write_file"@,
        FileSystemTools::SearchFilesContent => "search_files_content"@,
        FileSystemTools::ListDirectoryWithSizes => "list_directory_with_sizes"@,
        FileSystemTools::ReadMediaFile => "read_media_file"@,
        FileSystemTools::ReadMultipleMediaFiles => "read_multiple_media_files"@,
        FileSystemTools::ReadFileLines => "read_file_lines"@,
        FileSystemTools::FindEmptyDirectories => "find_empty_directories"@,
        FileSystemTools::CalculateDirectorySize => "calculate_directory_size"@,
        FileSystemTools::FindDuplicateFiles => "find_duplicate_files"@,
    }
}

/// All the tools, in the order in which the service lists them.
pub open spec fn all_tools() -> Seq<FileSystemTools> {
    seq![
        FileSystemTools::ReadTextFile,
        FileSystemTools::CreateDirectory,
        FileSystemTools::DirectoryTree,
        FileSystemTools::EditFile,
        FileSystemTools::GetFileInfo,
        FileSystemTools::ListAllowedDirectories,
        FileSystemTools::ListDirectory,
        FileSystemTools::MoveFile,
        FileSystemTools::ReadMultipleTextFiles,
        FileSystemTools::SearchFiles,
        FileSystemTools::SearchCodeAst,
        FileSystemTools::WriteFile,
        FileSystemTools::SearchFilesContent,
        FileSystemTools::ListDirectoryWithSizes,
        FileSystemTools::ReadMediaFile,
        FileSystemTools::ReadMultipleMediaFiles,
        FileSystemTools::ReadFileLines,
        FileSystemTools::FindEmptyDirectories,
        FileSystemTools::CalculateDirectorySize,
        FileSystemTools::FindDuplicateFiles,
    ]
}

impl FileSystemTools {
    /// Whether the tool changes files or directories, and so needs write
    /// access.
    pub fn require_write_access(&self) -> (needed: bool)
        ensures
            needed == writes(*self),
    {
        match self {
            FileSystemTools::CreateDirectory | FileSystemTools::MoveFile | FileSystemTools::WriteFile | FileSystemTools::EditFile => true,
            FileSystemTools::ReadTextFile
            | FileSystemTools::DirectoryTree
            | FileSystemTools::GetFileInfo
            | FileSystemTools::ListAllowedDirectories
            | FileSystemTools::ListDirectory
            | FileSystemTools::ReadMultipleTextFiles
            | FileSystemTools::SearchFilesContent
            | FileSystemTools::ListDirectoryWithSizes
            | FileSystemTools::ReadMediaFile
            | FileSystemTools::ReadMultipleMediaFiles
            | FileSystemTools::ReadFileLines
            | FileSystemTools::FindEmptyDirectories
            | FileSystemTools::CalculateDirectorySize
            | FileSystemTools::FindDuplicateFiles
            | FileSystemTools::SearchFiles
            | FileSystemTools::SearchCodeAst => false,
        }
    }

    /// The name under which a client calls the tool.
    pub fn tool_name(&self) -> (name: String)
        ensures
            name@ == name_of_tool(*self),
    {
        let name = match self {
            FileSystemTools::ReadTextFile => "read_text_file",
            FileSystemTools::CreateDirectory => "create_directory",
            FileSystemTools::DirectoryTree => "directory_tree",
            FileSystemTools::EditFile => "edit_file",
            FileSystemTools::GetFileInfo => "get_file_info",
            FileSystemTools::ListAllowedDirectories => "list_allowed_directories",
            FileSystemTools::ListDirectory => "list_directory",
            FileSystemTools::MoveFile => "move_file",
            FileSystemTools::ReadMultipleTextFiles => "read_multiple_text_files",
            FileSystemTools::SearchFiles => "search_files",
            FileSystemTools::SearchCodeAst => "search_code_ast",
            FileSystemTools::WriteFile => "write_file",
            FileSystemTools::SearchFilesContent => "search_files_content",
            FileSystemTools::ListDirectoryWithSizes => "list_directory_with_sizes",
            FileSystemTools::ReadMediaFile => "read_media_file",
            FileSystemTools::ReadMultipleMediaFiles => "read_multiple_media_files",
            FileSystemTools::ReadFileLines => "read_file_lines",
            FileSystemTools::FindEmptyDirectories => "find_empty_directories",
            FileSystemTools::CalculateDirectorySize => "calculate_directory_size",
            FileSystemTools::FindDuplicateFiles => "find_duplicate_files",
        };
        String::from_str(name)
    }

    /// All the tools, in the order in which the service lists them.
    pub fn tools() -> (all: Vec<FileSystemTools>)
        ensures
            all@ == all_tools(),
    {
        let mut all: Vec<FileSystemTools> = Vec::new();
        all.push(FileSystemTools::ReadTextFile);
        all.push(FileSystemTools::CreateDirectory);
        all.push(FileSystemTools::DirectoryTree);
        all.push(FileSystemTools::EditFile);
        all.push(FileSystemTools::GetFileInfo);
        all.push(FileSystemTools::ListAllowedDirectories);
        all.push(FileSystemTools::ListDirectory);
        all.push(FileSystemTools::MoveFile);
        all.push(FileSystemTools::ReadMultipleTextFiles);
        all.push(FileSystemTools::SearchFiles);
        all.push(FileSystemTools::SearchCodeAst);
        all.push(FileSystemTools::WriteFile);
        all.push(FileSystemTools::SearchFilesContent);
        all.push(FileSystemTools::ListDirectoryWithSizes);
        all.push(FileSystemTools::ReadMediaFile);
        all.push(FileSystemTools::ReadMultipleMediaFiles);
        all.push(FileSystemTools::ReadFileLines);
        all.push(FileSystemTools::FindEmptyDirectories);
        all.push(FileSystemTools::CalculateDirectorySize);
        all.push(FileSystemTools::FindDuplicateFiles);
        assert(all@ =~= all_tools());
        all
    }
}

/// The arguments of the tool that shows a directory tree.
#[derive(Debug, Clone, PartialEq, Eq)]
pub struct DirectoryTree {
    /// The root of the tree.
    pub path: String,
    /// How many levels to show; two where it is not given.
    pub max_depth: Option<u64>,
}

/// The arguments of the tool that reads lines of a file.
#[derive(Debug, Clone, PartialEq, Eq)]
pub struct ReadFileLines {
    /// The file to read.
    pub path: String,
    /// How many lines to skip.
    pub offset: u64,
    /// How many lines to read at most; all where it is not given.
    pub limit: Option<u64>,
    /// Whether to count from the end of the file.
    pub from_end: bool,
}

/// The arguments of the tool that searches code by its structure.
#[derive(Debug, Clone, PartialEq, Eq)]
pub struct SearchCodeAst {
    /// The directory to search in.
    pub path: String,
    /// The glob that a file must match.
    pub pattern: String,
    /// The pattern to search for.
    pub ast_pattern: String,
    /// The language of the pattern and the files.
    pub language: String,
    /// The globs that exclude files.
    pub exclude_patterns: Option<Vec<String>>,
    /// The extensions of the files to search.
    pub file_extensions: Option<Vec<String>>,
    /// How many lines of a match to show at most.
    pub max_lines: Option<u64>,
}

/// The arguments of the tool that searches files by name.
#[derive(Debug, Clone, PartialEq, Eq)]
pub struct SearchFiles {
    /// The directory to search in.
    pub path: String,
    /// The glob that a file name must match.
    pub pattern: String,
    /// The globs that exclude paths.
    pub exclude_patterns: Option<Vec<String>>,
    /// The extensions of the files to find.
    pub file_extensions: Option<Vec<String>>,
    /// The least size of a file.
    pub min_bytes: Option<u64>,
    /// The greatest size of a file.
    pub max_bytes: Option<u64>,
}

/// The arguments of the tool that searches the content of files.
#[derive(Debug, Clone, PartialEq, Eq)]
pub struct SearchFilesContent {
    /// The directory to search in.
    pub path: String,
    /// The glob that a file must match.
    pub pattern: String,
    /// The text or regular expression to search for.
    pub query: String,
    /// Whether the query is a regular expression.
    pub is_regex: Option<bool>,
    /// The globs that exclude files.
    pub exclude_patterns: Option<Vec<String>>,
    /// The least size of a file.
    pub min_bytes: Option<u64>,
    /// The greatest size of a file.
    pub max_bytes: Option<u64>,
}

/// `n` as a count of lines: itself, or the greatest count there is.
pub open spec fn as_count(n: u64) -> usize {
    if n <= usize::MAX {
        n as usize
    } else {
        usize::MAX
    }
}

/// `n` as a count of lines.
pub fn to_count(n: u64) -> (count: usize)
    ensures
        count == as_count(n),
{
    if n <= usize::MAX as u64 {
        n as usize
    } else {
        usize::MAX
    }
}

/// The optional limit as a count of lines.
pub open spec fn limit_count(limit: Option<u64>) -> Option<usize> {
    match limit {
        Some(n) => Some(as_count(n)),
        None => None,
    }
}

impl ReadFileLines {
    /// Reads the lines that the arguments ask for from `content`, the
    /// bytes of the file.
    pub fn run_tool(params: ReadFileLines, context: &FileSystemService, content: &[u8]) -> (window: Vec<u8>)
        ensures
            window@ == line_window(content@, as_count(params.offset) as nat, limit_nat(limit_count(params.limit)), params.from_end),
    {
        let limit = match params.limit {
            Some(n) => Some(to_count(n)),
            None => None,
        };
        context.read_file_lines(content, to_count(params.offset), limit, params.from_end)
    }
}

/// What the tool says when a structural search found nothing.
pub open spec fn no_ast_matches_message() -> Seq<char> {
    "No AST pattern matches found in the files."@
}

/// What the tool says when a content search found nothing.
pub open spec fn no_content_matches_message() -> Seq<char> {
    "No matches found in the files content."@
}

/// Whether `answer` is what the tool makes of the outcome `found` of a
/// structural search: an error stays, no result is an error of its own,
/// and results are written out.
pub open spec fn ast_tool_answer(answer: Result<AstToolAnswer, ServiceError>, found: Result<AstSearchReport, ServiceError>, max_lines: Option<u64>) -> bool {
    match found {
        Err(error) => answer == Err::<AstToolAnswer, ServiceError>(error),
        Ok(report) => {
            if report.results@.len() == 0 {
                answer is Err && answer->Err_0 is FromString && answer->Err_0->FromString_0@ == no_ast_matches_message()
            } else {
                &&& answer is Ok
                &&& answer->Ok_0.text@ == ast_results_text(report.results@, max_lines, report.results@.len() as int)
                &&& answer->Ok_0.note == report.note
            }
        },
    }
}

/// The answer of the structural search tool: the results as text, and
/// what the search has to say about how far it went.
#[derive(Debug, Clone, PartialEq, Eq)]
pub struct AstToolAnswer {
    pub text: String,
    pub note: Option<SearchNote>,
}

impl SearchCodeAst {
    /// The results of the search as text, each match with at most
    /// `max_lines` lines of code.
    pub fn format_result(&self, results: Vec<AstFileSearchResult>) -> (text: String)
        ensures
            text@ == ast_results_text(results@, self.max_lines, results@.len() as int),
    {
        format_ast_results(&results, self.max_lines)
    }

    /// Runs the search over the files that a walk under `root`, the
    /// resolved path of the arguments, found.
    pub fn run_tool(params: SearchCodeAst, context: &FileSystemService, root: &str, files: &Vec<SourceFile>) -> (answer: Result<AstToolAnswer, ServiceError>)
        ensures
            exists|found: Result<AstSearchReport, ServiceError>| #[trigger]
                ast_tool_answer(answer, found, params.max_lines) && files_ast_outcome(
                    found,
                    path_allowed(root@, context.roots()),
                    files@,
                    params.pattern@,
                    params.ast_pattern@,
                    params.language@,
                    params.exclude_patterns,
                    params.file_extensions,
                ),
    {
        let max_lines = params.max_lines;
        let found = context.search_files_ast(
            root,
            files,
            params.pattern.as_str(),
            params.ast_pattern.as_str(),
            params.language.as_str(),
            params.exclude_patterns,
            params.file_extensions,
        );
        let ghost outcome = found;
        let answer = match found {
            Ok(report) => {
                if report.results.len() == 0 {
                    Err(ServiceError::FromString(String::from_str("No AST pattern matches found in the files.")))
                } else {
                    Ok(AstToolAnswer { text: format_ast_results(&report.results, max_lines), note: report.note })
                }
            },
            Err(error) => Err(error),
        };
        assert(ast_tool_answer(answer, outcome, max_lines));
        answer
    }
}

/// Whether `answer` is what the tool makes of the results of a content
/// search: no result is an error of its own, and results are written out.
pub open spec fn content_tool_answer(answer: Result<String, ServiceError>, results: Seq<FileSearchResult>) -> bool {
    if results.len() == 0 {
        answer is Err && answer->Err_0 is FromString && answer->Err_0->FromString_0@ == no_content_matches_message()
    } else {
        answer is Ok && answer->Ok_0@ == content_results_text(results, results.len() as int)
    }
}

impl SearchFilesContent {
    /// The results of the search as text.
    pub fn format_result(&self, results: Vec<FileSearchResult>) -> (text: String)
        ensures
            text@ == content_results_text(results@, results@.len() as int),
    {
        format_content_results(&results)
    }

    /// Runs the search over the files that a walk under `root`, the
    /// resolved path of the arguments, found.
    pub fn run_tool(params: SearchFilesContent, context: &FileSystemService, root: &str, files: &Vec<SourceFile>) -> (answer: Result<String, ServiceError>)
        ensures
            !path_allowed(root@, context.roots()) ==> answer is Err && answer->Err_0 is NotAllowed,
            path_allowed(root@, context.roots()) && params.query@.len() > 0 && !pattern_compiles(effective_pattern(params.query@, params.is_regex == Some(true)))
                ==> answer is Err && answer->Err_0 is ContentSearchError,
            path_allowed(root@, context.roots()) && params.query@.len() == 0 ==> content_tool_answer(answer, Seq::empty()),
            path_allowed(root@, context.roots()) && params.query@.len() > 0 && pattern_compiles(effective_pattern(params.query@, params.is_regex == Some(true)))
                ==> exists|results: Seq<FileSearchResult>| #[trigger]
                content_tool_answer(answer, results) && results_of_files(
                    results,
                    effective_pattern(params.query@, params.is_regex == Some(true)),
                    filter_values_of(params.pattern@, params.exclude_patterns, params.min_bytes, params.max_bytes),
                    files@,
                ),
    {
        let is_regex = match params.is_regex {
            Some(flag) => flag,
            None => false,
        };
        let found = context.search_files_content(
            root,
            files,
            params.pattern.as_str(),
            params.query.as_str(),
            is_regex,
            params.exclude_patterns,
            params.min_bytes,
            params.max_bytes,
        );
        match found {
            Ok(results) => {
                let answer = if results.len() == 0 {
                    Err(ServiceError::FromString(String::from_str("No matches found in the files content.")))
                } else {
                    Ok(format_content_results(&results))
                };
                assert(content_tool_answer(answer, results@));
                assert(results@.len() == 0 ==> results@ =~= Seq::<FileSearchResult>::empty());
                answer
            },
            Err(error) => Err(error),
        }
    }
}

/// The paths of the first `n` entries, each on a line of its own.
pub open spec fn joined_paths(entries: Seq<WalkEntry>, n: int) -> Seq<char>
    decreases n,
{
    if n <= 0 {
        Seq::empty()
    } else if n == 1 {
        entries[0].path@
    } else {
        joined_paths(entries, n - 1) + seq!['\n'] + entries[n - 1].path@
    }
}

/// What the tool says of the entries that a file search kept.
pub open spec fn found_paths_text(entries: Seq<WalkEntry>) -> Seq<char> {
    if entries.len() == 0 {
        "No matches found"@
    } else {
        joined_paths(entries, entries.len() as int)
    }
}

impl SearchFiles {
    /// Runs the search over the entries that a walk under `root`, the
    /// resolved path of the arguments, found, and lists the paths kept.
    pub fn run_tool(params: SearchFiles, context: &FileSystemService, root: &str, entries: &Vec<WalkEntry>) -> (answer: Result<String, ServiceError>)
        ensures
            !path_allowed(root@, context.roots()) ==> answer is Err && answer->Err_0 is NotAllowed,
            path_allowed(root@, context.roots()) ==> answer is Ok && answer->Ok_0@ == found_paths_text(
                search_selection(
                    root@,
                    params.pattern@,
                    match params.exclude_patterns {
                        Some(patterns) => patterns@,
                        None => Seq::empty(),
                    },
                    params.file_extensions,
                    params.min_bytes,
                    params.max_bytes,
                    entries@,
                ),
            ),
    {
        let excludes = match params.exclude_patterns {
            Some(patterns) => patterns,
            None => Vec::new(),
        };
        assert(excludes@ =~= match params.exclude_patterns {
            Some(patterns) => patterns@,
            None => Seq::empty(),
        });
        let list = match context.search_files(root, entries, params.pattern, excludes, params.file_extensions, params.min_bytes, params.max_bytes) {
            Ok(list) => list,
            Err(error) => {
                return Err(error);
            },
        };
        if list.len() == 0 {
            return Ok(String::from_str("No matches found"));
        }
        let mut text = String::new();
        let mut i: usize = 0;
        while i < list.len()
            invariant
                i <= list.len(),
                text@ == joined_paths(list@, i as int),
            decreases list.len() - i,
        {
            if i > 0 {
                text.push('\n');
            }
            text.append(list[i].path.as_str());
            assert(text@ =~= joined_paths(list@, i + 1));
            i += 1;
        }
        Ok(text)
    }
}

/// The depth of a tree where the arguments name none.
pub const DEFAULT_TREE_DEPTH: usize = 2;

/// The depth that the arguments of the tree tool ask for.
pub open spec fn asked_depth(max_depth: Option<u64>) -> Option<usize> {
    match max_depth {
        Some(d) => Some(as_count(d)),
        None => Some(DEFAULT_TREE_DEPTH),
    }
}

/// What the tool says when the listing was cut at the depth.
pub open spec fn incomplete_listing_warning() -> Seq<char> {
    "Incomplete listing: subdirectories beyond the maximum depth were skipped."@
}

/// The answer of the tree tool: the tree, and a warning where it was cut.
pub struct TreeAnswer {
    pub entries: Vec<TreeNode>,
    pub warning: Option<String>,
}

impl DirectoryTree {
    /// Builds the tree of the directory at `root_path`, the resolved path
    /// of the arguments, whose entries were read into `root`. A tree
    /// without any entry is an error.
    pub fn run_tool(params: DirectoryTree, context: &FileSystemService, root_path: &str, root: &DirNode) -> (answer: Result<TreeAnswer, ServiceError>)
        ensures
            !path_allowed(root_path@, context.roots()) ==> answer is Err && answer->Err_0 is NotAllowed,
            path_allowed(root_path@, context.roots()) && root.kind != EntryKind::Directory ==> answer is Err && answer->Err_0 is FromString,
            path_allowed(root_path@, context.roots()) && root.kind == EntryKind::Directory ==> ({
                let outcome = tree_of(*root, asked_depth(params.max_depth), None, 0);
                if outcome.count == 0 {
                    answer is Err && answer->Err_0 is FromString && answer->Err_0->FromString_0@ == "Could not find any entries"@
                } else {
                    &&& answer is Ok
                    &&& models_of(answer->Ok_0.entries@, answer->Ok_0.entries@.len() as int) == outcome.nodes
                    &&& outcome.reached_max_depth ==> answer->Ok_0.warning is Some && answer->Ok_0.warning->0@ == incomplete_listing_warning()
                    &&& !outcome.reached_max_depth ==> answer->Ok_0.warning is None
                }
            }),
    {
        let mut entry_counter: usize = 0;
        let depth = match params.max_depth {
            Some(d) => Some(to_count(d)),
            None => Some(DEFAULT_TREE_DEPTH),
        };
        let (entries, reached_max_depth) = match context.directory_tree(root_path, root, depth, None, &mut entry_counter) {
            Ok(built) => built,
            Err(error) => {
                return Err(error);
            },
        };
        if entry_counter == 0 {
            return Err(ServiceError::FromString(String::from_str("Could not find any entries")));
        }
        let warning = if reached_max_depth {
            Some(String::from_str("Incomplete listing: subdirectories beyond the maximum depth were skipped."))
        } else {
            None
        };
        Ok(TreeAnswer { entries, warning })
    }
}

} // verus!
