//! Structural search: the places in a source text that match a pattern
//! written as code of the same language.

use vstd::prelude::*;
use vstd::string::StringExecFns;
use vstd::utf8::{decode_utf8, valid_utf8};
use crate::chars::utf8_text;
use crate::content::SourceFile;
use crate::decimal::{decimal, push_decimal};
use crate::error::ServiceError;
use crate::globs::{
    blank, compile_exclude_glob, compile_include_glob, exclude_globs_in, globset_builds, globset_matches, is_blank, pattern_or, CompiledGlobs,
};
use crate::sandbox::path_allowed;
use crate::walk::{extension_in, extension_passes, EntryKind, WalkEntry};
use crate::language::{language_of_alias, parser_name, shown_name, Language};
use crate::service::FileSystemService;
use crate::walk::unicode_lowercase;

verus! {

/// A match as the parser reports it: the matched text, the line and the
/// column at which it starts, both counted from 0, and its byte range.
pub struct RawAstMatch {
    pub text: String,
    pub line: usize,
    pub column: usize,
    pub start: usize,
    pub end: usize,
}

/// One match of a pattern in a file.
#[derive(Debug, PartialEq, Eq)]
pub struct AstMatchResult {
    /// The matched code.
    pub matched_code: String,
    /// The line at which the match starts, counted from 1.
    pub line_number: usize,
    /// The column at which the match starts, counted from 1.
    pub column: usize,
    /// The byte range of the match.
    pub byte_range: (usize, usize),
}

/// The matches of a pattern in one file.
#[derive(Debug, PartialEq, Eq)]
pub struct AstFileSearchResult {
    /// The path of the file.
    pub file_path: String,
    /// The matches, in the order in which they were found.
    pub matches: Vec<AstMatchResult>,
}

/// Whether the parser of `language` reads `source` as a tree without
/// text; nothing where the parser does not know the language.
pub uninterp spec fn parses_to_nothing(source: Seq<char>, language: Seq<char>) -> Option<bool>;

/// Whether `pattern` is refused as a pattern of `language`, or holds a
/// syntax error; nothing where the parser does not know the language.
pub uninterp spec fn pattern_defect(pattern: Seq<char>, language: Seq<char>) -> Option<bool>;

/// The matches of `pattern` in `source`, both read as `language`; nothing
/// where the parser does not know the language or refuses the pattern.
pub uninterp spec fn ast_matches(pattern: Seq<char>, source: Seq<char>, language: Seq<char>) -> Option<Seq<(Seq<char>, usize, usize, usize, usize)>>;

/// The raw matches as plain values.
pub open spec fn raw_view(found: Seq<RawAstMatch>) -> Seq<(Seq<char>, usize, usize, usize, usize)> {
    Seq::new(found.len(), |i: int| (found[i].text@, found[i].line, found[i].column, found[i].start, found[i].end))
}

/// The optional raw matches as plain values.
pub open spec fn optional_raw_view(found: Option<Vec<RawAstMatch>>) -> Option<Seq<(Seq<char>, usize, usize, usize, usize)>> {
    match found {
        Some(list) => Some(raw_view(list@)),
        None => None,
    }
}

/// Parses `source` with `LanguageExt::ast_grep` of the language that
/// `SupportLang::from_str` finds for the name, and says whether the text
/// of the root is empty. The contract names the answer.
#[verifier::external_body]
pub(crate) fn root_text_is_empty(source: &str, language: &str) -> (empty: Option<bool>)
    ensures
        empty == parses_to_nothing(source@, language@),
{
    let lang: ast_grep_language::SupportLang = language.parse().ok()?;
    let tree = ast_grep_language::LanguageExt::ast_grep(&lang, source);
    Some(tree.root().text().is_empty())
}

/// Builds the pattern with `Pattern::try_new` and asks `has_error`; a
/// pattern that is refused counts as one with an error. The contract
/// names the answer.
#[verifier::external_body]
pub(crate) fn pattern_has_error(pattern: &str, language: &str) -> (defect: Option<bool>)
    ensures
        defect == pattern_defect(pattern@, language@),
{
    let lang: ast_grep_language::SupportLang = language.parse().ok()?;
    match ast_grep_core::Pattern::try_new(pattern, lang) {
        Ok(built) => Some(built.has_error()),
        Err(_) => Some(true),
    }
}

/// Parses `source` and collects what `Node::find_all` yields for the
/// pattern: the text, start position and byte range of each matched node.
/// The contract names the list.
#[verifier::external_body]
pub(crate) fn find_all_matches(pattern: &str, source: &str, language: &str) -> (found: Option<Vec<RawAstMatch>>)
    ensures
        optional_raw_view(found) == ast_matches(pattern@, source@, language@),
{
    let lang: ast_grep_language::SupportLang = language.parse().ok()?;
    let built = ast_grep_core::Pattern::try_new(pattern, lang).ok()?;
    let tree = ast_grep_language::LanguageExt::ast_grep(&lang, source);
    let root = tree.root();
    let nodes = root.find_all(&built).map(|m| {
        let (node, at) = (m.get_node().clone(), m.get_node().start_pos());
        RawAstMatch { text: node.text().to_string(), line: at.line(), column: at.column(&node), start: node.range().start, end: node.range().end }
    });
    Some(nodes.collect())
}

/// `n` counted from 1 instead of 0.
pub open spec fn from_one(n: usize) -> usize {
    if n < usize::MAX {
        (n + 1) as usize
    } else {
        n
    }
}

/// Whether `m` is the match made from the raw match `raw`.
pub open spec fn match_of_raw(m: AstMatchResult, raw: (Seq<char>, usize, usize, usize, usize)) -> bool {
    &&& m.matched_code@ == raw.0
    &&& m.line_number == from_one(raw.1)
    &&& m.column == from_one(raw.2)
    &&& m.byte_range == (raw.3, raw.4)
}

/// Whether `found` is the result of a file with the raw matches `raw`:
/// nothing for no match, else the file's path with one match for each.
pub open spec fn result_of_raw(found: Option<AstFileSearchResult>, file_path: Seq<char>, raw: Seq<(Seq<char>, usize, usize, usize, usize)>) -> bool {
    match found {
        None => raw.len() == 0,
        Some(result) => {
            &&& raw.len() > 0
            &&& result.file_path@ == file_path
            &&& result.matches@.len() == raw.len()
            &&& forall|i: int| 0 <= i < raw.len() ==> match_of_raw(#[trigger] result.matches@[i], raw[i])
        },
    }
}

/// `n` counted from 1.
fn one_based(n: usize) -> (m: usize)
    ensures
        m == from_one(n),
{
    if n < usize::MAX {
        n + 1
    } else {
        n
    }
}

/// Turns the raw matches of one file into the result for that file.
pub fn result_from_raw(file_path: &str, found: Vec<RawAstMatch>) -> (result: Option<AstFileSearchResult>)
    ensures
        result_of_raw(result, file_path@, raw_view(found@)),
{
    if found.len() == 0 {
        return None;
    }
    let mut matches: Vec<AstMatchResult> = Vec::new();
    let mut i: usize = 0;
    while i < found.len()
        invariant
            i <= found.len(),
            matches@.len() == i,
            forall|k: int| 0 <= k < i ==> match_of_raw(#[trigger] matches@[k], raw_view(found@)[k]),
        decreases found.len() - i,
    {
        let raw = &found[i];
        matches.push(
            AstMatchResult {
                matched_code: raw.text.clone(),
                line_number: one_based(raw.line),
                column: one_based(raw.column),
                byte_range: (raw.start, raw.end),
            },
        );
        i += 1;
    }
    Some(AstFileSearchResult { file_path: file_path.to_owned(), matches })
}

/// The message for a pattern that the parser reads as nothing.
pub open spec fn unparsed_message(language: Language) -> Seq<char> {
    "Invalid AST pattern syntax. The pattern could not be parsed as valid "@ + shown_name(language)
        + " code.\nPlease check the pattern syntax and ensure it follows the language grammar.\nDocumentation: https://ast-grep.github.io/guide/pattern-syntax.html"@
}

/// The message for a pattern with a syntax error.
pub open spec fn defect_message(language: Language) -> Seq<char> {
    "Invalid AST pattern syntax. The pattern contains syntax errors (ERROR nodes).\nPlease verify the pattern follows valid "@
        + shown_name(language) + " syntax.\nDocumentation: https://ast-grep.github.io/guide/pattern-syntax.html"@
}

/// What is wrong with a pattern of a language.
pub enum PatternFault {
    /// The parser does not know the language.
    UnknownToParser,
    /// The pattern is not blank, yet the parser reads it as nothing.
    Unparsed,
    /// The pattern is refused or holds a syntax error.
    Defect,
}

/// The fault of `pattern` as code of `language`, if it has one.
pub open spec fn pattern_fault(pattern: Seq<char>, language: Language) -> Option<PatternFault> {
    let name = parser_name(language);
    match parses_to_nothing(pattern, name) {
        None => Some(PatternFault::UnknownToParser),
        Some(nothing) => {
            if nothing && !is_blank(pattern) {
                Some(PatternFault::Unparsed)
            } else {
                match pattern_defect(pattern, name) {
                    None => Some(PatternFault::UnknownToParser),
                    Some(true) => Some(PatternFault::Defect),
                    Some(false) => None,
                }
            }
        },
    }
}

/// Whether `error` reports `fault` for a pattern of `language`.
pub open spec fn reports_fault(error: ServiceError, fault: PatternFault, language: Language) -> bool {
    match fault {
        PatternFault::UnknownToParser => error is UnsupportedLanguage && error->UnsupportedLanguage_0@ == parser_name(language),
        PatternFault::Unparsed => error is InvalidAstPattern && error->InvalidAstPattern_0@ == unparsed_message(language),
        PatternFault::Defect => error is InvalidAstPattern && error->InvalidAstPattern_0@ == defect_message(language),
    }
}

/// Whether `checked` is the verdict on `pattern` as code of `language`.
pub open spec fn verdict_on_pattern(checked: Result<(), ServiceError>, pattern: Seq<char>, language: Language) -> bool {
    match pattern_fault(pattern, language) {
        None => checked is Ok,
        Some(fault) => checked is Err && reports_fault(checked->Err_0, fault, language),
    }
}

/// The error for a pattern with a syntax error.
fn defect_error(language: Language) -> (error: ServiceError)
    ensures
        reports_fault(error, PatternFault::Defect, language),
{
    let mut message = String::from_str("Invalid AST pattern syntax. The pattern contains syntax errors (ERROR nodes).\nPlease verify the pattern follows valid ");
    message.append(language.display_name());
    message.append(" syntax.\nDocumentation: https://ast-grep.github.io/guide/pattern-syntax.html");
    ServiceError::InvalidAstPattern(message)
}

impl FileSystemService {
    /// Checks that `pattern` is code of `language`: the parser reads it as
    /// something, unless it is blank, and finds no syntax error in it.
    pub fn validate_pattern(&self, pattern: &str, language: Language) -> (checked: Result<(), ServiceError>)
        ensures
            verdict_on_pattern(checked, pattern@, language),
    {
        let name = language.name();
        match root_text_is_empty(pattern, name) {
            None => {
                return Err(ServiceError::UnsupportedLanguage(name.to_owned()));
            },
            Some(nothing) => {
                if nothing && !blank(pattern) {
                    let mut message = String::from_str("Invalid AST pattern syntax. The pattern could not be parsed as valid ");
                    message.append(language.display_name());
                    message.append(
                        " code.\nPlease check the pattern syntax and ensure it follows the language grammar.\nDocumentation: https://ast-grep.github.io/guide/pattern-syntax.html",
                    );
                    return Err(ServiceError::InvalidAstPattern(message));
                }
            },
        }
        match pattern_has_error(pattern, name) {
            None => Err(ServiceError::UnsupportedLanguage(name.to_owned())),
            Some(true) => Err(defect_error(language)),
            Some(false) => Ok(()),
        }
    }
}

/// Whether `found` is the outcome of a structural search of one source
/// text: the language must be known and the pattern sound; then the
/// result holds the matches, each counted from line 1 and column 1.
pub open spec fn ast_search_outcome(
    found: Result<Option<AstFileSearchResult>, ServiceError>,
    pattern: Seq<char>,
    file_path: Seq<char>,
    source: Seq<char>,
    language: Seq<char>,
) -> bool {
    match language_of_alias(unicode_lowercase(language)) {
        None => found is Err && found->Err_0 is UnsupportedLanguage && found->Err_0->UnsupportedLanguage_0@ == language,
        Some(l) => match pattern_fault(pattern, l) {
            Some(fault) => found is Err && reports_fault(found->Err_0, fault, l),
            None => match ast_matches(pattern, source, parser_name(l)) {
                None => found is Err && reports_fault(found->Err_0, PatternFault::Defect, l),
                Some(raw) => found is Ok && result_of_raw(found->Ok_0, file_path, raw),
            },
        },
    }
}

impl FileSystemService {
    /// Searches `source`, the text of the file at `file_path`, for the
    /// code that matches `pattern`. In a pattern a name in capitals after
    /// a dollar sign stands for any piece of the tree.
    pub fn ast_search(&self, pattern: &str, file_path: &str, source: &str, language: &str) -> (found: Result<Option<AstFileSearchResult>, ServiceError>)
        ensures
            ast_search_outcome(found, pattern@, file_path@, source@, language@),
    {
        let lang = match self.parse_language(language) {
            Ok(lang) => lang,
            Err(error) => {
                return Err(error);
            },
        };
        match self.validate_pattern(pattern, lang) {
            Ok(()) => {},
            Err(error) => {
                return Err(error);
            },
        }
        match find_all_matches(pattern, source, lang.name()) {
            Some(raw) => Ok(result_from_raw(file_path, raw)),
            None => Err(defect_error(lang)),
        }
    }
}

/// From this many files on, a search says how many it went through.
pub const MAX_FILES_WARNING: usize = 2000;

/// A search parses this many files at most.
pub const MAX_FILES_LIMIT: usize = 10000;

/// A file larger than this many bytes is not parsed.
pub const MAX_FILE_SIZE: u64 = 1048576;

/// The filters of a structural search as plain values: the file glob,
/// the exclude globs (none where the list is empty) and the extensions.
pub struct AstFilterValues {
    pub file_glob: Seq<Seq<char>>,
    pub exclude: Seq<Seq<char>>,
    pub extensions: Option<Vec<String>>,
}

/// The filters that a search with these arguments uses.
pub open spec fn ast_filter_of(file_pattern: Seq<char>, exclude_patterns: Option<Vec<String>>, file_extensions: Option<Vec<String>>) -> AstFilterValues {
    AstFilterValues {
        file_glob: seq![pattern_or(file_pattern, "**/*"@)],
        exclude: exclude_globs_in(exclude_patterns),
        extensions: file_extensions,
    }
}

/// Whether a structural search counts `entry`: it is a regular file, its
/// relative path matches the file glob, no exclude glob matches its
/// path, its extension passes, and it is not known to be larger than
/// 1 MiB.
pub open spec fn ast_search_counts(filter: AstFilterValues, entry: WalkEntry) -> bool {
    &&& entry.is_file()
    &&& globset_matches(filter.file_glob, false, entry.relative_path@)
    &&& !(filter.exclude.len() > 0 && globset_matches(filter.exclude, false, entry.path@))
    &&& extension_passes(filter.extensions, entry.extension)
    &&& (entry.size is Some ==> entry.size->0 <= MAX_FILE_SIZE)
}

/// How many of the first `n` files the search counts.
pub open spec fn counted_upto(files: Seq<SourceFile>, filter: AstFilterValues, n: nat) -> nat
    decreases n,
{
    if n == 0 {
        0
    } else if ast_search_counts(filter, files[n - 1].entry) {
        counted_upto(files, filter, (n - 1) as nat) + 1
    } else {
        counted_upto(files, filter, (n - 1) as nat)
    }
}

/// Whether the search parses file `k`: it counts it, and has counted
/// fewer than the limit before.
pub open spec fn is_parsed(files: Seq<SourceFile>, filter: AstFilterValues, k: int) -> bool {
    0 <= k < files.len() && ast_search_counts(filter, files[k].entry) && counted_upto(files, filter, k as nat) < MAX_FILES_LIMIT
}

/// The raw matches in a file that is parsed: those that the parser
/// reports where the content was read, is UTF-8 and not empty; else none.
pub open spec fn raw_in_file(pattern: Seq<char>, language: Seq<char>, file: SourceFile) -> Seq<(Seq<char>, usize, usize, usize, usize)> {
    if file.content is Some && valid_utf8(file.content->0@) && decode_utf8(file.content->0@).len() > 0 {
        match ast_matches(pattern, decode_utf8(file.content->0@), language) {
            Some(raw) => raw,
            None => Seq::empty(),
        }
    } else {
        Seq::empty()
    }
}

/// The raw matches that the search finds in file `k`.
pub open spec fn raw_at(pattern: Seq<char>, language: Seq<char>, files: Seq<SourceFile>, filter: AstFilterValues, k: int) -> Seq<(Seq<char>, usize, usize, usize, usize)> {
    if is_parsed(files, filter, k) {
        raw_in_file(pattern, language, files[k])
    } else {
        Seq::empty()
    }
}

/// The indices below `n` of the files with a match, in order.
pub open spec fn matched_upto(pattern: Seq<char>, language: Seq<char>, files: Seq<SourceFile>, filter: AstFilterValues, n: nat) -> Seq<int>
    decreases n,
{
    if n == 0 {
        Seq::empty()
    } else if raw_at(pattern, language, files, filter, n - 1).len() > 0 {
        matched_upto(pattern, language, files, filter, (n - 1) as nat).push(n - 1)
    } else {
        matched_upto(pattern, language, files, filter, (n - 1) as nat)
    }
}

/// Whether `results` are the results of the files below `n` with a
/// match: one for each, in order, under the file's path.
pub open spec fn results_upto(
    results: Seq<AstFileSearchResult>,
    pattern: Seq<char>,
    language: Seq<char>,
    files: Seq<SourceFile>,
    filter: AstFilterValues,
    n: nat,
) -> bool {
    let matched = matched_upto(pattern, language, files, filter, n);
    &&& results.len() == matched.len()
    &&& forall|j: int|
        0 <= j < matched.len() ==> 0 <= #[trigger] matched[j] < n && result_of_raw(
            Some(results[j]),
            files[matched[j]].entry.path@,
            raw_at(pattern, language, files, filter, matched[j]),
        )
}

/// What a search has to say about how far it went.
#[derive(Debug, Clone, Copy, PartialEq, Eq, Structural)]
pub enum SearchNote {
    /// It went through this many files.
    Searched(usize),
    /// It reached the limit of files; results may be incomplete.
    LimitReached,
}

/// What a note says.
pub open spec fn note_text(note: SearchNote) -> Seq<char> {
    match note {
        SearchNote::Searched(count) => "Info: Searched "@ + decimal(count as nat) + " files."@,
        SearchNote::LimitReached => "Warning: AST search hit maximum file limit of 10000. Results may be incomplete.\nConsider narrowing your search with more specific patterns or exclude patterns."@,
    }
}

impl SearchNote {
    /// What the note says.
    pub fn message(&self) -> (text: String)
        ensures
            text@ == note_text(*self),
    {
        match self {
            SearchNote::Searched(count) => {
                let mut text = String::from_str("Info: Searched ");
                push_decimal(&mut text, *count as u64);
                text.append(" files.");
                text
            },
            SearchNote::LimitReached => String::from_str(
                "Warning: AST search hit maximum file limit of 10000. Results may be incomplete.\nConsider narrowing your search with more specific patterns or exclude patterns.",
            ),
        }
    }
}

/// The note for a search that counted `count` files.
pub open spec fn note_for(count: usize) -> Option<SearchNote> {
    if count >= MAX_FILES_LIMIT {
        Some(SearchNote::LimitReached)
    } else if count >= MAX_FILES_WARNING {
        Some(SearchNote::Searched(count))
    } else {
        None
    }
}

/// What a structural search through many files found.
pub struct AstSearchReport {
    /// The files with a match, in the order of the walk.
    pub results: Vec<AstFileSearchResult>,
    /// How many files the search counted; it stops counting one past the
    /// limit.
    pub files_counted: usize,
    /// What the search has to say about how far it went.
    pub note: Option<SearchNote>,
}

/// The number of files that a search reports as counted.
pub open spec fn count_reported(files: Seq<SourceFile>, filter: AstFilterValues) -> nat {
    let all = counted_upto(files, filter, files.len());
    if all > MAX_FILES_LIMIT {
        (MAX_FILES_LIMIT + 1) as nat
    } else {
        all
    }
}

/// Whether `report` is the report of the search.
pub open spec fn is_report(report: AstSearchReport, pattern: Seq<char>, language: Seq<char>, files: Seq<SourceFile>, filter: AstFilterValues) -> bool {
    &&& results_upto(report.results@, pattern, language, files, filter, files.len())
    &&& report.files_counted == count_reported(files, filter)
    &&& report.note == note_for(report.files_counted)
}

/// The compiled filters of a structural search.
pub struct AstFilter {
    pub file_glob: CompiledGlobs,
    pub exclude: Option<CompiledGlobs>,
    pub extensions: Option<Vec<String>>,
}

impl AstFilter {
    /// Whether the filter is sound: both sets match with regard to case,
    /// and a set of exclude globs is not empty.
    pub open spec fn well_formed(&self) -> bool {
        &&& !self.file_glob.folds_case()
        &&& (self.exclude is Some ==> !self.exclude->0.folds_case() && self.exclude->0.patterns().len() > 0)
    }

    /// The plain values of the filter.
    pub open spec fn values(&self) -> AstFilterValues {
        AstFilterValues {
            file_glob: self.file_glob.patterns(),
            exclude: match self.exclude {
                Some(set) => set.patterns(),
                None => Seq::empty(),
            },
            extensions: self.extensions,
        }
    }

    /// Whether the search counts `entry`.
    pub fn wants(&self, entry: &WalkEntry) -> (wanted: bool)
        requires
            self.well_formed(),
        ensures
            wanted == ast_search_counts(self.values(), *entry),
    {
        let is_file = match entry.kind {
            Some(EntryKind::File) => true,
            _ => false,
        };
        if !is_file {
            return false;
        }
        if !self.file_glob.is_match(entry.relative_path.as_str()) {
            return false;
        }
        match &self.exclude {
            Some(set) => {
                if set.is_match(entry.path.as_str()) {
                    return false;
                }
            },
            None => {},
        }
        match &self.extensions {
            Some(allowed) => {
                match &entry.extension {
                    Some(ext) => {
                        if !extension_in(allowed, ext.as_str()) {
                            return false;
                        }
                    },
                    None => {
                        return false;
                    },
                }
            },
            None => {},
        }
        match entry.size {
            Some(size) => size <= MAX_FILE_SIZE,
            None => true,
        }
    }
}

/// The count grows with the number of files.
pub proof fn lemma_counted_grows(files: Seq<SourceFile>, filter: AstFilterValues, i: nat, j: nat)
    requires
        i <= j,
    ensures
        counted_upto(files, filter, i) <= counted_upto(files, filter, j),
    decreases j,
{
    if i < j {
        lemma_counted_grows(files, filter, i, (j - 1) as nat);
    }
}

/// Once the count is past the limit, no later file has a match.
pub proof fn lemma_matched_stays(pattern: Seq<char>, language: Seq<char>, files: Seq<SourceFile>, filter: AstFilterValues, i: nat, j: nat)
    requires
        i <= j,
        counted_upto(files, filter, i) > MAX_FILES_LIMIT,
    ensures
        matched_upto(pattern, language, files, filter, j) == matched_upto(pattern, language, files, filter, i),
    decreases j,
{
    if i < j {
        lemma_matched_stays(pattern, language, files, filter, i, (j - 1) as nat);
        lemma_counted_grows(files, filter, i, (j - 1) as nat);
    }
}

/// The matches in one file that the search parses.
pub fn search_parsed_file(pattern: &str, language: Language, file: &SourceFile) -> (found: Option<AstFileSearchResult>)
    ensures
        result_of_raw(found, file.entry.path@, raw_in_file(pattern@, parser_name(language), *file)),
{
    let content = match &file.content {
        Some(content) => content,
        None => {
            return None;
        },
    };
    let source = match utf8_text(content.as_slice()) {
        Some(source) => source,
        None => {
            return None;
        },
    };
    if source.unicode_len() == 0 {
        return None;
    }
    match find_all_matches(pattern, source, language.name()) {
        Some(raw) => result_from_raw(file.entry.path.as_str(), raw),
        None => None,
    }
}

/// Runs the search over `files` with compiled filters.
pub fn search_with_filter(pattern: &str, language: Language, files: &Vec<SourceFile>, filter: &AstFilter) -> (report: AstSearchReport)
    requires
        filter.well_formed(),
    ensures
        is_report(report, pattern@, parser_name(language), files@, filter.values()),
{
    let ghost name = parser_name(language);
    let ghost fv = filter.values();
    let mut results: Vec<AstFileSearchResult> = Vec::new();
    let mut count: usize = 0;
    let mut i: usize = 0;
    while i < files.len() && count <= MAX_FILES_LIMIT
        invariant
            i <= files.len(),
            filter.well_formed(),
            fv == filter.values(),
            name == parser_name(language),
            count == counted_upto(files@, fv, i as nat),
            count <= MAX_FILES_LIMIT + 1,
            count <= i,
            results_upto(results@, pattern@, name, files@, fv, i as nat),
        decreases files.len() - i,
    {
        let ghost old_results = results@;
        let ghost before = matched_upto(pattern@, name, files@, fv, i as nat);
        let ghost after = matched_upto(pattern@, name, files@, fv, (i + 1) as nat);
        let mut pushed = false;
        if filter.wants(&files[i].entry) {
            if count < MAX_FILES_LIMIT {
                assert(is_parsed(files@, fv, i as int));
                match search_parsed_file(pattern, language, &files[i]) {
                    Some(result) => {
                        results.push(result);
                        pushed = true;
                    },
                    None => {},
                }
            }
            count += 1;
        }
        proof {
            if pushed {
                assert(after == before.push(i as int));
            } else {
                assert(after == before);
            }
            assert forall|j: int| 0 <= j < after.len() implies 0 <= #[trigger] after[j] < i + 1 && result_of_raw(
                Some(results@[j]),
                files@[after[j]].entry.path@,
                raw_at(pattern@, name, files@, fv, after[j]),
            ) by {
                if j < before.len() {
                    assert(after[j] == before[j]);
                    assert(results@[j] == old_results[j]);
                }
            }
        }
        i += 1;
    }
    proof {
        if i < files.len() {
            lemma_matched_stays(pattern@, name, files@, fv, i as nat, files@.len());
            lemma_counted_grows(files@, fv, i as nat, files@.len());
            let all = matched_upto(pattern@, name, files@, fv, files@.len());
            assert forall|j: int| 0 <= j < all.len() implies 0 <= #[trigger] all[j] < files@.len() by {}
        }
    }
    let note = if count >= MAX_FILES_LIMIT {
        Some(SearchNote::LimitReached)
    } else if count >= MAX_FILES_WARNING {
        Some(SearchNote::Searched(count))
    } else {
        None
    };
    AstSearchReport { results, files_counted: count, note }
}

/// Whether `found` is the outcome of a structural search through many
/// files. The language must be known, the pattern sound, the root
/// allowed and the globs accepted, in this order; then the search runs.
pub open spec fn files_ast_outcome(
    found: Result<AstSearchReport, ServiceError>,
    root_allowed: bool,
    files: Seq<SourceFile>,
    file_pattern: Seq<char>,
    ast_pattern: Seq<char>,
    language: Seq<char>,
    exclude_patterns: Option<Vec<String>>,
    file_extensions: Option<Vec<String>>,
) -> bool {
    let filter = ast_filter_of(file_pattern, exclude_patterns, file_extensions);
    match language_of_alias(unicode_lowercase(language)) {
        None => found is Err && found->Err_0 is UnsupportedLanguage && found->Err_0->UnsupportedLanguage_0@ == language,
        Some(l) => match pattern_fault(ast_pattern, l) {
            Some(fault) => found is Err && reports_fault(found->Err_0, fault, l),
            None => {
                if !root_allowed {
                    found is Err && found->Err_0 is NotAllowed
                } else if !globset_builds(filter.file_glob, false) {
                    found is Err && found->Err_0 is InvalidPattern
                } else if filter.exclude.len() > 0 && !globset_builds(filter.exclude, false) {
                    found is Err && found->Err_0 is InvalidPattern
                } else {
                    found is Ok && is_report(found->Ok_0, ast_pattern, parser_name(l), files, filter)
                }
            },
        },
    }
}

impl FileSystemService {
    /// Searches the files that a walk under `root_path` found for the code
    /// that matches `ast_pattern`.
    ///
    /// A file is counted when it matches `file_pattern` by its path
    /// relative to the root, no exclude matches its path, its extension is
    /// among those given and it is not larger than 1 MiB. The first 10000
    /// counted files are parsed; files that could not be read or are not
    /// UTF-8 give nothing. The results come in the order of `files`.
    pub fn search_files_ast(
        &self,
        root_path: &str,
        files: &Vec<SourceFile>,
        file_pattern: &str,
        ast_pattern: &str,
        language: &str,
        exclude_patterns: Option<Vec<String>>,
        file_extensions: Option<Vec<String>>,
    ) -> (found: Result<AstSearchReport, ServiceError>)
        ensures
            files_ast_outcome(
                found,
                path_allowed(root_path@, self.roots()),
                files@,
                file_pattern@,
                ast_pattern@,
                language@,
                exclude_patterns,
                file_extensions,
            ),
    {
        let lang = match self.parse_language(language) {
            Ok(lang) => lang,
            Err(error) => {
                return Err(error);
            },
        };
        match self.validate_pattern(ast_pattern, lang) {
            Ok(()) => {},
            Err(error) => {
                return Err(error);
            },
        }
        if !self.is_allowed(root_path) {
            return Err(ServiceError::NotAllowed(root_path.to_owned()));
        }
        let file_glob = match compile_include_glob(file_pattern) {
            Ok(file_glob) => file_glob,
            Err(error) => {
                return Err(error);
            },
        };
        let exclude = match compile_exclude_glob(&exclude_patterns, false) {
            Ok(exclude) => exclude,
            Err(error) => {
                return Err(error);
            },
        };
        let filter = AstFilter { file_glob, exclude, extensions: file_extensions };
        proof {
            let wanted = ast_filter_of(file_pattern@, exclude_patterns, file_extensions);
            assert(filter.values().file_glob == wanted.file_glob);
            assert(filter.values().exclude =~= wanted.exclude);
            assert(filter.values().extensions == wanted.extensions);
        }
        Ok(search_with_filter(ast_pattern, lang, files, &filter))
    }
}

} // verus!
