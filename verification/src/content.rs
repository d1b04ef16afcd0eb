//! Content search: the lines of a file that match a query, each with a
//! snippet around its first match.

use vstd::prelude::*;
use crate::error::ServiceError;
use crate::grep::{compile_matcher, grep_outcome, hits_view, pattern_compiles, regex_error_message, search_lines, LineHit, LineMatcher};
use crate::sandbox::path_allowed;
use crate::service::FileSystemService;
use crate::size::{filesize_in_range, in_size_window};
use crate::walk::{any_glob_matches, exclude_glob, exclude_glob_of, exclude_globs_of, glob_matches, matches_any, string_views, EntryKind, WalkEntry};
use crate::snippet::{extract_snippet_static, snippet_of, SNIPPET_BACKWARD_CHARS, SNIPPET_MAX_LENGTH};
use crate::text::{escape_regex, escaped_regex};

verus! {

/// One matching line of a file.
#[derive(Debug, Clone, PartialEq, Eq)]
pub struct ContentMatchResult {
    /// The number of the line, from 1.
    pub line_number: u64,
    /// The byte in the line at which the first match starts.
    pub start_pos: usize,
    /// The snippet of the line around the match.
    pub line_text: String,
}

/// The matching lines of one file.
#[derive(Debug, Clone, PartialEq, Eq)]
pub struct FileSearchResult {
    /// The path of the file.
    pub file_path: String,
    /// Its matching lines, in the order in which they were found.
    pub matches: Vec<ContentMatchResult>,
}

/// The pattern handed to the engine: the query itself if it is a regular
/// expression, else the query escaped.
pub open spec fn effective_pattern(query: Seq<char>, is_regex: bool) -> Seq<char> {
    if is_regex {
        query
    } else {
        escaped_regex(query)
    }
}

/// Whether `m` is the match made from `hit`: same line number and start,
/// and the default snippet of the hit's line.
pub open spec fn match_of_hit(m: ContentMatchResult, hit: (u64, Seq<char>, usize)) -> bool {
    &&& m.line_number == hit.0
    &&& m.start_pos == hit.2
    &&& m.line_text@ == snippet_of(hit.1, hit.2 as int, SNIPPET_MAX_LENGTH as int, SNIPPET_BACKWARD_CHARS as int)
}

/// Whether `matches` are the matches made from `hits`, one for one and in
/// order.
pub open spec fn matches_of_hits(matches: Seq<ContentMatchResult>, hits: Seq<(u64, Seq<char>, usize)>) -> bool {
    &&& matches.len() == hits.len()
    &&& forall|i: int| 0 <= i < hits.len() ==> match_of_hit(#[trigger] matches[i], hits[i])
}

/// Whether `found` is what a search of one file returns for `hits`:
/// nothing for no hit, else the file's path with the matches of the hits.
pub open spec fn result_of_hits(found: Option<FileSearchResult>, file_path: Seq<char>, hits: Seq<(u64, Seq<char>, usize)>) -> bool {
    match found {
        None => hits.len() == 0,
        Some(result) => hits.len() > 0 && result.file_path@ == file_path && matches_of_hits(result.matches@, hits),
    }
}

/// What a search of one file returns.
pub open spec fn search_outcome(
    found: Result<Option<FileSearchResult>, ServiceError>,
    query: Seq<char>,
    is_regex: bool,
    file_path: Seq<char>,
    content: Seq<u8>,
) -> bool {
    let pattern = effective_pattern(query, is_regex);
    if query.len() == 0 {
        found == Ok::<Option<FileSearchResult>, ServiceError>(None)
    } else if !pattern_compiles(pattern) {
        found is Err && found->Err_0 is ContentSearchError
    } else if content.len() == 0 {
        found == Ok::<Option<FileSearchResult>, ServiceError>(None)
    } else {
        match grep_outcome(pattern, content) {
            Ok(hits) => found is Ok && result_of_hits(found->Ok_0, file_path, hits),
            Err(message) => found is Err && found->Err_0 is IoError && found->Err_0->IoError_0@ == message,
        }
    }
}

/// Turns the lines that the engine reported for one file into the result
/// for that file.
pub fn matches_from_hits(file_path: &str, hits: Vec<LineHit>) -> (found: Option<FileSearchResult>)
    ensures
        result_of_hits(found, file_path@, hits_view(hits@)),
{
    if hits.len() == 0 {
        return None;
    }
    let mut matches: Vec<ContentMatchResult> = Vec::new();
    let mut i: usize = 0;
    while i < hits.len()
        invariant
            i <= hits.len(),
            matches@.len() == i,
            forall|k: int| 0 <= k < i ==> match_of_hit(#[trigger] matches@[k], hits_view(hits@)[k]),
        decreases hits.len() - i,
    {
        let hit = &hits[i];
        let line_text = extract_snippet_static(hit.line.as_str(), hit.start, SNIPPET_MAX_LENGTH, SNIPPET_BACKWARD_CHARS);
        matches.push(ContentMatchResult { line_number: hit.line_number, start_pos: hit.start, line_text });
        i += 1;
    }
    Some(FileSearchResult { file_path: file_path.to_owned(), matches })
}

impl FileSystemService {
    /// Searches `content`, the bytes of the file at `file_path`, for lines
    /// that match `query`, without regard to case.
    ///
    /// The query is a regular expression if `is_regex` says so, else a
    /// literal. An empty query matches nowhere. The scan ends at the first
    /// NUL byte. A query that the engine refuses is an error, and so is a
    /// matching line that is not UTF-8.
    pub fn content_search(&self, query: &str, file_path: &str, content: &[u8], is_regex: Option<bool>) -> (found: Result<Option<FileSearchResult>, ServiceError>)
        ensures
            search_outcome(found, query@, is_regex == Some(true), file_path@, content@),
            query@.len() == 0 ==> found == Ok::<Option<FileSearchResult>, ServiceError>(None),
            content@.len() == 0 && pattern_compiles(effective_pattern(query@, is_regex == Some(true))) ==> found == Ok::<
                Option<FileSearchResult>,
                ServiceError,
            >(None),
    {
        let as_regex = match is_regex {
            Some(flag) => flag,
            None => false,
        };
        if query.unicode_len() == 0 {
            return Ok(None);
        }
        let pattern = if as_regex { query.to_owned() } else { escape_regex(query) };
        let matcher = match compile_matcher(pattern.as_str()) {
            Ok(matcher) => matcher,
            Err(error) => {
                return Err(ServiceError::ContentSearchError(regex_error_message(&error)));
            },
        };
        if content.len() == 0 {
            return Ok(None);
        }
        match search_lines(&matcher, content) {
            Ok(hits) => Ok(matches_from_hits(file_path, hits)),
            Err(message) => Err(ServiceError::IoError(message)),
        }
    }
}

/// A walked entry with the bytes of the file, where it could be read.
pub struct SourceFile {
    pub entry: WalkEntry,
    pub content: Option<Vec<u8>>,
}

/// The filters of a search through the content of many files.
pub struct ContentFilter {
    /// The glob that the path relative to the root must match.
    pub file_glob: String,
    /// The globs that exclude a path.
    pub exclude_globs: Vec<String>,
    /// The least size of a file.
    pub min_bytes: Option<u64>,
    /// The greatest size of a file.
    pub max_bytes: Option<u64>,
}

/// The globs of the optional exclude patterns.
pub open spec fn optional_exclude_globs(exclude_patterns: Option<Vec<String>>) -> Seq<Seq<char>> {
    match exclude_patterns {
        Some(patterns) => exclude_globs_of(patterns@),
        None => Seq::empty(),
    }
}

/// The plain values of a content filter: the file glob, the exclude
/// globs and the size window.
pub struct FilterValues {
    pub file_glob: Seq<char>,
    pub exclude_globs: Seq<Seq<char>>,
    pub min_bytes: Option<u64>,
    pub max_bytes: Option<u64>,
}

/// The plain values of the filter that a search with these arguments uses.
pub open spec fn filter_values_of(file_glob: Seq<char>, exclude_patterns: Option<Vec<String>>, min_bytes: Option<u64>, max_bytes: Option<u64>) -> FilterValues {
    FilterValues { file_glob, exclude_globs: optional_exclude_globs(exclude_patterns), min_bytes, max_bytes }
}

/// Whether a content search reads `entry`: it is a regular file, its
/// relative path matches the file glob and none of the excludes, and its
/// size, where known, lies in the window.
pub open spec fn content_search_reads(filter: FilterValues, entry: WalkEntry) -> bool {
    &&& entry.is_file()
    &&& glob_matches(filter.file_glob, entry.relative_path@)
    &&& !any_glob_matches(filter.exclude_globs, entry.relative_path@)
    &&& (entry.size is Some ==> in_size_window(entry.size->0, filter.min_bytes, filter.max_bytes))
}

impl ContentFilter {
    /// The plain values of the filter.
    pub open spec fn values(&self) -> FilterValues {
        FilterValues {
            file_glob: self.file_glob@,
            exclude_globs: string_views(self.exclude_globs@),
            min_bytes: self.min_bytes,
            max_bytes: self.max_bytes,
        }
    }

    /// The filter of a search for files that match `file_glob`.
    pub fn new(file_glob: &str, exclude_patterns: &Option<Vec<String>>, min_bytes: Option<u64>, max_bytes: Option<u64>) -> (filter: ContentFilter)
        ensures
            filter.values() == filter_values_of(file_glob@, *exclude_patterns, min_bytes, max_bytes),
    {
        let mut exclude_globs: Vec<String> = Vec::new();
        match exclude_patterns {
            Some(patterns) => {
                let mut i: usize = 0;
                while i < patterns.len()
                    invariant
                        i <= patterns.len(),
                        exclude_globs@.len() == i,
                        forall|k: int| 0 <= k < i ==> (#[trigger] exclude_globs@[k])@ == exclude_glob_of(patterns@[k]@),
                    decreases patterns.len() - i,
                {
                    exclude_globs.push(exclude_glob(patterns[i].as_str()));
                    i += 1;
                }
            },
            None => {},
        }
        assert(string_views(exclude_globs@) =~= optional_exclude_globs(*exclude_patterns));
        ContentFilter { file_glob: file_glob.to_owned(), exclude_globs, min_bytes, max_bytes }
    }

    /// Whether the content of `entry` is searched.
    pub fn wants(&self, entry: &WalkEntry) -> (wanted: bool)
        ensures
            wanted == content_search_reads(self.values(), *entry),
    {
        let is_file = match entry.kind {
            Some(EntryKind::File) => true,
            _ => false,
        };
        if !is_file {
            return false;
        }
        if !glob_match::glob_match(self.file_glob.as_str(), entry.relative_path.as_str()) {
            return false;
        }
        if matches_any(&self.exclude_globs, entry.relative_path.as_str()) {
            return false;
        }
        match entry.size {
            Some(size) => filesize_in_range(size, self.min_bytes, self.max_bytes),
            None => true,
        }
    }
}

/// The hits that a search through many files counts for `file`: those
/// that the engine reports, where the file is selected, was read and the
/// scan went through; else none.
pub open spec fn file_hits(pattern: Seq<char>, filter: FilterValues, file: SourceFile) -> Seq<(u64, Seq<char>, usize)> {
    if content_search_reads(filter, file.entry) && file.content is Some && file.content->0@.len() > 0 {
        match grep_outcome(pattern, file.content->0@) {
            Ok(hits) => hits,
            Err(_) => Seq::empty(),
        }
    } else {
        Seq::empty()
    }
}

/// The indices of the files with at least one hit, in order.
pub open spec fn files_with_hits(pattern: Seq<char>, filter: FilterValues, files: Seq<SourceFile>) -> Seq<int>
    decreases files.len(),
{
    if files.len() == 0 {
        Seq::empty()
    } else if file_hits(pattern, filter, files.last()).len() > 0 {
        files_with_hits(pattern, filter, files.drop_last()).push(files.len() - 1)
    } else {
        files_with_hits(pattern, filter, files.drop_last())
    }
}

/// Whether `results` are the results of the files with hits: one for each,
/// in order, under the file's path.
pub open spec fn results_of_files(results: Seq<FileSearchResult>, pattern: Seq<char>, filter: FilterValues, files: Seq<SourceFile>) -> bool {
    let reported = files_with_hits(pattern, filter, files);
    &&& results.len() == reported.len()
    &&& forall|k: int|
        0 <= k < reported.len() ==> 0 <= #[trigger] reported[k] < files.len() && result_of_hits(
            Some(results[k]),
            files[reported[k]].entry.path@,
            file_hits(pattern, filter, files[reported[k]]),
        )
}

/// The indices of the files with hits are indices of `files`.
pub proof fn lemma_files_with_hits_in_range(pattern: Seq<char>, filter: FilterValues, files: Seq<SourceFile>)
    ensures
        forall|k: int| 0 <= k < files_with_hits(pattern, filter, files).len() ==> 0 <= #[trigger] files_with_hits(pattern, filter, files)[k] < files.len(),
    decreases files.len(),
{
    if files.len() > 0 {
        let shorter = files.drop_last();
        lemma_files_with_hits_in_range(pattern, filter, shorter);
        assert forall|k: int| 0 <= k < files_with_hits(pattern, filter, files).len() implies 0 <= #[trigger] files_with_hits(pattern, filter, files)[k]
            < files.len() by {
            if k < files_with_hits(pattern, filter, shorter).len() {
                assert(files_with_hits(pattern, filter, files)[k] == files_with_hits(pattern, filter, shorter)[k]);
            }
        }
    }
}

/// Searches one walked file with a compiled matcher; a file that is not
/// selected, could not be read or fails the scan gives nothing.
pub fn search_source_file(matcher: &LineMatcher, filter: &ContentFilter, file: &SourceFile) -> (found: Option<FileSearchResult>)
    ensures
        result_of_hits(found, file.entry.path@, file_hits(matcher.pattern(), filter.values(), *file)),
{
    if !filter.wants(&file.entry) {
        return None;
    }
    match &file.content {
        Some(content) => {
            if content.len() == 0 {
                return None;
            }
            match search_lines(matcher, content.as_slice()) {
                Ok(hits) => matches_from_hits(file.entry.path.as_str(), hits),
                Err(_) => None,
            }
        },
        None => None,
    }
}

impl FileSystemService {
    /// Searches the content of the files that a walk under `root_path`
    /// found.
    ///
    /// A file is searched when its path relative to the root matches
    /// `pattern` and none of the excludes, and its size lies in the
    /// window. Files that could not be read, or whose scan fails, are
    /// passed over. The results come in the order of `files`. An empty
    /// query matches nowhere. The search is refused when the root lies
    /// under no allowed directory, and when the engine refuses the query.
    pub fn search_files_content(
        &self,
        root_path: &str,
        files: &Vec<SourceFile>,
        pattern: &str,
        query: &str,
        is_regex: bool,
        exclude_patterns: Option<Vec<String>>,
        min_bytes: Option<u64>,
        max_bytes: Option<u64>,
    ) -> (found: Result<Vec<FileSearchResult>, ServiceError>)
        ensures
            !path_allowed(root_path@, self.roots()) ==> found is Err && found->Err_0 is NotAllowed,
            path_allowed(root_path@, self.roots()) && query@.len() == 0 ==> found is Ok && found->Ok_0@.len() == 0,
            path_allowed(root_path@, self.roots()) && query@.len() > 0 && !pattern_compiles(effective_pattern(query@, is_regex)) ==> found is Err
                && found->Err_0 is ContentSearchError,
            path_allowed(root_path@, self.roots()) && query@.len() > 0 && pattern_compiles(effective_pattern(query@, is_regex)) ==> found is Ok
                && results_of_files(
                found->Ok_0@,
                effective_pattern(query@, is_regex),
                filter_values_of(pattern@, exclude_patterns, min_bytes, max_bytes),
                files@,
            ),
    {
        if !self.is_allowed(root_path) {
            return Err(ServiceError::NotAllowed(root_path.to_owned()));
        }
        let mut results: Vec<FileSearchResult> = Vec::new();
        if query.unicode_len() == 0 {
            return Ok(results);
        }
        let search_query = if is_regex { query.to_owned() } else { escape_regex(query) };
        let matcher = match compile_matcher(search_query.as_str()) {
            Ok(matcher) => matcher,
            Err(error) => {
                return Err(ServiceError::ContentSearchError(regex_error_message(&error)));
            },
        };
        let exec_filter = ContentFilter::new(pattern, &exclude_patterns, min_bytes, max_bytes);
        let ghost filter = filter_values_of(pattern@, exclude_patterns, min_bytes, max_bytes);
        let ghost engine_pattern = effective_pattern(query@, is_regex);
        let mut i: usize = 0;
        assert(files@.take(0) =~= Seq::<SourceFile>::empty());
        while i < files.len()
            invariant
                i <= files.len(),
                matcher.pattern() == engine_pattern,
                exec_filter.values() == filter,
                results_of_files(results@, engine_pattern, filter, files@.take(i as int)),
            decreases files.len() - i,
        {
            let ghost before = files@.take(i as int);
            let ghost after = files@.take(i + 1);
            let ghost old_results = results@;
            proof {
                assert(after.drop_last() =~= before);
                lemma_files_with_hits_in_range(engine_pattern, filter, before);
            }
            match search_source_file(&matcher, &exec_filter, &files[i]) {
                Some(result) => {
                    results.push(result);
                    proof {
                        let reported = files_with_hits(engine_pattern, filter, after);
                        assert(reported == files_with_hits(engine_pattern, filter, before).push(i as int));
                        assert forall|k: int| 0 <= k < reported.len() implies 0 <= #[trigger] reported[k] < after.len() && result_of_hits(
                            Some(results@[k]),
                            after[reported[k]].entry.path@,
                            file_hits(engine_pattern, filter, after[reported[k]]),
                        ) by {
                            if k < reported.len() - 1 {
                                assert(reported[k] == files_with_hits(engine_pattern, filter, before)[k]);
                                assert(results@[k] == old_results[k]);
                                assert(after[reported[k]] == before[reported[k]]);
                            }
                        }
                    }
                },
                None => {
                    proof {
                        let reported = files_with_hits(engine_pattern, filter, after);
                        assert(reported == files_with_hits(engine_pattern, filter, before));
                        assert forall|k: int| 0 <= k < reported.len() implies 0 <= #[trigger] reported[k] < after.len() && result_of_hits(
                            Some(results@[k]),
                            after[reported[k]].entry.path@,
                            file_hits(engine_pattern, filter, after[reported[k]]),
                        ) by {
                            assert(after[reported[k]] == before[reported[k]]);
                        }
                    }
                },
            }
            i += 1;
        }
        assert(files@.take(files.len() as int) =~= files@);
        Ok(results)
    }
}

} // verus!
