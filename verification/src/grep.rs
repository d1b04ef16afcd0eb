//! The regular-expression engine behind content search.

use vstd::prelude::*;

verus! {

/// The compiled matcher of the `grep` crate.
#[verifier::external_type_specification]
#[verifier::external_body]
pub struct ExRegexMatcher(grep::regex::RegexMatcher);

/// The error with which the `grep` crate refuses a pattern.
#[verifier::external_type_specification]
#[verifier::external_body]
pub struct ExRegexError(grep::regex::Error);

/// One line that the engine reported: its 1-based number, its text with
/// the terminator, and the byte at which the first match in it starts.
pub struct LineHit {
    pub line_number: u64,
    pub line: String,
    pub start: usize,
}

/// A pattern together with the matcher compiled from it, case-insensitive.
/// A value is only ever made by `compile_matcher`.
pub struct LineMatcher {
    pattern: String,
    engine: grep::regex::RegexMatcher,
}

impl LineMatcher {
    /// The pattern that the matcher was compiled from.
    pub closed spec fn pattern(&self) -> Seq<char> {
        self.pattern@
    }
}

/// Whether the engine accepts `pattern` as a case-insensitive regular
/// expression.
pub uninterp spec fn pattern_compiles(pattern: Seq<char>) -> bool;

/// What the engine reports for the case-insensitive `pattern` on
/// `content`: the lines that match, in the order in which it reports them,
/// or the message of the failure that ended the scan.
pub uninterp spec fn grep_outcome(pattern: Seq<char>, content: Seq<u8>) -> Result<Seq<(u64, Seq<char>, usize)>, Seq<char>>;

/// The hits as plain values.
pub open spec fn hits_view(hits: Seq<LineHit>) -> Seq<(u64, Seq<char>, usize)> {
    Seq::new(hits.len(), |i: int| (hits[i].line_number, hits[i].line@, hits[i].start))
}

/// The outcome of a scan as plain values.
pub open spec fn outcome_view(found: Result<Vec<LineHit>, String>) -> Result<Seq<(u64, Seq<char>, usize)>, Seq<char>> {
    match found {
        Ok(hits) => Ok(hits_view(hits@)),
        Err(message) => Err(message@),
    }
}

/// Compiles `pattern` with `RegexMatcherBuilder::build`, case-insensitive.
/// The contract names whether the engine accepts the pattern, and says
/// that the matcher remembers the pattern it was made from.
#[verifier::external_body]
pub(crate) fn compile_matcher(pattern: &str) -> (built: Result<LineMatcher, grep::regex::Error>)
    ensures
        built is Ok <==> pattern_compiles(pattern@),
        built is Ok ==> built->Ok_0.pattern() == pattern@,
{
    let engine = grep::regex::RegexMatcherBuilder::new().case_insensitive(true).build(pattern)?;
    Ok(LineMatcher { pattern: pattern.to_string(), engine })
}

/// The text of the engine's error, from its `to_string`.
#[verifier::external_body]
pub(crate) fn regex_error_message(error: &grep::regex::Error) -> (message: String) {
    error.to_string()
}

/// Scans `content` with `Searcher::search_reader`, which quits at the first
/// NUL byte, and collects each reported line with the start of the first
/// match that `Matcher::find` gives in it. The contract names the outcome
/// as a function of the pattern and the content.
#[verifier::external_body]
pub(crate) fn search_lines(matcher: &LineMatcher, content: &[u8]) -> (found: Result<Vec<LineHit>, String>)
    ensures
        outcome_view(found) == grep_outcome(matcher.pattern(), content@),
{
    let mut hits = Vec::new();
    let mut searcher = grep::searcher::Searcher::new();
    searcher.set_binary_detection(grep::searcher::BinaryDetection::quit(0));
    let sink = grep::searcher::sinks::UTF8(|line_number, line| {
        if let Ok(Some(m)) = grep::matcher::Matcher::find(&matcher.engine, line.as_bytes()) {
            hits.push(LineHit { line_number, line: line.to_string(), start: m.start() });
        }
        Ok(true)
    });
    searcher.search_reader(&matcher.engine, content, sink).map_err(|e| e.to_string())?;
    Ok(hits)
}

} // verus!
