//! Compiled path globs: the filters of the search
//! through source files.

use vstd::prelude::*;
use vstd::string::StringExecFns;
use crate::chars::to_chars;
use crate::error::ServiceError;
use crate::snippet::{trim_end_index, trim_start_index, trimmed};
use crate::walk::{exclude_glob, exclude_glob_of, string_views};

verus! {

/// The compiled set of globs of the `globset` crate.
#[verifier::external_type_specification]
#[verifier::external_body]
pub struct ExGlobSet(globset::GlobSet);

/// Glob patterns together with the set compiled from them. A value is
/// only ever made by `compile_globset`.
pub struct CompiledGlobs {
    patterns: Vec<String>,
    case_insensitive: bool,
    set: globset::GlobSet,
}

impl CompiledGlobs {
    /// The patterns that the set was compiled from.
    pub closed spec fn patterns(&self) -> Seq<Seq<char>> {
        string_views(self.patterns@)
    }

    /// Whether the set matches without regard to case.
    pub closed spec fn folds_case(&self) -> bool {
        self.case_insensitive
    }
}

/// Why a set of globs could not be compiled: the index of the pattern
/// that was refused, or none where the set as a whole was, and the
/// compiler's message.
pub struct GlobFailure {
    pub at: Option<usize>,
    pub message: String,
}

/// Whether the `globset` crate compiles these patterns into a set.
pub uninterp spec fn globset_builds(patterns: Seq<Seq<char>>, case_insensitive: bool) -> bool;

/// Whether the set compiled from these patterns matches the path, as the
/// `globset` crate decides it on the platform that the library is built
/// for.
pub uninterp spec fn globset_matches(patterns: Seq<Seq<char>>, case_insensitive: bool, path: Seq<char>) -> bool;

/// Compiles each pattern with `GlobBuilder::build` and the set with
/// `GlobSetBuilder::build`. The contract names whether that succeeds, says
/// that the result remembers what it was made from, and that a failure
/// which points at a pattern points at one of those given.
#[verifier::external_body]
pub(crate) fn compile_globset(patterns: &Vec<String>, case_insensitive: bool) -> (built: Result<CompiledGlobs, GlobFailure>)
    ensures
        built is Ok <==> globset_builds(string_views(patterns@), case_insensitive),
        built is Ok ==> built->Ok_0.patterns() == string_views(patterns@) && built->Ok_0.folds_case() == case_insensitive,
        built is Err && built->Err_0.at is Some ==> built->Err_0.at->0 < patterns@.len(),
{
    let mut builder = globset::GlobSetBuilder::new();
    for (at, pattern) in patterns.iter().enumerate() {
        let glob = globset::GlobBuilder::new(pattern).case_insensitive(case_insensitive).build();
        builder.add(glob.map_err(|e| GlobFailure { at: Some(at), message: e.to_string() })?);
    }
    let set = builder.build().map_err(|e| GlobFailure { at: None, message: e.to_string() })?;
    Ok(CompiledGlobs { patterns: patterns.clone(), case_insensitive, set })
}

/// Asks `GlobSet::is_match` whether a glob of the set matches `path`. The
/// contract names the answer as a function of the patterns, the case flag
/// and the path.
#[verifier::external_body]
pub(crate) fn set_matches(globs: &CompiledGlobs, path: &str) -> (matched: bool)
    ensures
        matched == globset_matches(globs.patterns(), globs.folds_case(), path@),
{
    globs.set.is_match(path)
}

impl CompiledGlobs {
    /// Whether a glob of the set matches `path`.
    pub fn is_match(&self, path: &str) -> (matched: bool)
        ensures
            matched == globset_matches(self.patterns(), self.folds_case(), path@),
    {
        set_matches(self, path)
    }
}

/// Whether `s` is empty or white space only.
pub open spec fn is_blank(s: Seq<char>) -> bool {
    trimmed(s).len() == 0
}

/// Whether `text` is empty or white space only.
pub fn blank(text: &str) -> (b: bool)
    ensures
        b == is_blank(text@),
{
    let chars = to_chars(text);
    let from = trim_start_index(&chars);
    let to = trim_end_index(&chars);
    from >= to
}

/// The pattern that is compiled: `fallback` where `pattern` is blank.
pub open spec fn pattern_or(pattern: Seq<char>, fallback: Seq<char>) -> Seq<char> {
    if is_blank(pattern) {
        fallback
    } else {
        pattern
    }
}

/// The message of a glob that was refused: `intro`, the pattern in
/// quotes, and the compiler's words.
pub open spec fn refusal(intro: Seq<char>, pattern: Seq<char>, words: Seq<char>) -> Seq<char> {
    intro + seq![' ', '\''] + pattern + seq!['\'', ':', ' '] + words
}

/// Builds the message of a glob that was refused.
fn refusal_message(intro: &str, pattern: &str, words: &str) -> (message: String)
    ensures
        message@ == refusal(intro@, pattern@, words@),
{
    let mut message = String::from_str(intro);
    message.push(' ');
    message.push('\'');
    message.append(pattern);
    message.push('\'');
    message.push(':');
    message.push(' ');
    message.append(words);
    assert(message@ =~= refusal(intro@, pattern@, words@));
    message
}

/// Whether `built` is what compiling the one glob `pattern` gives: the
/// compiled glob where the compiler accepts it, else an invalid-pattern
/// error whose message starts with one of the two introductions and
/// quotes the pattern.
pub open spec fn single_glob_outcome(
    built: Result<CompiledGlobs, ServiceError>,
    pattern: Seq<char>,
    case_insensitive: bool,
    invalid_intro: Seq<char>,
    failed_intro: Seq<char>,
) -> bool {
    if globset_builds(seq![pattern], case_insensitive) {
        built is Ok && built->Ok_0.patterns() == seq![pattern] && built->Ok_0.folds_case() == case_insensitive
    } else {
        built is Err && built->Err_0 is InvalidPattern && exists|words: Seq<char>|
            built->Err_0->InvalidPattern_0@ == #[trigger] refusal(invalid_intro, pattern, words) || built->Err_0->InvalidPattern_0@ == refusal(
                failed_intro,
                pattern,
                words,
            )
    }
}

/// Compiles one glob, with the two introductions of its error messages.
fn compile_one(pattern: String, case_insensitive: bool, invalid_intro: &str, failed_intro: &str) -> (built: Result<CompiledGlobs, ServiceError>)
    ensures
        single_glob_outcome(built, pattern@, case_insensitive, invalid_intro@, failed_intro@),
{
    let mut patterns: Vec<String> = Vec::new();
    patterns.push(pattern);
    assert(string_views(patterns@) =~= seq![pattern@]);
    match compile_globset(&patterns, case_insensitive) {
        Ok(compiled) => Ok(compiled),
        Err(failure) => {
            let message = match failure.at {
                Some(_) => refusal_message(invalid_intro, patterns[0].as_str(), failure.message.as_str()),
                None => refusal_message(failed_intro, patterns[0].as_str(), failure.message.as_str()),
            };
            assert(message@ == refusal(invalid_intro@, pattern@, failure.message@) || message@ == refusal(failed_intro@, pattern@, failure.message@));
            Err(ServiceError::InvalidPattern(message))
        },
    }
}

/// Compiles the glob `pattern`, or `fallback` where `pattern` is blank.
pub fn compile_single_glob(pattern: &str, fallback: &str, case_insensitive: bool) -> (built: Result<CompiledGlobs, ServiceError>)
    ensures
        single_glob_outcome(
            built,
            pattern_or(pattern@, fallback@),
            case_insensitive,
            "Invalid glob pattern"@,
            "Failed to build glob matcher for pattern"@,
        ),
{
    let normalized = if blank(pattern) { fallback.to_owned() } else { pattern.to_owned() };
    compile_one(normalized, case_insensitive, "Invalid glob pattern", "Failed to build glob matcher for pattern")
}

/// Compiles the glob that a file's relative path must match; a blank
/// pattern stands for every file.
pub fn compile_include_glob(pattern: &str) -> (built: Result<CompiledGlobs, ServiceError>)
    ensures
        single_glob_outcome(
            built,
            pattern_or(pattern@, "**/*"@),
            false,
            "Invalid file glob pattern"@,
            "Failed to build file glob matcher for pattern"@,
        ),
{
    let normalized = if blank(pattern) { String::from_str("**/*") } else { pattern.to_owned() };
    compile_one(normalized, false, "Invalid file glob pattern", "Failed to build file glob matcher for pattern")
}

/// The globs of the exclude patterns that are not blank, in order.
pub open spec fn kept_exclude_globs(patterns: Seq<String>) -> Seq<Seq<char>>
    decreases patterns.len(),
{
    if patterns.len() == 0 {
        Seq::empty()
    } else if is_blank(patterns.last()@) {
        kept_exclude_globs(patterns.drop_last())
    } else {
        kept_exclude_globs(patterns.drop_last()).push(exclude_glob_of(patterns.last()@))
    }
}

/// The exclude globs of an optional list of patterns.
pub open spec fn exclude_globs_in(patterns: Option<Vec<String>>) -> Seq<Seq<char>> {
    match patterns {
        Some(list) => kept_exclude_globs(list@),
        None => Seq::empty(),
    }
}

/// Whether `built` is what compiling the exclude patterns gives: nothing
/// where no glob is left, the compiled set where the compiler accepts the
/// globs, else an invalid-pattern error.
pub open spec fn exclude_outcome(built: Result<Option<CompiledGlobs>, ServiceError>, patterns: Option<Vec<String>>, case_insensitive: bool) -> bool {
    let globs = exclude_globs_in(patterns);
    if globs.len() == 0 {
        built is Ok && built->Ok_0 is None
    } else if globset_builds(globs, case_insensitive) {
        built is Ok && built->Ok_0 is Some && built->Ok_0->0.patterns() == globs && built->Ok_0->0.folds_case() == case_insensitive
    } else {
        built is Err && built->Err_0 is InvalidPattern
    }
}

/// Compiles the exclude patterns into one set. Blank patterns are passed
/// over; a pattern without a star is wrapped in stars, one with a star
/// loses a leading slash.
pub fn compile_exclude_glob(patterns: &Option<Vec<String>>, case_insensitive: bool) -> (built: Result<Option<CompiledGlobs>, ServiceError>)
    ensures
        exclude_outcome(built, *patterns, case_insensitive),
{
    let list = match patterns {
        Some(list) => list,
        None => {
            return Ok(None);
        },
    };
    let mut globs: Vec<String> = Vec::new();
    let mut sources: Vec<usize> = Vec::new();
    let mut i: usize = 0;
    assert(list@.take(0) =~= Seq::<String>::empty());
    while i < list.len()
        invariant
            i <= list.len(),
            string_views(globs@) == kept_exclude_globs(list@.take(i as int)),
            sources@.len() == globs@.len(),
            forall|k: int| 0 <= k < sources@.len() ==> #[trigger] sources@[k] < list@.len(),
        decreases list.len() - i,
    {
        assert(list@.take(i + 1).drop_last() =~= list@.take(i as int));
        if !blank(list[i].as_str()) {
            let ghost before = string_views(globs@);
            globs.push(exclude_glob(list[i].as_str()));
            sources.push(i);
            assert(string_views(globs@) =~= before.push(exclude_glob_of(list@[i as int]@)));
        }
        i += 1;
    }
    assert(list@.take(list.len() as int) =~= list@);
    if globs.len() == 0 {
        return Ok(None);
    }
    match compile_globset(&globs, case_insensitive) {
        Ok(compiled) => Ok(Some(compiled)),
        Err(failure) => {
            let message = match failure.at {
                Some(at) => refusal_message("Invalid exclude glob pattern", list[sources[at]].as_str(), failure.message.as_str()),
                None => {
                    let mut message = String::from_str("Failed to build exclude glob patterns: ");
                    message.append(failure.message.as_str());
                    message
                },
            };
            Err(ServiceError::InvalidPattern(message))
        },
    }
}

} // verus!
