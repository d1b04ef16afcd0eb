//! Search results written out as text.

use vstd::prelude::*;
use vstd::string::StringExecFns;
use crate::ast::{AstFileSearchResult, AstMatchResult};
use crate::chars::to_chars;
use crate::content::{ContentMatchResult, FileSearchResult};
use crate::decimal::{decimal, push_decimal};

verus! {

/// `line` without a carriage return at its end.
pub open spec fn without_cr(line: Seq<char>) -> Seq<char> {
    if line.len() > 0 && line.last() == '\r' {
        line.drop_last()
    } else {
        line
    }
}

/// The lines of `s` from index `i` on, after the lines `done` and the
/// begun line `current`.
pub open spec fn lines_from(s: Seq<char>, i: int, current: Seq<char>, done: Seq<Seq<char>>) -> Seq<Seq<char>>
    decreases s.len() - i,
{
    if i >= s.len() || i < 0 {
        if current.len() > 0 {
            done.push(current)
        } else {
            done
        }
    } else if s[i] == '\n' {
        lines_from(s, i + 1, Seq::empty(), done.push(without_cr(current)))
    } else {
        lines_from(s, i + 1, current.push(s[i]), done)
    }
}

/// The lines of `s`: the pieces that end with a line feed, without that
/// line feed and a carriage return before it, and what follows the last
/// line feed if anything does.
pub open spec fn text_lines(s: Seq<char>) -> Seq<Seq<char>> {
    lines_from(s, 0, Seq::empty(), Seq::empty())
}

/// The views of the lines.
pub open spec fn lines_view(lines: Seq<Vec<char>>) -> Seq<Seq<char>> {
    Seq::new(lines.len(), |i: int| lines[i]@)
}

/// Splits `text` into its lines.
pub fn split_lines(text: &str) -> (lines: Vec<Vec<char>>)
    ensures
        lines_view(lines@) == text_lines(text@),
{
    let chars = to_chars(text);
    let mut lines: Vec<Vec<char>> = Vec::new();
    let mut current: Vec<char> = Vec::new();
    let mut i: usize = 0;
    assert(lines_view(lines@) =~= Seq::<Seq<char>>::empty());
    while i < chars.len()
        invariant
            i <= chars.len(),
            chars@ == text@,
            lines_from(chars@, i as int, current@, lines_view(lines@)) == text_lines(chars@),
        decreases chars.len() - i,
    {
        let c = chars[i];
        if c == '\n' {
            let ghost before = lines_view(lines@);
            let ghost cur = current@;
            if current.len() > 0 && current[current.len() - 1] == '\r' {
                current.pop();
            }
            assert(current@ =~= without_cr(cur));
            lines.push(current);
            assert(lines_view(lines@) =~= before.push(without_cr(cur)));
            current = Vec::new();
        } else {
            current.push(c);
        }
        i += 1;
    }
    if current.len() > 0 {
        let ghost before = lines_view(lines@);
        let ghost cur = current@;
        lines.push(current);
        assert(lines_view(lines@) =~= before.push(cur));
    }
    lines
}

/// The first `n` of `lines`, each after four spaces and before a line
/// feed.
pub open spec fn indented(lines: Seq<Seq<char>>, n: int) -> Seq<char>
    decreases n,
{
    if n <= 0 {
        Seq::empty()
    } else {
        indented(lines, n - 1) + "    "@ + lines[n - 1] + seq!['\n']
    }
}

/// The lines of the matched code as a result shows them: all of them, or
/// the first `max_lines` and a note of how many were left out.
pub open spec fn shown_code(code: Seq<char>, max_lines: Option<u64>) -> Seq<char> {
    let lines = text_lines(code);
    if max_lines is Some && lines.len() > max_lines->0 {
        indented(lines, max_lines->0 as int) + "    ... ("@ + decimal((lines.len() - max_lines->0) as nat) + " more lines omitted)\n"@
    } else {
        indented(lines, lines.len() as int)
    }
}

/// One match of a structural search as text.
pub open spec fn ast_match_text(m: AstMatchResult, max_lines: Option<u64>) -> Seq<char> {
    "  "@ + decimal(m.line_number as nat) + seq![':'] + decimal(m.column as nat) + " (bytes "@ + decimal(m.byte_range.0 as nat) + seq!['-']
        + decimal(m.byte_range.1 as nat) + "):\n"@ + shown_code(m.matched_code@, max_lines) + seq!['\n']
}

/// The first `n` matches of a file as text.
pub open spec fn ast_matches_text(matches: Seq<AstMatchResult>, max_lines: Option<u64>, n: int) -> Seq<char>
    decreases n,
{
    if n <= 0 {
        Seq::empty()
    } else {
        ast_matches_text(matches, max_lines, n - 1) + ast_match_text(matches[n - 1], max_lines)
    }
}

/// The matches of one file as text: its path, its matches, an empty line.
pub open spec fn ast_file_text(result: AstFileSearchResult, max_lines: Option<u64>) -> Seq<char> {
    result.file_path@ + seq!['\n'] + ast_matches_text(result.matches@, max_lines, result.matches@.len() as int) + seq!['\n']
}

/// The first `n` results of a structural search as text.
pub open spec fn ast_results_text(results: Seq<AstFileSearchResult>, max_lines: Option<u64>, n: int) -> Seq<char>
    decreases n,
{
    if n <= 0 {
        Seq::empty()
    } else {
        ast_results_text(results, max_lines, n - 1) + ast_file_text(results[n - 1], max_lines)
    }
}

/// One matching line of a content search as text.
pub open spec fn content_match_text(m: ContentMatchResult) -> Seq<char> {
    "  "@ + decimal(m.line_number as nat) + seq![':'] + decimal(m.start_pos as nat) + ": "@ + m.line_text@ + seq!['\n']
}

/// The first `n` matching lines of a file as text.
pub open spec fn content_matches_text(matches: Seq<ContentMatchResult>, n: int) -> Seq<char>
    decreases n,
{
    if n <= 0 {
        Seq::empty()
    } else {
        content_matches_text(matches, n - 1) + content_match_text(matches[n - 1])
    }
}

/// The matching lines of one file as text: its path, its lines, an empty
/// line.
pub open spec fn content_file_text(result: FileSearchResult) -> Seq<char> {
    result.file_path@ + seq!['\n'] + content_matches_text(result.matches@, result.matches@.len() as int) + seq!['\n']
}

/// The first `n` results of a content search as text.
pub open spec fn content_results_text(results: Seq<FileSearchResult>, n: int) -> Seq<char>
    decreases n,
{
    if n <= 0 {
        Seq::empty()
    } else {
        content_results_text(results, n - 1) + content_file_text(results[n - 1])
    }
}

/// Appends `chars` to `out`.
pub fn push_chars(out: &mut String, chars: &Vec<char>)
    ensures
        final(out)@ == old(out)@ + chars@,
{
    let mut i: usize = 0;
    assert(out@ =~= old(out)@ + chars@.take(0));
    while i < chars.len()
        invariant
            i <= chars.len(),
            out@ == old(out)@ + chars@.take(i as int),
        decreases chars.len() - i,
    {
        out.push(chars[i]);
        assert(chars@.take(i + 1) =~= chars@.take(i as int).push(chars@[i as int]));
        assert(out@ =~= old(out)@ + chars@.take(i + 1));
        i += 1;
    }
    assert(chars@.take(chars.len() as int) =~= chars@);
}

/// Appends the first `n` of `lines`, indented, to `out`.
fn push_indented(out: &mut String, lines: &Vec<Vec<char>>, n: usize)
    requires
        n <= lines.len(),
    ensures
        final(out)@ == old(out)@ + indented(lines_view(lines@), n as int),
{
    let mut k: usize = 0;
    assert(out@ =~= old(out)@ + indented(lines_view(lines@), 0));
    while k < n
        invariant
            k <= n <= lines.len(),
            out@ == old(out)@ + indented(lines_view(lines@), k as int),
        decreases n - k,
    {
        let ghost before = out@;
        out.append("    ");
        push_chars(out, &lines[k]);
        out.push('\n');
        assert(out@ =~= old(out)@ + (indented(lines_view(lines@), k as int) + "    "@ + lines_view(lines@)[k as int] + seq!['\n']));
        k += 1;
    }
}

/// Appends the matched code to `out` as a result shows it.
fn push_shown_code(out: &mut String, code: &str, max_lines: Option<u64>)
    ensures
        final(out)@ == old(out)@ + shown_code(code@, max_lines),
{
    let lines = split_lines(code);
    let total = lines.len();
    match max_lines {
        Some(max) => {
            if total as u64 > max {
                let keep: usize = max as usize;
                push_indented(out, &lines, keep);
                let ghost mid = out@;
                out.append("    ... (");
                push_decimal(out, total as u64 - max);
                out.append(" more lines omitted)\n");
                assert(out@ =~= old(out)@ + (indented(text_lines(code@), max as int) + "    ... ("@ + decimal((total - max) as nat)
                    + " more lines omitted)\n"@));
            } else {
                push_indented(out, &lines, total);
            }
        },
        None => {
            push_indented(out, &lines, total);
        },
    }
}

/// Appends one match of a structural search to `out`.
fn push_ast_match(out: &mut String, m: &AstMatchResult, max_lines: Option<u64>)
    ensures
        final(out)@ == old(out)@ + ast_match_text(*m, max_lines),
{
    out.append("  ");
    push_decimal(out, m.line_number as u64);
    out.push(':');
    push_decimal(out, m.column as u64);
    out.append(" (bytes ");
    push_decimal(out, m.byte_range.0 as u64);
    out.push('-');
    push_decimal(out, m.byte_range.1 as u64);
    out.append("):\n");
    let ghost head = out@;
    assert(head =~= old(out)@ + ("  "@ + decimal(m.line_number as nat) + seq![':'] + decimal(m.column as nat) + " (bytes "@ + decimal(
        m.byte_range.0 as nat,
    ) + seq!['-'] + decimal(m.byte_range.1 as nat) + "):\n"@));
    push_shown_code(out, m.matched_code.as_str(), max_lines);
    out.push('\n');
    assert(out@ =~= old(out)@ + ast_match_text(*m, max_lines));
}

/// The results of a structural search as text.
pub fn format_ast_results(results: &Vec<AstFileSearchResult>, max_lines: Option<u64>) -> (text: String)
    ensures
        text@ == ast_results_text(results@, max_lines, results@.len() as int),
{
    let mut text = String::new();
    let mut i: usize = 0;
    assert(text@ =~= ast_results_text(results@, max_lines, 0));
    while i < results.len()
        invariant
            i <= results.len(),
            text@ == ast_results_text(results@, max_lines, i as int),
        decreases results.len() - i,
    {
        let result = &results[i];
        let ghost before = text@;
        text.append(result.file_path.as_str());
        text.push('\n');
        let ghost head = text@;
        let mut k: usize = 0;
        assert(text@ =~= head + ast_matches_text(result.matches@, max_lines, 0));
        while k < result.matches.len()
            invariant
                k <= result.matches.len(),
                text@ == head + ast_matches_text(result.matches@, max_lines, k as int),
            decreases result.matches.len() - k,
        {
            push_ast_match(&mut text, &result.matches[k], max_lines);
            assert(text@ =~= head + (ast_matches_text(result.matches@, max_lines, k as int) + ast_match_text(result.matches@[k as int], max_lines)));
            k += 1;
        }
        text.push('\n');
        assert(text@ =~= before + ast_file_text(*result, max_lines));
        i += 1;
    }
    text
}

/// The results of a content search as text.
pub fn format_content_results(results: &Vec<FileSearchResult>) -> (text: String)
    ensures
        text@ == content_results_text(results@, results@.len() as int),
{
    let mut text = String::new();
    let mut i: usize = 0;
    assert(text@ =~= content_results_text(results@, 0));
    while i < results.len()
        invariant
            i <= results.len(),
            text@ == content_results_text(results@, i as int),
        decreases results.len() - i,
    {
        let result = &results[i];
        let ghost before = text@;
        text.append(result.file_path.as_str());
        text.push('\n');
        let ghost head = text@;
        let mut k: usize = 0;
        assert(text@ =~= head + content_matches_text(result.matches@, 0));
        while k < result.matches.len()
            invariant
                k <= result.matches.len(),
                text@ == head + content_matches_text(result.matches@, k as int),
            decreases result.matches.len() - k,
        {
            let m = &result.matches[k];
            let ghost so_far = text@;
            text.append("  ");
            push_decimal(&mut text, m.line_number);
            text.push(':');
            push_decimal(&mut text, m.start_pos as u64);
            text.append(": ");
            text.append(m.line_text.as_str());
            text.push('\n');
            assert(text@ =~= so_far + content_match_text(*m));
            assert(text@ =~= head + (content_matches_text(result.matches@, k as int) + content_match_text(result.matches@[k as int])));
            k += 1;
        }
        text.push('\n');
        assert(text@ =~= before + content_file_text(*result));
        i += 1;
    }
    text
}

} // verus!
