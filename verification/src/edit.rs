//! Edits of a text: replacing a passage by another, found literally or
//! line by line without regard to indentation.

use vstd::prelude::*;
use vstd::string::StringExecFns;
use crate::chars::to_chars;
use crate::diff::{fence_diff, fenced, unified_diff, unified_diff_text};
use crate::sandbox::path_allowed;
use crate::service::FileSystemService;
use crate::error::ServiceError;
use crate::snippet::{first_non_space, trim_end_index, trim_start_index, trimmed};
use crate::text::{detect_line_ending, line_ending_of, normalize_line_endings, normalized_line_endings};

verus! {

/// One edit: the text to find and the text to put in its place.
#[derive(Debug, Clone, PartialEq, Eq)]
pub struct EditOperation {
    pub old_text: String,
    pub new_text: String,
}

/// Whether `needle` stands in `hay` at index `i`.
pub open spec fn occurs_at(hay: Seq<char>, needle: Seq<char>, i: int) -> bool {
    0 <= i && i + needle.len() <= hay.len() && hay.subrange(i, i + needle.len()) == needle
}

/// The first index at or after `i` at which `needle` stands in `hay`, or
/// -1 where there is none.
pub open spec fn first_occurrence_from(hay: Seq<char>, needle: Seq<char>, i: int) -> int
    decreases hay.len() + 1 - i,
{
    if i < 0 || i + needle.len() > hay.len() {
        -1
    } else if occurs_at(hay, needle, i) {
        i
    } else {
        first_occurrence_from(hay, needle, i + 1)
    }
}

/// `hay` with the `removed` characters from index `at` on replaced by
/// `insert`.
pub open spec fn replaced_at(hay: Seq<char>, at: int, removed: int, insert: Seq<char>) -> Seq<char> {
    hay.take(at) + insert + hay.skip(at + removed)
}

/// The pieces of `s` from index `i` on, after the pieces `done` and the
/// begun piece `current`; a line feed ends a piece.
pub open spec fn pieces_from(s: Seq<char>, i: int, current: Seq<char>, done: Seq<Seq<char>>) -> Seq<Seq<char>>
    decreases s.len() - i,
{
    if i >= s.len() || i < 0 {
        done.push(current)
    } else if s[i] == '\n' {
        pieces_from(s, i + 1, Seq::empty(), done.push(current))
    } else {
        pieces_from(s, i + 1, current.push(s[i]), done)
    }
}

/// The pieces of `s` between its line feeds; a text without a line feed
/// is one piece, and a text that ends with a line feed has an empty last
/// piece.
pub open spec fn split_lf(s: Seq<char>) -> Seq<Seq<char>> {
    pieces_from(s, 0, Seq::empty(), Seq::empty())
}

/// The first `n` of `lines` with a line feed between two neighbours.
pub open spec fn join_lf(lines: Seq<Seq<char>>, n: int) -> Seq<char>
    decreases n,
{
    if n <= 0 || n > lines.len() {
        Seq::empty()
    } else if n == 1 {
        lines[0]
    } else {
        join_lf(lines, n - 1) + seq!['\n'] + lines[n - 1]
    }
}

/// The white space at the start of `line`.
pub open spec fn indent_of(line: Seq<char>) -> Seq<char> {
    line.take(first_non_space(line, 0))
}

/// `line` without the white space at its start.
pub open spec fn unindented(line: Seq<char>) -> Seq<char> {
    line.skip(first_non_space(line, 0))
}

/// Whether the lines `sought` match the lines of `buffer` from line `i` on,
/// each but for white space at its ends.
pub open spec fn lines_match_at(buffer: Seq<Seq<char>>, sought: Seq<Seq<char>>, i: int) -> bool {
    &&& 0 <= i
    &&& i + sought.len() <= buffer.len()
    &&& forall|k: int| 0 <= k < sought.len() ==> trimmed(#[trigger] sought[k]) == trimmed(buffer[i + k])
}

/// The first line at or after `i` from which `sought` matches `buffer`, or
/// -1 where there is none.
pub open spec fn first_line_match_from(buffer: Seq<Seq<char>>, sought: Seq<Seq<char>>, i: int) -> int
    decreases buffer.len() + 1 - i,
{
    if i < 0 || i + sought.len() > buffer.len() {
        -1
    } else if lines_match_at(buffer, sought, i) {
        i
    } else {
        first_line_match_from(buffer, sought, i + 1)
    }
}

/// The character that deepens an indentation: a tab where the
/// indentation holds a tab, else a space.
pub open spec fn indent_unit(indent: Seq<char>) -> char {
    if indent.contains('\t') {
        '\t'
    } else {
        ' '
    }
}

/// How much deeper than the first line of the passage sought a line of
/// the replacement is indented, in characters; 0 where it is not deeper.
pub open spec fn indent_gain(line: Seq<char>, first_old: Seq<char>) -> int {
    let gain = indent_of(line).len() - indent_of(first_old).len();
    if gain > 0 {
        gain
    } else {
        0
    }
}

/// `c` repeated `n` times.
pub open spec fn repeated(c: char, n: int) -> Seq<char> {
    Seq::new(if n > 0 { n as nat } else { 0 }, |i: int| c)
}

/// Line `j` of the replacement as it is put into the buffer: the first
/// line at the indentation `captured` of the matched block; each other
/// line at that indentation, deepened by what it is deeper than the first
/// line of the passage sought.
pub open spec fn reindented_line(fresh: Seq<Seq<char>>, j: int, first_old: Seq<char>, captured: Seq<char>) -> Seq<char> {
    if j == 0 {
        captured + unindented(fresh[0])
    } else {
        captured + repeated(indent_unit(captured), indent_gain(fresh[j], first_old)) + unindented(fresh[j])
    }
}

/// The lines of the replacement as they are put into the buffer.
pub open spec fn reindented(fresh: Seq<Seq<char>>, first_old: Seq<char>, captured: Seq<char>) -> Seq<Seq<char>> {
    Seq::new(fresh.len(), |j: int| reindented_line(fresh, j, first_old, captured))
}

/// The buffer after one edit, both texts with line feeds only: the first
/// occurrence of `sought` is replaced by `fresh`; where `sought` does not occur,
/// the first block of lines that matches it but for white space is
/// replaced by the lines of `fresh`, indented as the block is; nothing
/// where there is no such block either.
pub open spec fn edit_applied(buffer: Seq<char>, sought: Seq<char>, fresh: Seq<char>) -> Option<Seq<char>> {
    let at = first_occurrence_from(buffer, sought, 0);
    if at >= 0 {
        Some(replaced_at(buffer, at, sought.len() as int, fresh))
    } else {
        let lines = split_lf(buffer);
        let old_lines = split_lf(sought);
        let i = first_line_match_from(lines, old_lines, 0);
        if i >= 0 {
            let put = reindented(split_lf(fresh), old_lines[0], indent_of(lines[i]));
            let after = lines.take(i) + put + lines.skip(i + old_lines.len());
            Some(join_lf(after, after.len() as int))
        } else {
            None
        }
    }
}

/// The views of the lines.
pub open spec fn line_views(lines: Seq<Vec<char>>) -> Seq<Seq<char>> {
    Seq::new(lines.len(), |i: int| lines[i]@)
}

/// The first index at which `needle` stands in `hay`.
pub fn find_first(hay: &Vec<char>, needle: &Vec<char>) -> (found: Option<usize>)
    ensures
        match found {
            Some(at) => at as int == first_occurrence_from(hay@, needle@, 0) && at + needle@.len() <= hay@.len(),
            None => first_occurrence_from(hay@, needle@, 0) == -1,
        },
{
    if needle.len() > hay.len() {
        return None;
    }
    let last = hay.len() - needle.len();
    let mut i: usize = 0;
    while i <= last
        invariant
            i <= last + 1,
            last == hay.len() - needle.len(),
            first_occurrence_from(hay@, needle@, 0) == first_occurrence_from(hay@, needle@, i as int),
        decreases last + 1 - i,
    {
        let mut k: usize = 0;
        while k < needle.len() && hay[i + k] == needle[k]
            invariant
                k <= needle.len(),
                i + needle.len() <= hay.len(),
                forall|j: int| 0 <= j < k ==> hay@[i + j] == needle@[j],
            decreases needle.len() - k,
        {
            k += 1;
        }
        if k == needle.len() {
            assert(hay@.subrange(i as int, i + needle.len()) =~= needle@);
            return Some(i);
        }
        assert(!occurs_at(hay@, needle@, i as int)) by {
            if occurs_at(hay@, needle@, i as int) {
                assert(hay@.subrange(i as int, i + needle.len())[k as int] == needle@[k as int]);
            }
        }
        i += 1;
    }
    None
}

/// Splits `text` at its line feeds.
pub fn split_at_line_feeds(text: &Vec<char>) -> (lines: Vec<Vec<char>>)
    ensures
        line_views(lines@) == split_lf(text@),
        lines@.len() >= 1,
{
    let mut lines: Vec<Vec<char>> = Vec::new();
    let mut current: Vec<char> = Vec::new();
    let mut i: usize = 0;
    assert(line_views(lines@) =~= Seq::<Seq<char>>::empty());
    while i < text.len()
        invariant
            i <= text.len(),
            pieces_from(text@, i as int, current@, line_views(lines@)) == split_lf(text@),
        decreases text.len() - i,
    {
        let c = text[i];
        if c == '\n' {
            let ghost before = line_views(lines@);
            let ghost cur = current@;
            lines.push(current);
            assert(line_views(lines@) =~= before.push(cur));
            current = Vec::new();
        } else {
            current.push(c);
        }
        i += 1;
    }
    let ghost before = line_views(lines@);
    let ghost cur = current@;
    lines.push(current);
    assert(line_views(lines@) =~= before.push(cur));
    lines
}

/// Appends `part` to `out`.
pub fn extend_chars(out: &mut Vec<char>, part: &Vec<char>)
    ensures
        final(out)@ == old(out)@ + part@,
{
    let mut i: usize = 0;
    assert(out@ =~= old(out)@ + part@.take(0));
    while i < part.len()
        invariant
            i <= part.len(),
            out@ == old(out)@ + part@.take(i as int),
        decreases part.len() - i,
    {
        out.push(part[i]);
        assert(part@.take(i + 1) =~= part@.take(i as int).push(part@[i as int]));
        assert(out@ =~= old(out)@ + part@.take(i + 1));
        i += 1;
    }
    assert(part@.take(part.len() as int) =~= part@);
}

/// Joins `lines` with line feeds.
pub fn join_with_line_feeds(lines: &Vec<Vec<char>>) -> (text: Vec<char>)
    ensures
        text@ == join_lf(line_views(lines@), lines@.len() as int),
{
    let mut text: Vec<char> = Vec::new();
    let mut i: usize = 0;
    while i < lines.len()
        invariant
            i <= lines.len(),
            text@ == join_lf(line_views(lines@), i as int),
        decreases lines.len() - i,
    {
        if i > 0 {
            text.push('\n');
        }
        extend_chars(&mut text, &lines[i]);
        assert(text@ =~= join_lf(line_views(lines@), i + 1));
        i += 1;
    }
    text
}

/// Whether two lines are the same but for white space at their ends.
pub fn same_trimmed(a: &Vec<char>, b: &Vec<char>) -> (same: bool)
    ensures
        same == (trimmed(a@) == trimmed(b@)),
{
    let a_from = trim_start_index(a);
    let a_to = trim_end_index(a);
    let b_from = trim_start_index(b);
    let b_to = trim_end_index(b);
    let a_len: usize = if a_from < a_to { a_to - a_from } else { 0 };
    let b_len: usize = if b_from < b_to { b_to - b_from } else { 0 };
    assert(trimmed(a@).len() == a_len);
    assert(trimmed(b@).len() == b_len);
    if a_len != b_len {
        return false;
    }
    let mut k: usize = 0;
    while k < a_len
        invariant
            k <= a_len,
            a_len == b_len,
            a_len > 0 ==> a_from < a_to && a_to <= a.len() && a_len == a_to - a_from,
            b_len > 0 ==> b_from < b_to && b_to <= b.len() && b_len == b_to - b_from,
            trimmed(a@).len() == a_len,
            trimmed(b@).len() == b_len,
            a_len > 0 ==> trimmed(a@) == a@.subrange(a_from as int, a_to as int),
            b_len > 0 ==> trimmed(b@) == b@.subrange(b_from as int, b_to as int),
            forall|j: int| 0 <= j < k ==> trimmed(a@)[j] == trimmed(b@)[j],
        decreases a_len - k,
    {
        if a[a_from + k] != b[b_from + k] {
            assert(trimmed(a@)[k as int] != trimmed(b@)[k as int]);
            return false;
        }
        k += 1;
    }
    assert(trimmed(a@) =~= trimmed(b@));
    true
}

/// The first line from which `sought` matches `buffer`.
pub fn find_line_match(buffer: &Vec<Vec<char>>, sought: &Vec<Vec<char>>) -> (found: Option<usize>)
    ensures
        match found {
            Some(i) => i as int == first_line_match_from(line_views(buffer@), line_views(sought@), 0) && i + sought@.len() <= buffer@.len(),
            None => first_line_match_from(line_views(buffer@), line_views(sought@), 0) == -1,
        },
{
    if sought.len() > buffer.len() {
        return None;
    }
    let last = buffer.len() - sought.len();
    let mut i: usize = 0;
    while i <= last
        invariant
            i <= last + 1,
            last == buffer.len() - sought.len(),
            first_line_match_from(line_views(buffer@), line_views(sought@), 0) == first_line_match_from(line_views(buffer@), line_views(sought@), i as int),
        decreases last + 1 - i,
    {
        let mut k: usize = 0;
        while k < sought.len() && same_trimmed(&sought[k], &buffer[i + k])
            invariant
                k <= sought.len(),
                i + sought.len() <= buffer.len(),
                forall|j: int| 0 <= j < k ==> trimmed(#[trigger] line_views(sought@)[j]) == trimmed(line_views(buffer@)[i + j]),
            decreases sought.len() - k,
        {
            k += 1;
        }
        if k == sought.len() {
            return Some(i);
        }
        assert(!lines_match_at(line_views(buffer@), line_views(sought@), i as int)) by {
            assert(trimmed(line_views(sought@)[k as int]) != trimmed(line_views(buffer@)[i + k]));
        }
        i += 1;
    }
    None
}

/// A copy of the characters `from..to` of `chars`.
pub fn copy_range(chars: &Vec<char>, from: usize, to: usize) -> (copy: Vec<char>)
    requires
        from <= to <= chars.len(),
    ensures
        copy@ == chars@.subrange(from as int, to as int),
{
    let mut copy: Vec<char> = Vec::new();
    let mut i: usize = from;
    assert(copy@ =~= chars@.subrange(from as int, from as int));
    while i < to
        invariant
            from <= i <= to <= chars.len(),
            copy@ == chars@.subrange(from as int, i as int),
        decreases to - i,
    {
        copy.push(chars[i]);
        assert(chars@.subrange(from as int, i + 1) =~= chars@.subrange(from as int, i as int).push(chars@[i as int]));
        i += 1;
    }
    copy
}

/// Whether a tab occurs in `chars`.
fn has_tab(chars: &Vec<char>) -> (found: bool)
    ensures
        found == chars@.contains('\t'),
{
    let mut i: usize = 0;
    while i < chars.len()
        invariant
            i <= chars.len(),
            forall|k: int| 0 <= k < i ==> chars@[k] != '\t',
        decreases chars.len() - i,
    {
        if chars[i] == '\t' {
            return true;
        }
        i += 1;
    }
    false
}

/// The lines of the replacement as they are put into the buffer.
fn reindent(new_lines: &Vec<Vec<char>>, first_old: &Vec<char>, captured: &Vec<char>) -> (put: Vec<Vec<char>>)
    ensures
        line_views(put@) == reindented(line_views(new_lines@), first_old@, captured@),
{
    let old_indent = trim_start_index(first_old);
    let unit = if has_tab(captured) { '\t' } else { ' ' };
    let mut put: Vec<Vec<char>> = Vec::new();
    let mut j: usize = 0;
    while j < new_lines.len()
        invariant
            j <= new_lines.len(),
            old_indent == first_non_space(first_old@, 0),
            old_indent <= first_old@.len(),
            unit == indent_unit(captured@),
            put@.len() == j,
            forall|k: int| 0 <= k < j ==> (#[trigger] put@[k])@ == reindented_line(line_views(new_lines@), k, first_old@, captured@),
        decreases new_lines.len() - j,
    {
        let line = &new_lines[j];
        let indent = trim_start_index(line);
        let mut made = copy_range(captured, 0, captured.len());
        assert(made@ =~= captured@);
        if j > 0 && indent > old_indent {
            let gain = indent - old_indent;
            let mut g: usize = 0;
            while g < gain
                invariant
                    g <= gain,
                    made@ == captured@ + repeated(unit, g as int),
                decreases gain - g,
            {
                made.push(unit);
                assert(made@ =~= captured@ + repeated(unit, g + 1));
                g += 1;
            }
        } else {
            assert(made@ =~= captured@ + repeated(unit, 0));
        }
        let ghost head = made@;
        let rest = copy_range(line, indent, line.len());
        extend_chars(&mut made, &rest);
        proof {
            let views = line_views(new_lines@);
            assert(views[j as int] == line@);
            assert(rest@ =~= unindented(line@));
            assert(indent_of(line@).len() == indent);
            assert(indent_of(first_old@).len() == old_indent);
            if j == 0 {
                assert(made@ =~= captured@ + unindented(line@));
            }
        }
        put.push(made);
        j += 1;
    }
    assert(line_views(put@) =~= reindented(line_views(new_lines@), first_old@, captured@));
    put
}

/// The buffer after one edit, or nothing where the passage is not found.
pub fn apply_edit(buffer: &Vec<char>, sought: &Vec<char>, fresh: &Vec<char>) -> (after: Option<Vec<char>>)
    ensures
        match after {
            Some(text) => edit_applied(buffer@, sought@, fresh@) == Some(text@),
            None => edit_applied(buffer@, sought@, fresh@) is None,
        },
{
    match find_first(buffer, sought) {
        Some(at) => {
            let total = buffer.len();
            let mut text = copy_range(buffer, 0, at);
            extend_chars(&mut text, fresh);
            let tail = copy_range(buffer, at + sought.len(), total);
            extend_chars(&mut text, &tail);
            assert(text@ =~= replaced_at(buffer@, at as int, sought@.len() as int, fresh@));
            Some(text)
        },
        None => {
            let lines = split_at_line_feeds(buffer);
            let old_lines = split_at_line_feeds(sought);
            match find_line_match(&lines, &old_lines) {
                Some(i) => {
                    let new_lines = split_at_line_feeds(fresh);
                    let lead = trim_start_index(&lines[i]);
                    let captured = copy_range(&lines[i], 0, lead);
                    let put = reindent(&new_lines, &old_lines[0], &captured);
                    let ghost wanted = line_views(lines@).take(i as int) + line_views(put@) + line_views(lines@).skip(i + old_lines@.len());
                    let mut after: Vec<Vec<char>> = Vec::new();
                    let mut k: usize = 0;
                    assert(line_views(after@) =~= line_views(lines@).take(0));
                    while k < i
                        invariant
                            k <= i <= lines.len(),
                            line_views(after@) == line_views(lines@).take(k as int),
                        decreases i - k,
                    {
                        let ghost before = line_views(after@);
                        let line = &lines[k];
                        let copy = copy_range(line, 0, line.len());
                        assert(copy@ =~= line@);
                        after.push(copy);
                        assert(line_views(after@) =~= before.push(line@));
                        assert(line_views(lines@).take(k + 1) =~= line_views(lines@).take(k as int).push(line@));
                        k += 1;
                    }
                    let mut p: usize = 0;
                    assert(line_views(put@).take(0) =~= Seq::<Seq<char>>::empty());
                    assert(line_views(after@) =~= line_views(lines@).take(i as int) + line_views(put@).take(0));
                    while p < put.len()
                        invariant
                            p <= put.len(),
                            i <= lines.len(),
                            line_views(after@) == line_views(lines@).take(i as int) + line_views(put@).take(p as int),
                        decreases put.len() - p,
                    {
                        let ghost before = line_views(after@);
                        let line = &put[p];
                        let copy = copy_range(line, 0, line.len());
                        assert(copy@ =~= line@);
                        after.push(copy);
                        assert(line_views(after@) =~= before.push(line@));
                        assert(line_views(put@).take(p + 1) =~= line_views(put@).take(p as int).push(line@));
                        assert(line_views(after@) =~= line_views(lines@).take(i as int) + line_views(put@).take(p + 1));
                        p += 1;
                    }
                    assert(line_views(put@).take(put@.len() as int) =~= line_views(put@));
                    let from = i + old_lines.len();
                    let mut r: usize = from;
                    assert(line_views(lines@).subrange(from as int, from as int) =~= Seq::<Seq<char>>::empty());
                    assert(line_views(after@) =~= line_views(lines@).take(i as int) + line_views(put@) + line_views(lines@).subrange(from as int, r as int));
                    while r < lines.len()
                        invariant
                            from <= r <= lines.len(),
                            from == i + old_lines@.len(),
                            line_views(after@) == line_views(lines@).take(i as int) + line_views(put@) + line_views(lines@).subrange(from as int, r as int),
                        decreases lines.len() - r,
                    {
                        let ghost before = line_views(after@);
                        let line = &lines[r];
                        let copy = copy_range(line, 0, line.len());
                        assert(copy@ =~= line@);
                        after.push(copy);
                        assert(line_views(after@) =~= before.push(line@));
                        assert(line_views(lines@).subrange(from as int, r + 1) =~= line_views(lines@).subrange(from as int, r as int).push(line@));
                        assert(line_views(after@) =~= line_views(lines@).take(i as int) + line_views(put@) + line_views(lines@).subrange(
                            from as int,
                            r + 1,
                        ));
                        r += 1;
                    }
                    assert(line_views(lines@).subrange(from as int, lines@.len() as int) =~= line_views(lines@).skip(from as int));
                    assert(line_views(after@) == wanted);
                    assert(line_views(lines@)[i as int] == lines@[i as int]@);
                    assert(line_views(old_lines@)[0] == old_lines@[0]@);
                    assert(captured@ =~= indent_of(lines@[i as int]@));
                    Some(join_with_line_feeds(&after))
                },
                None => None,
            }
        },
    }
}

/// The buffer after the first `k` of `edits`, in order, each with its
/// texts normalised to line feeds; nothing where one of them finds no
/// passage.
pub open spec fn edits_applied(buffer: Seq<char>, edits: Seq<EditOperation>, k: int) -> Option<Seq<char>>
    decreases k,
{
    if k <= 0 || k > edits.len() {
        Some(buffer)
    } else {
        match edits_applied(buffer, edits, k - 1) {
            Some(before) => edit_applied(before, normalized_line_endings(edits[k - 1].old_text@), normalized_line_endings(edits[k - 1].new_text@)),
            None => None,
        }
    }
}

/// `text` with each line feed replaced by `ending`.
pub open spec fn with_line_ending(text: Seq<char>, ending: Seq<char>) -> Seq<char>
    decreases text.len(),
{
    if text.len() == 0 {
        Seq::empty()
    } else if text.last() == '\n' {
        with_line_ending(text.drop_last(), ending) + ending
    } else {
        with_line_ending(text.drop_last(), ending).push(text.last())
    }
}

/// `text` with each line feed replaced by `ending`.
pub fn restore_line_endings(text: &Vec<char>, ending: &str) -> (restored: String)
    ensures
        restored@ == with_line_ending(text@, ending@),
{
    let mut restored = String::new();
    let mut i: usize = 0;
    assert(text@.take(0) =~= Seq::<char>::empty());
    while i < text.len()
        invariant
            i <= text.len(),
            restored@ == with_line_ending(text@.take(i as int), ending@),
        decreases text.len() - i,
    {
        assert(text@.take(i + 1).drop_last() =~= text@.take(i as int));
        if text[i] == '\n' {
            vstd::string::StringExecFns::append(&mut restored, ending);
        } else {
            restored.push(text[i]);
        }
        i += 1;
    }
    assert(text@.take(text.len() as int) =~= text@);
    restored
}

/// Whether `edited` is what the edits make of `content`: the text with
/// all of them applied in order and the line ending of `content` put
/// back; or, where an edit finds no passage, an error that holds the text
/// that the first such edit sought.
pub open spec fn edits_outcome(edited: Result<String, ServiceError>, content: Seq<char>, edits: Seq<EditOperation>) -> bool {
    match edits_applied(normalized_line_endings(content), edits, edits.len() as int) {
        Some(text) => edited is Ok && edited->Ok_0@ == with_line_ending(text, line_ending_of(content)),
        None => edited is Err && edited->Err_0 is NoMatch && exists|k: int|
            0 <= k < edits.len() && edits_applied(normalized_line_endings(content), edits, k) is Some && #[trigger] edits_applied(
                normalized_line_endings(content),
                edits,
                k + 1,
            ) is None && edited->Err_0->NoMatch_0@ == edits[k].old_text@,
    }
}

/// Once an edit has found no passage, the edits after it change nothing
/// of that.
pub proof fn lemma_failure_stays(buffer: Seq<char>, edits: Seq<EditOperation>, k: int, n: int)
    requires
        0 <= k <= n <= edits.len(),
        edits_applied(buffer, edits, k) is None,
    ensures
        edits_applied(buffer, edits, n) is None,
    decreases n,
{
    if k < n {
        lemma_failure_stays(buffer, edits, k, n - 1);
    }
}

/// Applies `edits` to `content` in order. Each edit sees what the edits
/// before it made of the text. The line ending of `content` is kept.
pub fn apply_edits(content: &str, edits: &Vec<EditOperation>) -> (edited: Result<String, ServiceError>)
    ensures
        edits_outcome(edited, content@, edits@),
{
    let ending = detect_line_ending(content);
    let normalized = normalize_line_endings(content);
    let mut buffer = to_chars(normalized.as_str());
    let ghost start = buffer@;
    let mut i: usize = 0;
    while i < edits.len()
        invariant
            i <= edits.len(),
            start == normalized_line_endings(content@),
            edits_applied(start, edits@, i as int) == Some(buffer@),
        decreases edits.len() - i,
    {
        let old_text = normalize_line_endings(edits[i].old_text.as_str());
        let new_text = normalize_line_endings(edits[i].new_text.as_str());
        let old_chars = to_chars(old_text.as_str());
        let new_chars = to_chars(new_text.as_str());
        match apply_edit(&buffer, &old_chars, &new_chars) {
            Some(after) => {
                buffer = after;
            },
            None => {
                proof {
                    assert(edits_applied(start, edits@, i + 1) is None);
                    lemma_failure_stays(start, edits@, i + 1, edits@.len() as int);
                }
                return Err(ServiceError::NoMatch(edits[i].old_text.clone()));
            },
        }
        i += 1;
    }
    Ok(restore_line_endings(&buffer, ending))
}

/// What an edit of a file comes to: the diff to show, the new content,
/// and the path to write it to, if it is to be written.
#[derive(Debug, Clone, PartialEq, Eq)]
pub struct EditPlan {
    pub diff: String,
    pub new_content: String,
    pub write_to: Option<String>,
}

/// The name of a file in a diff that names none.
pub open spec fn name_or_file(filepath: Option<String>) -> Seq<char> {
    match filepath {
        Some(name) => name@,
        None => "file"@,
    }
}

/// The path that an edit writes to: none for a dry run, else the path to
/// save to where one is given, else the file itself.
pub open spec fn write_target(file_path: Seq<char>, dry_run: Option<bool>, save_to: Option<&str>) -> Option<Seq<char>> {
    if dry_run == Some(true) {
        None
    } else {
        match save_to {
            Some(path) => Some(path@),
            None => Some(file_path),
        }
    }
}

/// Whether the edit may touch its paths: the file lies under an allowed
/// root, and so does the path to save to, where one is given.
pub open spec fn edit_allowed(roots: Seq<Seq<char>>, file_path: Seq<char>, save_to: Option<&str>) -> bool {
    path_allowed(file_path, roots) && (save_to is Some ==> path_allowed(save_to->0@, roots))
}

/// Whether `planned` is what editing the file comes to. A path outside
/// the allowed roots is refused, then an edit that finds no passage; else
/// the plan holds the edited text, the fenced diff from the old to the
/// new content under the file's path, and where to write.
pub open spec fn edit_plan_outcome(
    planned: Result<EditPlan, ServiceError>,
    roots: Seq<Seq<char>>,
    file_path: Seq<char>,
    content: Seq<char>,
    edits: Seq<EditOperation>,
    dry_run: Option<bool>,
    save_to: Option<&str>,
) -> bool {
    if !edit_allowed(roots, file_path, save_to) {
        planned is Err && planned->Err_0 is NotAllowed
    } else {
        match edits_applied(normalized_line_endings(content), edits, edits.len() as int) {
            None => planned is Err && planned->Err_0 is NoMatch,
            Some(text) => {
                let new_content = with_line_ending(text, line_ending_of(content));
                &&& planned is Ok
                &&& planned->Ok_0.new_content@ == new_content
                &&& planned->Ok_0.diff@ == fenced(unified_diff_text(file_path, content, new_content))
                &&& match write_target(file_path, dry_run, save_to) {
                    Some(target) => planned->Ok_0.write_to is Some && planned->Ok_0.write_to->0@ == target,
                    None => planned->Ok_0.write_to is None,
                }
            },
        }
    }
}

impl FileSystemService {
    /// The unified diff from `original_content` to `new_content`, under
    /// the name `filepath` or `file`, in a fenced block.
    pub fn create_unified_diff(&self, original_content: &str, new_content: &str, filepath: Option<String>) -> (diff: String)
        ensures
            diff@ == fenced(unified_diff_text(name_or_file(filepath), original_content@, new_content@)),
    {
        let name = match filepath {
            Some(name) => name,
            None => String::from_str("file"),
        };
        let diff = unified_diff(name.as_str(), original_content, new_content);
        fence_diff(diff.as_str())
    }

    /// Applies `edits` to `content`, the text of the file at `file_path`,
    /// and plans what to show and what to write.
    ///
    /// The edits are applied in order, each to the first passage that it
    /// finds in what the edits before it made of the text. If one of them
    /// finds none, nothing is planned. The line ending of the file is
    /// kept. Nothing is written for a dry run.
    pub fn apply_file_edits(&self, file_path: &str, content: &str, edits: Vec<EditOperation>, dry_run: Option<bool>, save_to: Option<&str>) -> (planned: Result<
        EditPlan,
        ServiceError,
    >)
        ensures
            edit_plan_outcome(planned, self.roots(), file_path@, content@, edits@, dry_run, save_to),
    {
        if !self.is_allowed(file_path) {
            return Err(ServiceError::NotAllowed(file_path.to_owned()));
        }
        match save_to {
            Some(path) => {
                if !self.is_allowed(path) {
                    return Err(ServiceError::NotAllowed(path.to_owned()));
                }
            },
            None => {},
        }
        let new_content = match apply_edits(content, &edits) {
            Ok(text) => text,
            Err(error) => {
                return Err(error);
            },
        };
        let diff = unified_diff(file_path, content, new_content.as_str());
        let fenced_diff = fence_diff(diff.as_str());
        let is_dry_run = match dry_run {
            Some(flag) => flag,
            None => false,
        };
        let write_to = if is_dry_run {
            None
        } else {
            match save_to {
                Some(path) => Some(path.to_owned()),
                None => Some(file_path.to_owned()),
            }
        };
        Ok(EditPlan { diff: fenced_diff, new_content, write_to })
    }
}

/// A dry run and a real run of the same edits plan the same diff and the
/// same new content; only the real run plans to write.
pub proof fn lemma_dry_run_plans_the_same(
    rehearsal: Result<EditPlan, ServiceError>,
    performed: Result<EditPlan, ServiceError>,
    roots: Seq<Seq<char>>,
    file_path: Seq<char>,
    content: Seq<char>,
    edits: Seq<EditOperation>,
    save_to: Option<&str>,
)
    requires
        edit_plan_outcome(rehearsal, roots, file_path, content, edits, Some(true), save_to),
        edit_plan_outcome(performed, roots, file_path, content, edits, Some(false), save_to),
        rehearsal is Ok,
    ensures
        performed is Ok,
        performed->Ok_0.diff@ == rehearsal->Ok_0.diff@,
        performed->Ok_0.new_content@ == rehearsal->Ok_0.new_content@,
        rehearsal->Ok_0.write_to is None,
        performed->Ok_0.write_to is Some,
{
}

} // verus!
