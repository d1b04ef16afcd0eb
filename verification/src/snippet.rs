//! Snippets: a window of whole characters around a match in a line, with
//! an ellipsis on each side that was cut.

use vstd::prelude::*;
use crate::chars::to_chars;
use crate::service::FileSystemService;

verus! {

/// How many characters a snippet holds at most when the caller sets no
/// limit.
pub const SNIPPET_MAX_LENGTH: usize = 200;

/// How many bytes before the match a snippet starts when the caller does
/// not say.
pub const SNIPPET_BACKWARD_CHARS: usize = 30;

/// The byte range of a match in a line; `start <= end`.
#[derive(Clone, Copy, Debug)]
pub struct Match {
    pub start: usize,
    pub end: usize,
}

impl Match {
    /// The match over the bytes `start..end`.
    pub fn new(start: usize, end: usize) -> (m: Match)
        requires
            start <= end,
        ensures
            m.start == start,
            m.end == end,
    {
        Match { start, end }
    }

    /// The offset of the first byte of the match.
    pub fn start(&self) -> (start: usize)
        ensures
            start == self.start,
    {
        self.start
    }

    /// The offset just after the last byte of the match.
    pub fn end(&self) -> (end: usize)
        ensures
            end == self.end,
    {
        self.end
    }
}

/// The characters with the Unicode property White_Space.
pub open spec fn is_white_space(c: char) -> bool {
    let v = c as u32;
    (0x09 <= v <= 0x0D) || v == 0x20 || v == 0x85 || v == 0xA0 || v == 0x1680 || (0x2000 <= v
        <= 0x200A) || v == 0x2028 || v == 0x2029 || v == 0x202F || v == 0x205F || v == 0x3000
}

/// The number of bytes that `c` takes in UTF-8.
pub open spec fn utf8_width(c: char) -> int {
    let v = c as u32;
    if v < 0x80 {
        1
    } else if v < 0x800 {
        2
    } else if v < 0x10000 {
        3
    } else {
        4
    }
}

/// The number of bytes that `s` takes in UTF-8.
pub open spec fn byte_len(s: Seq<char>) -> int
    decreases s.len(),
{
    if s.len() == 0 {
        0
    } else {
        byte_len(s.drop_last()) + utf8_width(s.last())
    }
}

/// The first index at or after `i` whose character is not white space, or
/// the length of `s`.
pub open spec fn first_non_space(s: Seq<char>, i: int) -> int
    decreases s.len() - i,
{
    if i >= s.len() {
        s.len() as int
    } else if i >= 0 && !is_white_space(s[i]) {
        i
    } else {
        first_non_space(s, i + 1)
    }
}

/// The index just after the last character before `j` that is not white
/// space, or 0.
pub open spec fn last_non_space_end(s: Seq<char>, j: int) -> int
    decreases j,
{
    if j <= 0 {
        0
    } else if j <= s.len() && !is_white_space(s[j - 1]) {
        j
    } else {
        last_non_space_end(s, j - 1)
    }
}

/// `s` without its leading and trailing white space.
pub open spec fn trimmed(s: Seq<char>) -> Seq<char> {
    let from = first_non_space(s, 0);
    let to = last_non_space_end(s, s.len() as int);
    if from < to {
        s.subrange(from, to)
    } else {
        Seq::empty()
    }
}

/// `a - b`, or 0 where `b` exceeds `a`.
pub open spec fn minus_or_zero(a: int, b: int) -> int {
    if a > b {
        a - b
    } else {
        0
    }
}

/// The first index at or after `i` whose character starts at byte
/// `desired` of `t` or later, or the length of `t`.
pub open spec fn boundary_at_or_past(t: Seq<char>, desired: int, i: int) -> int
    decreases t.len() - i,
{
    if i >= t.len() {
        t.len() as int
    } else if i >= 0 && byte_len(t.take(i)) >= desired {
        i
    } else {
        boundary_at_or_past(t, desired, i + 1)
    }
}

/// The mark of a cut.
pub open spec fn ellipsis() -> Seq<char> {
    seq!['.', '.', '.']
}

/// The index in the trimmed line at which the snippet starts.
pub open spec fn snippet_from(line: Seq<char>, match_start: int, backward: int) -> int {
    let dropped = byte_len(line.take(first_non_space(line, 0)));
    let desired = minus_or_zero(minus_or_zero(match_start, dropped), backward);
    boundary_at_or_past(trimmed(line), desired, 0)
}

/// The index in the trimmed line at which the snippet ends.
pub open spec fn snippet_to(line: Seq<char>, match_start: int, max_length: int, backward: int) -> int {
    let from = snippet_from(line, match_start, backward);
    if from + max_length < trimmed(line).len() {
        from + max_length
    } else {
        trimmed(line).len() as int
    }
}

/// The snippet of `line` around a match that starts at byte `match_start`.
///
/// The line is trimmed. The snippet starts `backward` bytes before the
/// match, moved forward to the start of a character, and holds up to
/// `max_length` characters. An ellipsis stands before it unless it starts
/// the trimmed line, and after it unless it ends the trimmed line.
pub open spec fn snippet_of(line: Seq<char>, match_start: int, max_length: int, backward: int) -> Seq<char> {
    let t = trimmed(line);
    let from = snippet_from(line, match_start, backward);
    let to = snippet_to(line, match_start, max_length, backward);
    (if from > 0 {
        ellipsis()
    } else {
        Seq::empty()
    }) + t.subrange(from, to) + (if to < t.len() {
        ellipsis()
    } else {
        Seq::empty()
    })
}

/// The index at which a snippet starts lies in the trimmed line.
pub proof fn lemma_boundary_in_line(t: Seq<char>, desired: int, i: int)
    requires
        0 <= i <= t.len(),
    ensures
        i <= boundary_at_or_past(t, desired, i) <= t.len(),
    decreases t.len() - i,
{
    if i < t.len() && byte_len(t.take(i)) < desired {
        lemma_boundary_in_line(t, desired, i + 1);
    }
}

/// A snippet is a run of whole characters of the trimmed line, with the
/// marks of what was cut around it: it never holds a part of a character.
pub proof fn lemma_snippet_holds_whole_characters(line: Seq<char>, match_start: int, max_length: int, backward: int)
    requires
        max_length >= 0,
    ensures
        0 <= snippet_from(line, match_start, backward) <= snippet_to(line, match_start, max_length, backward) <= trimmed(line).len(),
        snippet_of(line, match_start, max_length, backward) == (if snippet_from(line, match_start, backward) > 0 {
            ellipsis()
        } else {
            Seq::empty()
        }) + trimmed(line).subrange(snippet_from(line, match_start, backward), snippet_to(line, match_start, max_length, backward)) + (if snippet_to(
            line,
            match_start,
            max_length,
            backward,
        ) < trimmed(line).len() {
            ellipsis()
        } else {
            Seq::empty()
        }),
{
    let dropped = byte_len(line.take(first_non_space(line, 0)));
    let desired = minus_or_zero(minus_or_zero(match_start, dropped), backward);
    lemma_boundary_in_line(trimmed(line), desired, 0);
}

/// Whether `c` is white space.
pub fn white_space(c: char) -> (space: bool)
    ensures
        space == is_white_space(c),
{
    let v: u32 = c as u32;
    (0x09 <= v && v <= 0x0D) || v == 0x20 || v == 0x85 || v == 0xA0 || v == 0x1680 || (0x2000 <= v
        && v <= 0x200A) || v == 0x2028 || v == 0x2029 || v == 0x202F || v == 0x205F || v == 0x3000
}

/// The number of bytes of `c` in UTF-8.
pub fn char_width(c: char) -> (width: usize)
    ensures
        width == utf8_width(c),
        1 <= width <= 4,
{
    let v: u32 = c as u32;
    if v < 0x80 {
        1
    } else if v < 0x800 {
        2
    } else if v < 0x10000 {
        3
    } else {
        4
    }
}

/// The index of the first character of `chars` that is not white space.
pub fn trim_start_index(chars: &Vec<char>) -> (from: usize)
    ensures
        from == first_non_space(chars@, 0),
        from <= chars.len(),
{
    let mut i: usize = 0;
    while i < chars.len() && white_space(chars[i])
        invariant
            i <= chars.len(),
            first_non_space(chars@, 0) == first_non_space(chars@, i as int),
        decreases chars.len() - i,
    {
        i += 1;
    }
    i
}

/// The index just after the last character of `chars` that is not white
/// space.
pub fn trim_end_index(chars: &Vec<char>) -> (to: usize)
    ensures
        to == last_non_space_end(chars@, chars.len() as int),
        to <= chars.len(),
{
    let mut j: usize = chars.len();
    while j > 0 && white_space(chars[j - 1])
        invariant
            j <= chars.len(),
            last_non_space_end(chars@, chars.len() as int) == last_non_space_end(chars@, j as int),
        decreases j,
    {
        j -= 1;
    }
    j
}

/// The byte offset of the match once the leading white space is gone.
fn offset_after_trim(chars: &Vec<char>, lead: usize, match_start: usize) -> (rel: usize)
    requires
        lead <= chars.len(),
    ensures
        rel == minus_or_zero(match_start as int, byte_len(chars@.take(lead as int))),
{
    let mut rel: usize = match_start;
    let mut i: usize = 0;
    assert(chars@.take(0) =~= Seq::<char>::empty());
    while i < lead
        invariant
            i <= lead <= chars.len(),
            byte_len(chars@.take(i as int)) >= 0,
            rel == minus_or_zero(match_start as int, byte_len(chars@.take(i as int))),
        decreases lead - i,
    {
        let w = char_width(chars[i]);
        assert(chars@.take(i + 1).drop_last() =~= chars@.take(i as int));
        rel = if rel > w { rel - w } else { 0 };
        i += 1;
    }
    rel
}

/// The index of the first character of `t` that starts at byte `desired`
/// or later.
fn boundary_index(t: &Vec<char>, desired: usize) -> (from: usize)
    ensures
        from == boundary_at_or_past(t@, desired as int, 0),
        from <= t.len(),
{
    let mut k: usize = 0;
    let mut off: usize = 0;
    assert(t@.take(0) =~= Seq::<char>::empty());
    while k < t.len() && off < desired
        invariant
            k <= t.len(),
            off == byte_len(t@.take(k as int)),
            boundary_at_or_past(t@, desired as int, 0) == boundary_at_or_past(t@, desired as int, k as int),
        decreases t.len() - k,
    {
        let w = char_width(t[k]);
        assert(t@.take(k + 1).drop_last() =~= t@.take(k as int));
        if w >= desired - off {
            assert(byte_len(t@.take(k + 1)) >= desired);
            assert(boundary_at_or_past(t@, desired as int, k as int) == boundary_at_or_past(t@, desired as int, k + 1));
            assert(boundary_at_or_past(t@, desired as int, k + 1) == k + 1);
            return k + 1;
        }
        off += w;
        k += 1;
    }
    k
}

/// The snippet of `line` around a match that starts at byte `match_start`.
pub fn extract_snippet_static(line: &str, match_start: usize, max_length: usize, backward_chars: usize) -> (snippet: String)
    ensures
        snippet@ == snippet_of(line@, match_start as int, max_length as int, backward_chars as int),
{
    let chars = to_chars(line);
    let lead = trim_start_index(&chars);
    let tail = trim_end_index(&chars);
    let mut t: Vec<char> = Vec::new();
    let mut i: usize = lead;
    while i < tail
        invariant
            lead <= chars.len(),
            tail <= chars.len(),
            lead <= i,
            i <= tail || lead >= tail,
            t@ == if lead < tail { chars@.subrange(lead as int, i as int) } else { Seq::<char>::empty() },
        decreases tail - i,
    {
        t.push(chars[i]);
        assert(chars@.subrange(lead as int, i + 1) =~= chars@.subrange(lead as int, i as int).push(chars@[i as int]));
        i += 1;
    }
    assert(t@ =~= trimmed(line@));
    let rel = offset_after_trim(&chars, lead, match_start);
    let desired: usize = if rel > backward_chars { rel - backward_chars } else { 0 };
    let from = boundary_index(&t, desired);
    let to: usize = if max_length < t.len() - from { from + max_length } else { t.len() };
    let mut snippet = String::new();
    if from > 0 {
        snippet.push('.');
        snippet.push('.');
        snippet.push('.');
    }
    let ghost head = snippet@;
    assert(head =~= if from > 0 { ellipsis() } else { Seq::<char>::empty() });
    let mut k: usize = from;
    while k < to
        invariant
            from <= k <= to <= t.len(),
            snippet@ == head + t@.subrange(from as int, k as int),
        decreases to - k,
    {
        snippet.push(t[k]);
        assert(t@.subrange(from as int, k + 1) =~= t@.subrange(from as int, k as int).push(t@[k as int]));
        k += 1;
    }
    let ghost body = snippet@;
    if to < t.len() {
        snippet.push('.');
        snippet.push('.');
        snippet.push('.');
    }
    assert(snippet@ =~= body + (if to < t.len() { ellipsis() } else { Seq::<char>::empty() }));
    snippet
}

impl FileSystemService {
    /// The snippet of `line` around `match_result`, with at most
    /// `max_length` characters (200 where it is not given), starting
    /// `backward_chars` bytes before the match (30 where it is not given).
    pub fn extract_snippet(&self, line: &str, match_result: Match, max_length: Option<usize>, backward_chars: Option<usize>) -> (snippet: String)
        ensures
            snippet@ == snippet_of(
                line@,
                match_result.start as int,
                (if max_length is Some { max_length->0 } else { SNIPPET_MAX_LENGTH }) as int,
                (if backward_chars is Some { backward_chars->0 } else { SNIPPET_BACKWARD_CHARS }) as int,
            ),
    {
        let max_length = match max_length {
            Some(n) => n,
            None => SNIPPET_MAX_LENGTH,
        };
        let backward_chars = match backward_chars {
            Some(n) => n,
            None => SNIPPET_BACKWARD_CHARS,
        };
        extract_snippet_static(line, match_result.start(), max_length, backward_chars)
    }
}

} // verus!
