//! A unified diff of two texts: one hunk from the first line that differs
//! to the last, with three lines of context on each side.

use vstd::prelude::*;
use vstd::string::StringExecFns;
use crate::chars::to_chars;
use crate::decimal::{decimal, push_decimal};
use crate::render::push_chars;
use crate::sandbox::same_chars;

verus! {

/// How many lines that did not change are shown on each side of a hunk.
pub const CONTEXT_LINES: usize = 3;

/// The lines of `s` from index `i` on, each with its line feed, after the
/// lines `done` and the begun line `current`.
pub open spec fn chunks_from(s: Seq<char>, i: int, current: Seq<char>, done: Seq<Seq<char>>) -> Seq<Seq<char>>
    decreases s.len() - i,
{
    if i >= s.len() || i < 0 {
        if current.len() > 0 {
            done.push(current)
        } else {
            done
        }
    } else if s[i] == '\n' {
        chunks_from(s, i + 1, Seq::empty(), done.push(current.push('\n')))
    } else {
        chunks_from(s, i + 1, current.push(s[i]), done)
    }
}

/// The lines of `s`, each with its line feed; the last line has none
/// where `s` does not end with one.
pub open spec fn text_chunks(s: Seq<char>) -> Seq<Seq<char>> {
    chunks_from(s, 0, Seq::empty(), Seq::empty())
}

/// The first `n` of `lines`, one after the other.
pub open spec fn flat(lines: Seq<Seq<char>>, n: int) -> Seq<char>
    decreases n,
{
    if n <= 0 || n > lines.len() {
        Seq::empty()
    } else {
        flat(lines, n - 1) + lines[n - 1]
    }
}

/// How many lines `a` and `b` have in common at their start, from line
/// `p` on counted.
pub open spec fn common_prefix_from(a: Seq<Seq<char>>, b: Seq<Seq<char>>, p: int) -> int
    decreases a.len() - p,
{
    if p < 0 || p >= a.len() || p >= b.len() || a[p] != b[p] {
        p
    } else {
        common_prefix_from(a, b, p + 1)
    }
}

/// How many lines `a` and `b` have in common at their end, at most
/// `limit`, from `s` on counted.
pub open spec fn common_suffix_from(a: Seq<Seq<char>>, b: Seq<Seq<char>>, limit: int, s: int) -> int
    decreases limit - s,
{
    if s < 0 || s >= limit || s >= a.len() || s >= b.len() || a[a.len() - 1 - s] != b[b.len() - 1 - s] {
        s
    } else {
        common_suffix_from(a, b, limit, s + 1)
    }
}

/// The place at which two texts differ: the number of lines they have in
/// common at the start, and at the end after those.
pub ghost struct Change {
    pub prefix: int,
    pub suffix: int,
}

/// The change from the lines `a` to the lines `b`.
pub open spec fn change_between(a: Seq<Seq<char>>, b: Seq<Seq<char>>) -> Change {
    let prefix = common_prefix_from(a, b, 0);
    let shorter = if a.len() < b.len() { a.len() as int } else { b.len() as int };
    Change { prefix, suffix: common_suffix_from(a, b, shorter - prefix, 0) }
}

/// A line of a hunk: the mark and the line; a line without a line feed
/// is closed, and followed by a note that it had none.
pub open spec fn marked_line(mark: char, line: Seq<char>) -> Seq<char> {
    if line.len() > 0 && line.last() == '\n' {
        seq![mark] + line
    } else {
        seq![mark] + line + "\n\\ No newline at end of file\n"@
    }
}

/// The lines `from..to` of `lines`, each with the mark.
pub open spec fn marked(mark: char, lines: Seq<Seq<char>>, from: int, to: int) -> Seq<char>
    decreases to - from,
{
    if from >= to || from < 0 || to > lines.len() {
        Seq::empty()
    } else {
        marked(mark, lines, from, to - 1) + marked_line(mark, lines[to - 1])
    }
}

/// The first line of a range as a hunk header shows it: counted from 1,
/// and for an empty range the line before it.
pub open spec fn shown_start(first: int, count: int) -> int {
    if count == 0 {
        first
    } else {
        first + 1
    }
}

/// The first line of a hunk: the ranges of the lines that it covers in
/// the old and in the new text.
pub open spec fn hunk_header(old_start: int, old_count: int, new_start: int, new_count: int) -> Seq<char> {
    "@@ -"@ + decimal(old_start as nat) + seq![','] + decimal(old_count as nat) + " +"@ + decimal(new_start as nat) + seq![','] + decimal(
        new_count as nat,
    ) + " @@\n"@
}

/// The lines of a hunk: the context before the change, the lines that
/// go, the lines that come, and the context after the change.
pub open spec fn hunk_body(a: Seq<Seq<char>>, b: Seq<Seq<char>>, first: int, prefix: int, removed_to: int, added_to: int, after: int) -> Seq<char> {
    marked(' ', a, first, prefix) + marked('-', a, prefix, removed_to) + marked('+', b, prefix, added_to) + marked(' ', a, removed_to, removed_to + after)
}

/// The hunk that turns the lines `a` into the lines `b`, or nothing where
/// they are the same.
pub open spec fn hunk_text(a: Seq<Seq<char>>, b: Seq<Seq<char>>) -> Seq<char> {
    let change = change_between(a, b);
    if change.prefix == a.len() && change.prefix == b.len() {
        Seq::empty()
    } else {
        let before = if change.prefix > CONTEXT_LINES { CONTEXT_LINES as int } else { change.prefix };
        let after = if change.suffix > CONTEXT_LINES { CONTEXT_LINES as int } else { change.suffix };
        let first = change.prefix - before;
        let removed_to = a.len() - change.suffix;
        let added_to = b.len() - change.suffix;
        let old_count = before + (removed_to - change.prefix) + after;
        let new_count = before + (added_to - change.prefix) + after;
        hunk_header(shown_start(first, old_count), old_count, shown_start(first, new_count), new_count) + hunk_body(
            a,
            b,
            first,
            change.prefix,
            removed_to,
            added_to,
            after,
        )
    }
}

/// The line of equals signs under the index line.
pub open spec fn rule() -> Seq<char> {
    "==================================================================="@
}

/// The unified diff from `original` to `modified`, under the name `name`.
pub open spec fn unified_diff_text(name: Seq<char>, original: Seq<char>, modified: Seq<char>) -> Seq<char> {
    "Index: "@ + name + seq!['\n'] + rule() + seq!['\n'] + "--- "@ + name + "\toriginal\n"@ + "+++ "@ + name + "\tmodified\n"@ + hunk_text(
        text_chunks(original),
        text_chunks(modified),
    )
}

/// The views of the lines.
pub open spec fn chunk_views(lines: Seq<Vec<char>>) -> Seq<Seq<char>> {
    Seq::new(lines.len(), |i: int| lines[i]@)
}

/// Splits `text` into its lines, each with its line feed.
pub fn split_chunks(text: &Vec<char>) -> (lines: Vec<Vec<char>>)
    ensures
        chunk_views(lines@) == text_chunks(text@),
{
    let mut lines: Vec<Vec<char>> = Vec::new();
    let mut current: Vec<char> = Vec::new();
    let mut i: usize = 0;
    assert(chunk_views(lines@) =~= Seq::<Seq<char>>::empty());
    while i < text.len()
        invariant
            i <= text.len(),
            chunks_from(text@, i as int, current@, chunk_views(lines@)) == text_chunks(text@),
        decreases text.len() - i,
    {
        let c = text[i];
        current.push(c);
        if c == '\n' {
            let ghost before = chunk_views(lines@);
            let ghost cur = current@;
            lines.push(current);
            assert(chunk_views(lines@) =~= before.push(cur));
            current = Vec::new();
        }
        i += 1;
    }
    if current.len() > 0 {
        let ghost before = chunk_views(lines@);
        let ghost cur = current@;
        lines.push(current);
        assert(chunk_views(lines@) =~= before.push(cur));
    }
    lines
}

/// Appends the lines `from..to` of `lines`, each with the mark.
fn push_marked(out: &mut String, mark: char, lines: &Vec<Vec<char>>, from: usize, to: usize)
    requires
        from <= to <= lines.len(),
    ensures
        final(out)@ == old(out)@ + marked(mark, chunk_views(lines@), from as int, to as int),
{
    let mut k: usize = from;
    assert(out@ =~= old(out)@ + marked(mark, chunk_views(lines@), from as int, from as int));
    while k < to
        invariant
            from <= k <= to <= lines.len(),
            out@ == old(out)@ + marked(mark, chunk_views(lines@), from as int, k as int),
        decreases to - k,
    {
        let line = &lines[k];
        let ghost before = out@;
        out.push(mark);
        push_chars(out, line);
        if !(line.len() > 0 && line[line.len() - 1] == '\n') {
            out.append("\n\\ No newline at end of file\n");
        }
        assert(chunk_views(lines@)[k as int] == line@);
        assert(out@ =~= before + marked_line(mark, line@));
        assert(out@ =~= old(out)@ + marked(mark, chunk_views(lines@), from as int, k + 1));
        k += 1;
    }
}

/// How many lines `a` and `b` have in common at the start, and at the
/// end after those.
fn find_change(a: &Vec<Vec<char>>, b: &Vec<Vec<char>>) -> (found: (usize, usize))
    ensures
        change_between(chunk_views(a@), chunk_views(b@)) == (Change { prefix: found.0 as int, suffix: found.1 as int }),
        found.0 + found.1 <= a@.len(),
        found.0 + found.1 <= b@.len(),
{
    let ghost av = chunk_views(a@);
    let ghost bv = chunk_views(b@);
    let a_len = a.len();
    let b_len = b.len();
    let mut prefix: usize = 0;
    while prefix < a_len && prefix < b_len && same_chars(&a[prefix], &b[prefix])
        invariant
            prefix <= a_len,
            prefix <= b_len,
            a_len == a@.len(),
            b_len == b@.len(),
            av == chunk_views(a@),
            bv == chunk_views(b@),
            common_prefix_from(av, bv, 0) == common_prefix_from(av, bv, prefix as int),
        decreases a_len - prefix,
    {
        assert(av[prefix as int] == bv[prefix as int]);
        prefix += 1;
    }
    proof {
        if prefix < a_len && prefix < b_len {
            assert(av[prefix as int] != bv[prefix as int]);
        }
    }
    let shorter = if a_len < b_len { a_len } else { b_len };
    let limit = shorter - prefix;
    let mut suffix: usize = 0;
    while suffix < limit && same_chars(&a[a_len - 1 - suffix], &b[b_len - 1 - suffix])
        invariant
            suffix <= limit,
            limit + prefix <= a_len,
            limit + prefix <= b_len,
            a_len == a@.len(),
            b_len == b@.len(),
            av == chunk_views(a@),
            bv == chunk_views(b@),
            common_suffix_from(av, bv, limit as int, 0) == common_suffix_from(av, bv, limit as int, suffix as int),
        decreases limit - suffix,
    {
        assert(av[a_len - 1 - suffix] == bv[b_len - 1 - suffix]);
        suffix += 1;
    }
    proof {
        if suffix < limit {
            assert(av[a_len - 1 - suffix] != bv[b_len - 1 - suffix]);
        }
    }
    (prefix, suffix)
}

/// Appends the first line of a hunk.
fn push_header(out: &mut String, old_start: usize, old_count: usize, new_start: usize, new_count: usize)
    ensures
        final(out)@ == old(out)@ + hunk_header(old_start as int, old_count as int, new_start as int, new_count as int),
{
    out.append("@@ -");
    push_decimal(out, old_start as u64);
    out.push(',');
    push_decimal(out, old_count as u64);
    out.append(" +");
    push_decimal(out, new_start as u64);
    out.push(',');
    push_decimal(out, new_count as u64);
    out.append(" @@\n");
    assert(out@ =~= old(out)@ + hunk_header(old_start as int, old_count as int, new_start as int, new_count as int));
}

/// Appends the lines of a hunk.
fn push_body(out: &mut String, a: &Vec<Vec<char>>, b: &Vec<Vec<char>>, first: usize, prefix: usize, removed_to: usize, added_to: usize, after: usize)
    requires
        first <= prefix <= removed_to,
        removed_to + after <= a@.len(),
        prefix <= added_to <= b@.len(),
    ensures
        final(out)@ == old(out)@ + hunk_body(
            chunk_views(a@),
            chunk_views(b@),
            first as int,
            prefix as int,
            removed_to as int,
            added_to as int,
            after as int,
        ),
{
    let total = a.len();
    push_marked(out, ' ', a, first, prefix);
    push_marked(out, '-', a, prefix, removed_to);
    push_marked(out, '+', b, prefix, added_to);
    push_marked(out, ' ', a, removed_to, removed_to + after);
    assert(out@ =~= old(out)@ + hunk_body(
        chunk_views(a@),
        chunk_views(b@),
        first as int,
        prefix as int,
        removed_to as int,
        added_to as int,
        after as int,
    ));
}

/// Appends the hunk that turns the lines `a` into the lines `b`.
fn push_hunk(out: &mut String, a: &Vec<Vec<char>>, b: &Vec<Vec<char>>)
    ensures
        final(out)@ == old(out)@ + hunk_text(chunk_views(a@), chunk_views(b@)),
{
    let a_len = a.len();
    let b_len = b.len();
    let (prefix, suffix) = find_change(a, b);
    if prefix == a_len && prefix == b_len {
        assert(out@ =~= old(out)@ + Seq::<char>::empty());
        return;
    }
    let before = if prefix > CONTEXT_LINES { CONTEXT_LINES } else { prefix };
    let after = if suffix > CONTEXT_LINES { CONTEXT_LINES } else { suffix };
    let first = prefix - before;
    let removed_to = a_len - suffix;
    let added_to = b_len - suffix;
    let old_count = before + (removed_to - prefix) + after;
    let new_count = before + (added_to - prefix) + after;
    let old_start = if old_count == 0 { first } else { first + 1 };
    let new_start = if new_count == 0 { first } else { first + 1 };
    push_header(out, old_start, old_count, new_start, new_count);
    let ghost mid = out@;
    push_body(out, a, b, first, prefix, removed_to, added_to, after);
    assert(out@ =~= old(out)@ + (hunk_header(old_start as int, old_count as int, new_start as int, new_count as int) + hunk_body(
        chunk_views(a@),
        chunk_views(b@),
        first as int,
        prefix as int,
        removed_to as int,
        added_to as int,
        after as int,
    )));
}

/// The unified diff from `original` to `modified`, under the name `name`.
pub fn unified_diff(name: &str, original: &str, modified: &str) -> (diff: String)
    ensures
        diff@ == unified_diff_text(name@, original@, modified@),
{
    let a = split_chunks(&to_chars(original));
    let b = split_chunks(&to_chars(modified));
    let mut diff = String::from_str("Index: ");
    diff.append(name);
    diff.push('\n');
    diff.append("===================================================================");
    diff.push('\n');
    diff.append("--- ");
    diff.append(name);
    diff.append("\toriginal\n");
    diff.append("+++ ");
    diff.append(name);
    diff.append("\tmodified\n");
    let ghost head = diff@;
    assert(head =~= "Index: "@ + name@ + seq!['\n'] + rule() + seq!['\n'] + "--- "@ + name@ + "\toriginal\n"@ + "+++ "@ + name@ + "\tmodified\n"@);
    push_hunk(&mut diff, &a, &b);
    diff
}

/// The length of the run of backticks that ends just before index `i`.
pub open spec fn run_before(s: Seq<char>, i: int) -> int
    decreases i,
{
    if i <= 0 || i > s.len() || s[i - 1] != '`' {
        0
    } else {
        run_before(s, i - 1) + 1
    }
}

/// The length of the longest run of backticks in the first `i`
/// characters.
pub open spec fn longest_run(s: Seq<char>, i: int) -> int
    decreases i,
{
    if i <= 0 || i > s.len() {
        0
    } else if run_before(s, i) > longest_run(s, i - 1) {
        run_before(s, i)
    } else {
        longest_run(s, i - 1)
    }
}

/// The number of backticks of the fence around `text`: three, or one
/// more than the longest run of backticks in `text` where that is more.
pub open spec fn fence_length(text: Seq<char>) -> int {
    let longest = longest_run(text, text.len() as int);
    if longest >= 3 {
        longest + 1
    } else {
        3
    }
}

/// `n` backticks.
pub open spec fn backticks(n: int) -> Seq<char> {
    Seq::new(if n > 0 { n as nat } else { 0 }, |i: int| '`')
}

/// `diff` in a fenced block that is marked as a diff.
pub open spec fn fenced(diff: Seq<char>) -> Seq<char> {
    backticks(fence_length(diff)) + "diff\n"@ + diff + backticks(fence_length(diff)) + "\n\n"@
}

/// Appends `n` backticks.
fn push_backticks(out: &mut String, n: u128)
    ensures
        final(out)@ == old(out)@ + backticks(n as int),
{
    let mut k: u128 = 0;
    assert(out@ =~= old(out)@ + backticks(0));
    while k < n
        invariant
            k <= n,
            out@ == old(out)@ + backticks(k as int),
        decreases n - k,
    {
        out.push('`');
        assert(out@ =~= old(out)@ + backticks(k + 1));
        k += 1;
    }
}

/// Puts `diff` into a fenced block that is marked as a diff. The fence is
/// longer than any run of backticks in the diff.
pub fn fence_diff(diff: &str) -> (block: String)
    ensures
        block@ == fenced(diff@),
{
    let chars = to_chars(diff);
    let mut longest: usize = 0;
    let mut run: usize = 0;
    let mut i: usize = 0;
    while i < chars.len()
        invariant
            i <= chars.len(),
            run == run_before(chars@, i as int),
            longest == longest_run(chars@, i as int),
            run <= i,
            longest <= i,
        decreases chars.len() - i,
    {
        if chars[i] == '`' {
            run += 1;
        } else {
            run = 0;
        }
        if run > longest {
            longest = run;
        }
        i += 1;
    }
    let n: u128 = if longest >= 3 { longest as u128 + 1 } else { 3 };
    let mut block = String::new();
    push_backticks(&mut block, n);
    block.append("diff\n");
    block.append(diff);
    push_backticks(&mut block, n);
    block.append("\n\n");
    assert(block@ =~= fenced(diff@));
    block
}

/// Lines that were pushed later do not change what the first `n` lines
/// are, one after the other.
pub proof fn lemma_flat_of_push(lines: Seq<Seq<char>>, line: Seq<char>, n: int)
    requires
        0 <= n <= lines.len(),
    ensures
        flat(lines.push(line), n) == flat(lines, n),
    decreases n,
{
    if n > 0 {
        lemma_flat_of_push(lines, line, n - 1);
    }
}

/// The lines of the rest of a text, one after the other, are what was
/// gathered before and that rest.
pub proof fn lemma_flat_chunks_from(s: Seq<char>, i: int, current: Seq<char>, done: Seq<Seq<char>>)
    requires
        0 <= i <= s.len(),
    ensures
        flat(chunks_from(s, i, current, done), chunks_from(s, i, current, done).len() as int) == flat(done, done.len() as int) + current + s.skip(i),
    decreases s.len() - i,
{
    if i >= s.len() {
        assert(s.skip(i) =~= Seq::<char>::empty());
        if current.len() > 0 {
            lemma_flat_of_push(done, current, done.len() as int);
            assert(flat(done.push(current), (done.len() + 1) as int) == flat(done.push(current), done.len() as int) + current);
        }
        assert(flat(done, done.len() as int) + current + s.skip(i) =~= flat(done, done.len() as int) + current);
    } else if s[i] == '\n' {
        let line = current.push('\n');
        lemma_flat_chunks_from(s, i + 1, Seq::empty(), done.push(line));
        lemma_flat_of_push(done, line, done.len() as int);
        assert(flat(done.push(line), (done.len() + 1) as int) == flat(done.push(line), done.len() as int) + line);
        assert(s.skip(i) =~= seq!['\n'] + s.skip(i + 1));
        assert(flat(done, done.len() as int) + line + Seq::<char>::empty() + s.skip(i + 1) =~= flat(done, done.len() as int) + current + s.skip(i));
    } else {
        lemma_flat_chunks_from(s, i + 1, current.push(s[i]), done);
        assert(s.skip(i) =~= seq![s[i]] + s.skip(i + 1));
        assert(flat(done, done.len() as int) + current.push(s[i]) + s.skip(i + 1) =~= flat(done, done.len() as int) + current + s.skip(i));
    }
}

/// The lines of a text, one after the other, are the text.
pub proof fn lemma_chunks_make_the_text(s: Seq<char>)
    ensures
        flat(text_chunks(s), text_chunks(s).len() as int) == s,
{
    lemma_flat_chunks_from(s, 0, Seq::empty(), Seq::empty());
    assert(s.skip(0) =~= s);
    assert(Seq::<char>::empty() + Seq::<char>::empty() + s =~= s);
}

/// The lines counted as a common start are the same in both texts.
pub proof fn lemma_common_prefix(a: Seq<Seq<char>>, b: Seq<Seq<char>>, p: int)
    requires
        0 <= p <= a.len(),
        p <= b.len(),
        forall|k: int| 0 <= k < p ==> a[k] == b[k],
    ensures
        p <= common_prefix_from(a, b, p) <= a.len(),
        common_prefix_from(a, b, p) <= b.len(),
        forall|k: int| 0 <= k < common_prefix_from(a, b, p) ==> a[k] == b[k],
    decreases a.len() - p,
{
    if !(p >= a.len() || p >= b.len() || a[p] != b[p]) {
        lemma_common_prefix(a, b, p + 1);
    }
}

/// The line of `a` that stands `k` lines before its last.
pub open spec fn from_end(a: Seq<Seq<char>>, k: int) -> Seq<char> {
    a[a.len() - 1 - k]
}

/// The lines counted as a common end are the same in both texts.
pub proof fn lemma_common_suffix(a: Seq<Seq<char>>, b: Seq<Seq<char>>, limit: int, s: int)
    requires
        0 <= s <= limit,
        limit <= a.len(),
        limit <= b.len(),
        forall|k: int| 0 <= k < s ==> #[trigger] from_end(a, k) == from_end(b, k),
    ensures
        s <= common_suffix_from(a, b, limit, s) <= limit,
        forall|k: int| 0 <= k < common_suffix_from(a, b, limit, s) ==> #[trigger] from_end(a, k) == from_end(b, k),
    decreases limit - s,
{
    if !(s >= limit || s >= a.len() || s >= b.len() || a[a.len() - 1 - s] != b[b.len() - 1 - s]) {
        lemma_common_suffix(a, b, limit, s + 1);
    }
}

/// The lines of the old text with the lines that a hunk takes out
/// replaced by the lines that it puts in.
pub open spec fn patched(a: Seq<Seq<char>>, b: Seq<Seq<char>>) -> Seq<Seq<char>> {
    let change = change_between(a, b);
    a.take(change.prefix) + b.subrange(change.prefix, b.len() - change.suffix) + a.skip(a.len() - change.suffix)
}

/// The diff applied to the old text gives the new text: the old lines,
/// with those between the common start and the common end replaced by the
/// lines that the hunk adds, are the new lines.
pub proof fn lemma_patch_gives_new_lines(a: Seq<Seq<char>>, b: Seq<Seq<char>>)
    ensures
        patched(a, b) == b,
{
    let change = change_between(a, b);
    lemma_common_prefix(a, b, 0);
    let shorter = if a.len() < b.len() { a.len() as int } else { b.len() as int };
    lemma_common_suffix(a, b, shorter - change.prefix, 0);
    assert(patched(a, b) =~= b) by {
        assert(patched(a, b).len() == b.len());
        assert forall|k: int| 0 <= k < b.len() implies patched(a, b)[k] == b[k] by {
            if k >= b.len() - change.suffix {
                let back = b.len() - 1 - k;
                assert(from_end(a, back) == from_end(b, back));
            }
        }
    }
}

/// The diff applied to the old text gives the new text, character for
/// character.
pub proof fn lemma_patch_gives_new_text(original: Seq<char>, modified: Seq<char>)
    ensures
        flat(patched(text_chunks(original), text_chunks(modified)), patched(text_chunks(original), text_chunks(modified)).len() as int) == modified,
{
    lemma_patch_gives_new_lines(text_chunks(original), text_chunks(modified));
    lemma_chunks_make_the_text(modified);
}

} // verus!
