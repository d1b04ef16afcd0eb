//! Line-addressed reads: a window of lines counted from the start of a
//! file, kept byte for byte, or from its end, rejoined with the file's own
//! line ending.

use vstd::prelude::*;
use crate::service::FileSystemService;

verus! {

/// The line feed byte.
pub const LF: u8 = 10;

/// The carriage return byte.
pub const CR: u8 = 13;

/// A line starts at offset `p` when `p` is the first byte of the content or
/// the byte just after a line feed.
pub open spec fn is_line_start(s: Seq<u8>, p: int) -> bool {
    0 <= p < s.len() && (p == 0 || s[p - 1] == LF)
}

/// The offsets below `i` at which a line starts, in increasing order.
pub open spec fn starts_upto(s: Seq<u8>, i: nat) -> Seq<int>
    decreases i,
{
    if i == 0 {
        Seq::empty()
    } else if is_line_start(s, i - 1) {
        starts_upto(s, (i - 1) as nat).push(i - 1)
    } else {
        starts_upto(s, (i - 1) as nat)
    }
}

/// The offsets at which the lines of `s` start.
pub open spec fn line_starts(s: Seq<u8>) -> Seq<int> {
    starts_upto(s, s.len())
}

/// The number of lines of `s`; a last line without a line feed counts.
pub open spec fn line_count(s: Seq<u8>) -> nat {
    line_starts(s).len()
}

/// The offset at which line `k` starts, or the length of `s` when there is
/// no such line.
pub open spec fn line_start_or_end(s: Seq<u8>, k: int) -> int {
    if 0 <= k < line_count(s) {
        line_starts(s)[k]
    } else {
        s.len() as int
    }
}

/// Line `k` with its terminator, as it stands in `s`.
pub open spec fn raw_line(s: Seq<u8>, k: int) -> Seq<u8> {
    s.subrange(line_start_or_end(s, k), line_start_or_end(s, k + 1))
}

/// `line` without its final line feed, and without the carriage return
/// before that line feed.
pub open spec fn strip_line_ending(line: Seq<u8>) -> Seq<u8> {
    if line.len() > 0 && line.last() == LF {
        let body = line.drop_last();
        if body.len() > 0 && body.last() == CR {
            body.drop_last()
        } else {
            body
        }
    } else {
        line
    }
}

/// Whether a carriage return directly followed by a line feed occurs in `s`.
pub open spec fn has_crlf(s: Seq<u8>) -> bool {
    exists|i: int| 0 <= i && i + 1 < s.len() && s[i] == CR && #[trigger] s[i + 1] == LF
}

/// The line ending of `s` as a whole: CR LF if that pair occurs anywhere,
/// else LF.
pub open spec fn dominant_ending(s: Seq<u8>) -> Seq<u8> {
    if has_crlf(s) {
        seq![CR, LF]
    } else {
        seq![LF]
    }
}

/// The window read from the start: `offset` lines are skipped, then up to
/// `limit` lines are taken, terminators included.
pub open spec fn head_window(s: Seq<u8>, offset: nat, limit: Option<nat>) -> Seq<u8> {
    if offset >= line_count(s) || limit == Some(0nat) {
        Seq::empty()
    } else {
        let stop = match limit {
            Some(l) => line_start_or_end(s, (offset + l) as int),
            None => s.len() as int,
        };
        s.subrange(line_starts(s)[offset as int], stop)
    }
}

/// The lines `lo..hi` of `s`, each without its terminator, with `ending`
/// between two neighbours.
pub open spec fn joined_lines(s: Seq<u8>, lo: int, hi: int, ending: Seq<u8>) -> Seq<u8>
    decreases hi - lo,
{
    if lo >= hi {
        Seq::empty()
    } else if lo + 1 == hi {
        strip_line_ending(raw_line(s, lo))
    } else {
        joined_lines(s, lo, hi - 1, ending) + ending + strip_line_ending(raw_line(s, hi - 1))
    }
}

/// How many lines a read from the end takes: all that are left after
/// `offset` lines were skipped from the end, at most `limit`.
pub open spec fn tail_take(s: Seq<u8>, offset: nat, limit: Option<nat>) -> int {
    let left = line_count(s) - offset;
    match limit {
        Some(l) => if l < left { l as int } else { left },
        None => left,
    }
}

/// The window read from the end: `offset` lines are skipped from the end,
/// up to `limit` lines before them are taken in their order in the file and
/// joined with the file's line ending. The ending also closes the window
/// when nothing was skipped and the file ends with a line feed.
pub open spec fn tail_window(s: Seq<u8>, offset: nat, limit: Option<nat>) -> Seq<u8> {
    if offset >= line_count(s) || limit == Some(0nat) {
        Seq::empty()
    } else {
        let hi = line_count(s) - offset;
        let lo = hi - tail_take(s, offset, limit);
        let body = joined_lines(s, lo, hi, dominant_ending(s));
        if offset == 0 && s.last() == LF {
            body + dominant_ending(s)
        } else {
            body
        }
    }
}

/// What a line-addressed read returns.
pub open spec fn line_window(s: Seq<u8>, offset: nat, limit: Option<nat>, from_end: bool) -> Seq<u8> {
    if from_end {
        tail_window(s, offset, limit)
    } else {
        head_window(s, offset, limit)
    }
}

/// The limit of a read as a natural number.
pub open spec fn limit_nat(limit: Option<usize>) -> Option<nat> {
    match limit {
        Some(l) => Some(l as nat),
        None => None,
    }
}

/// Every offset in `starts_upto(s, i)` is a line start below `i`, and the
/// offsets increase.
pub proof fn lemma_starts_upto(s: Seq<u8>, i: nat)
    requires
        i <= s.len(),
    ensures
        starts_upto(s, i).len() <= i,
        forall|j: int| 0 <= j < starts_upto(s, i).len() ==> is_line_start(s, #[trigger] starts_upto(s, i)[j]) && starts_upto(s, i)[j] < i,
        forall|j: int, k: int| 0 <= j < k < starts_upto(s, i).len() ==> starts_upto(s, i)[j] < starts_upto(s, i)[k],
    decreases i,
{
    if i > 0 {
        lemma_starts_upto(s, (i - 1) as nat);
    }
}

/// The line starts below `j` are the first of the line starts below `k`.
pub proof fn lemma_starts_prefix(s: Seq<u8>, j: nat, k: nat)
    requires
        j <= k,
    ensures
        starts_upto(s, j).len() <= starts_upto(s, k).len(),
        starts_upto(s, j) == starts_upto(s, k).take(starts_upto(s, j).len() as int),
    decreases k,
{
    if j < k {
        lemma_starts_prefix(s, j, (k - 1) as nat);
        assert(starts_upto(s, j) =~= starts_upto(s, k).take(starts_upto(s, j).len() as int));
    } else {
        assert(starts_upto(s, j) =~= starts_upto(s, k).take(starts_upto(s, j).len() as int));
    }
}

/// The offset at which line `n` of `content` starts, if it has that line.
pub fn nth_line_start(content: &[u8], n: usize) -> (found: Option<usize>)
    ensures
        found is Some <==> n < line_count(content@),
        found is Some ==> found->0 == line_starts(content@)[n as int] && found->0 < content.len(),
{
    let mut seen: usize = 0;
    let mut i: usize = 0;
    while i < content.len()
        invariant
            i <= content.len(),
            seen == starts_upto(content@, i as nat).len(),
            seen <= n,
        decreases content.len() - i,
    {
        if i == 0 || content[i - 1] == LF {
            proof {
                lemma_starts_prefix(content@, (i + 1) as nat, content@.len());
                assert(is_line_start(content@, i as int));
                assert(starts_upto(content@, (i + 1) as nat) == starts_upto(content@, i as nat).push(i as int));
                assert(line_starts(content@).take(seen + 1)[seen as int] == i);
            }
            if seen == n {
                return Some(i);
            }
            seen += 1;
        }
        i += 1;
    }
    None
}

/// The offsets at which the lines of `content` start.
pub fn line_start_offsets(content: &[u8]) -> (starts: Vec<usize>)
    ensures
        starts@.len() == line_count(content@),
        forall|k: int| 0 <= k < starts@.len() ==> starts@[k] as int == #[trigger] line_starts(content@)[k],
{
    let mut starts: Vec<usize> = Vec::new();
    let mut i: usize = 0;
    while i < content.len()
        invariant
            i <= content.len(),
            starts@.len() == starts_upto(content@, i as nat).len(),
            forall|k: int| 0 <= k < starts@.len() ==> starts@[k] as int == #[trigger] starts_upto(content@, i as nat)[k],
        decreases content.len() - i,
    {
        if i == 0 || content[i - 1] == LF {
            starts.push(i);
        }
        i += 1;
    }
    starts
}

/// Whether CR LF occurs in `content`.
pub fn contains_crlf(content: &[u8]) -> (found: bool)
    ensures
        found == has_crlf(content@),
{
    let mut i: usize = 1;
    while i < content.len()
        invariant
            1 <= i,
            forall|j: int| 0 <= j && j + 1 < i && j + 1 < content.len() ==> !(content@[j] == CR && #[trigger] content@[j + 1] == LF),
        decreases content.len() - i,
    {
        if content[i - 1] == CR && content[i] == LF {
            assert(content@[(i - 1) as int] == CR && content@[(i - 1) + 1] == LF);
            return true;
        }
        i += 1;
    }
    false
}

/// Appends the bytes `from..to` of `content` to `out`.
pub fn append_range(out: &mut Vec<u8>, content: &[u8], from: usize, to: usize)
    requires
        from <= to <= content.len(),
    ensures
        final(out)@ == old(out)@ + content@.subrange(from as int, to as int),
{
    let mut i: usize = from;
    while i < to
        invariant
            from <= i <= to <= content.len(),
            out@ == old(out)@ + content@.subrange(from as int, i as int),
        decreases to - i,
    {
        out.push(content[i]);
        assert(content@.subrange(from as int, i + 1) =~= content@.subrange(from as int, i as int).push(content@[i as int]));
        i += 1;
    }
    assert(content@.subrange(from as int, from as int) =~= Seq::<u8>::empty());
}

/// Appends the line ending to `out`: CR LF if `crlf`, else LF.
fn push_ending(out: &mut Vec<u8>, crlf: bool)
    ensures
        final(out)@ == old(out)@ + (if crlf {
            seq![CR, LF]
        } else {
            seq![LF]
        }),
{
    if crlf {
        out.push(CR);
        out.push(LF);
        assert(out@ =~= old(out)@ + seq![CR, LF]);
    } else {
        out.push(LF);
        assert(out@ =~= old(out)@ + seq![LF]);
    }
}

/// A nonempty content has its first line at offset 0.
pub proof fn lemma_first_line_start(s: Seq<u8>)
    requires
        s.len() > 0,
    ensures
        line_count(s) > 0,
        line_starts(s)[0] == 0,
{
    lemma_starts_prefix(s, 1, s.len());
    assert(starts_upto(s, 0) =~= Seq::<int>::empty());
    assert(is_line_start(s, 0));
    assert(starts_upto(s, 1) =~= Seq::<int>::empty().push(0));
    assert(line_starts(s).take(1)[0] == 0);
}

/// Reads a window of lines from the start of `content`.
pub fn read_head(content: &[u8], offset: usize, limit: Option<usize>) -> (window: Vec<u8>)
    ensures
        window@ == head_window(content@, offset as nat, limit_nat(limit)),
{
    let mut window: Vec<u8> = Vec::new();
    if let Some(l) = limit {
        if l == 0 {
            return window;
        }
    }
    proof {
        lemma_starts_upto(content@, content@.len());
    }
    match nth_line_start(content, offset) {
        None => window,
        Some(begin) => {
            let stop = match limit {
                None => content.len(),
                Some(l) => {
                    if l > usize::MAX - offset {
                        content.len()
                    } else {
                        match nth_line_start(content, offset + l) {
                            Some(p) => p,
                            None => content.len(),
                        }
                    }
                },
            };
            append_range(&mut window, content, begin, stop);
            window
        },
    }
}

/// Reads a window of lines from the end of `content`.
pub fn read_tail(content: &[u8], offset: usize, limit: Option<usize>) -> (window: Vec<u8>)
    ensures
        window@ == tail_window(content@, offset as nat, limit_nat(limit)),
{
    let mut window: Vec<u8> = Vec::new();
    if let Some(l) = limit {
        if l == 0 {
            return window;
        }
    }
    let starts = line_start_offsets(content);
    let n = starts.len();
    if offset >= n {
        return window;
    }
    proof {
        lemma_starts_upto(content@, content@.len());
    }
    let hi: usize = n - offset;
    let take: usize = match limit {
        Some(l) => if l < hi { l } else { hi },
        None => hi,
    };
    let lo: usize = hi - take;
    let crlf = contains_crlf(content);
    let ghost ending = dominant_ending(content@);
    let mut k: usize = lo;
    while k < hi
        invariant
            lo <= k <= hi <= n,
            n == line_count(content@),
            starts@.len() == n,
            forall|j: int| 0 <= j < n ==> starts@[j] as int == #[trigger] line_starts(content@)[j],
            forall|j: int| 0 <= j < n ==> 0 <= #[trigger] line_starts(content@)[j] < content@.len(),
            forall|i: int, j: int| 0 <= i < j < n ==> line_starts(content@)[i] < line_starts(content@)[j],
            crlf == has_crlf(content@),
            ending == dominant_ending(content@),
            window@ == joined_lines(content@, lo as int, k as int, ending),
        decreases hi - k,
    {
        if k > lo {
            push_ending(&mut window, crlf);
        }
        let begin: usize = starts[k];
        let end: usize = if k + 1 < n { starts[k + 1] } else { content.len() };
        assert(begin as int == line_start_or_end(content@, k as int));
        assert(end as int == line_start_or_end(content@, k + 1));
        let ghost raw = raw_line(content@, k as int);
        assert(raw == content@.subrange(begin as int, end as int));
        let mut stop: usize = end;
        if stop > begin && content[stop - 1] == LF {
            stop -= 1;
            if stop > begin && content[stop - 1] == CR {
                stop -= 1;
            }
        }
        assert(content@.subrange(begin as int, stop as int) =~= strip_line_ending(raw));
        append_range(&mut window, content, begin, stop);
        assert(joined_lines(content@, lo as int, k + 1, ending) =~= window@) by {
            if k == lo {
                assert(joined_lines(content@, lo as int, lo as int, ending) =~= Seq::<u8>::empty());
            }
        }
        k += 1;
    }
    if offset == 0 && content[content.len() - 1] == LF {
        push_ending(&mut window, crlf);
    }
    window
}

/// Whether `s` ends with a line feed.
pub open spec fn ends_with_lf(s: Seq<u8>) -> bool {
    s.len() > 0 && s.last() == LF
}

/// Reading a whole file from the end keeps its final line feed and adds
/// none: the window ends with a line feed exactly when the file does.
pub proof fn lemma_tail_keeps_final_newline(s: Seq<u8>)
    ensures
        ends_with_lf(tail_window(s, 0, None)) == ends_with_lf(s),
{
    if s.len() > 0 {
        lemma_first_line_start(s);
        lemma_starts_upto(s, s.len());
        let n = line_count(s) as int;
        let ending = dominant_ending(s);
        let body = joined_lines(s, 0, n, ending);
        if s.last() == LF {
            assert((body + ending).last() == LF);
        } else {
            let last_line = raw_line(s, n - 1);
            assert(last_line.len() > 0);
            assert(last_line.last() == s.last());
            assert(strip_line_ending(last_line) == last_line);
            if n > 1 {
                assert(body == joined_lines(s, 0, n - 1, ending) + ending + last_line);
            }
            assert(body.last() == s.last());
        }
    }
}

impl FileSystemService {
    /// Reads lines from `content`, the bytes of a text file.
    ///
    /// From the start, `offset` lines are skipped and up to `limit` lines
    /// are returned as they stand in the file, terminators included. From
    /// the end, `offset` lines are skipped backwards and up to `limit`
    /// lines before them are returned in file order, joined with the
    /// file's line ending. Without a limit the window runs to the end of
    /// what is left.
    pub fn read_file_lines(&self, content: &[u8], offset: usize, limit: Option<usize>, from_end: bool) -> (window: Vec<u8>)
        ensures
            window@ == line_window(content@, offset as nat, limit_nat(limit), from_end),
            offset >= line_count(content@) ==> window@.len() == 0,
            limit == Some(0usize) ==> window@.len() == 0,
            content@.len() == 0 ==> window@.len() == 0,
            !from_end && offset == 0 && limit is None ==> window@ == content@,
    {
        proof {
            lemma_starts_upto(content@, content@.len());
            if content@.len() > 0 {
                lemma_first_line_start(content@);
                assert(content@.subrange(0, content@.len() as int) =~= content@);
            }
        }
        if from_end {
            read_tail(content, offset, limit)
        } else {
            read_head(content, offset, limit)
        }
    }
}

} // verus!
