//! Duplicate files: files of the same size whose first 4 KiB and whose
//! whole content have the same SHA-256 digest.

use vstd::prelude::*;
use vstd::slice::slice_subrange;
use sha2::Digest;
use vstd::string::StringExecFns;
use crate::content::SourceFile;
use crate::error::ServiceError;
use crate::grouping::{in_some_group, is_increasing, is_split, key_of, split_by_key, FileKey};
use crate::sandbox::path_allowed;
use crate::service::FileSystemService;
use crate::walk::{search_keeps, EntryKind, SearchFilter};

verus! {

/// How many bytes of a file the quick digest covers.
pub const HEAD_BYTES: usize = 4096;

/// The SHA-256 digest of `data`.
pub uninterp spec fn sha256_digest(data: Seq<u8>) -> Seq<u8>;

/// Computes `Sha256::digest` of the `sha2` crate. The digest depends on
/// the data alone; the contract gives it its name.
#[verifier::external_body]
pub(crate) fn sha256(data: &[u8]) -> (digest: Vec<u8>)
    ensures
        digest@ == sha256_digest(data@),
{
    sha2::Sha256::digest(data).to_vec()
}

/// The first 4 KiB of `content`, or all of it where it is shorter.
pub open spec fn head_of(content: Seq<u8>) -> Seq<u8> {
    if content.len() > HEAD_BYTES {
        content.take(HEAD_BYTES as int)
    } else {
        content
    }
}

/// The key of a file at a level of the comparison: its size alone at
/// level 0, with the digest of its head at level 1, with the digest of
/// its whole content at level 2.
pub open spec fn level_key(file: SourceFile, level: int) -> (u64, Seq<u8>) {
    (
        file.entry.size->0,
        if level <= 0 {
            Seq::empty()
        } else if level == 1 {
            sha256_digest(head_of(file.content->0@))
        } else {
            sha256_digest(file.content->0@)
        },
    )
}

/// Whether the size and the content of each of the files are known.
pub open spec fn all_read(files: Seq<SourceFile>, members: Seq<usize>) -> bool {
    forall|m: int|
        0 <= m < members.len() ==> (#[trigger] members[m]) < files.len() && files[members[m] as int].entry.size is Some
            && files[members[m] as int].content is Some
}

/// Whether `groups` split the files `members` by their keys at `level`:
/// each group holds at least two of them in increasing order, and with a
/// file all the files of the same key and no others; every file that
/// shares its key with another is in a group; no file is in two groups.
pub open spec fn splits_files(groups: Seq<Vec<usize>>, files: Seq<SourceFile>, members: Seq<usize>, level: int) -> bool {
    &&& forall|g: int| 0 <= g < groups.len() ==> (#[trigger] groups[g])@.len() >= 2 && is_increasing(groups[g]@)
    &&& forall|g: int, k: int| 0 <= g < groups.len() && 0 <= k < groups[g]@.len() ==> members.contains(#[trigger] groups[g]@[k])
    &&& forall|g: int, x: usize, y: usize|
        #![trigger groups[g]@.contains(x), members.contains(y)]
        0 <= g < groups.len() && groups[g]@.contains(x) && members.contains(y) ==> (groups[g]@.contains(y) <==> level_key(files[x as int], level)
            == level_key(files[y as int], level))
    &&& forall|x: usize, y: usize|
        #![trigger members.contains(x), members.contains(y)]
        members.contains(x) && members.contains(y) && x != y && level_key(files[x as int], level) == level_key(files[y as int], level)
            ==> in_some_group(groups, x)
    &&& forall|g: int, h: int, x: usize|
        #![trigger groups[g]@.contains(x), groups[h]@.contains(x)]
        0 <= g < groups.len() && 0 <= h < groups.len() && g != h ==> !(groups[g]@.contains(x) && groups[h]@.contains(x))
}

/// The key of `file` at `level`: its size, and at level 1 the digest of
/// its first 4 KiB, at level 2 the digest of its whole content.
pub fn key_at_level(file: &SourceFile, level: u8) -> (key: FileKey)
    requires
        file.entry.size is Some,
        file.content is Some,
        level <= 2,
    ensures
        key_of(key) == level_key(*file, level as int),
{
    let size = match file.entry.size {
        Some(size) => size,
        None => 0,
    };
    let digest = match &file.content {
        Some(content) => {
            if level == 0 {
                Vec::new()
            } else if level == 1 {
                if content.len() > HEAD_BYTES {
                    let head = slice_subrange(content.as_slice(), 0, HEAD_BYTES);
                    assert(head@ =~= head_of(content@));
                    sha256(head)
                } else {
                    sha256(content.as_slice())
                }
            } else {
                sha256(content.as_slice())
            }
        },
        None => Vec::new(),
    };
    FileKey { size, digest }
}

/// Splits the files `members` by their keys at `level`.
pub fn split_files(files: &Vec<SourceFile>, members: &Vec<usize>, level: u8) -> (groups: Vec<Vec<usize>>)
    requires
        is_increasing(members@),
        all_read(files@, members@),
        level <= 2,
    ensures
        splits_files(groups@, files@, members@, level as int),
{
    let mut keys: Vec<FileKey> = Vec::new();
    let mut m: usize = 0;
    while m < members.len()
        invariant
            m <= members.len(),
            all_read(files@, members@),
            level <= 2,
            keys@.len() == m,
            forall|i: int| 0 <= i < m ==> key_of(#[trigger] keys@[i]) == level_key(files@[members@[i] as int], level as int),
        decreases members.len() - m,
    {
        let key = key_at_level(&files[members[m]], level);
        keys.push(key);
        m += 1;
    }
    let groups = split_by_key(&keys, members);
    proof {
        let gs = groups@;
        let ms = members@;
        assert(is_split(gs, keys@, ms));
        assert forall|g: int, x: usize, y: usize|
            #![trigger gs[g]@.contains(x), ms.contains(y)]
            0 <= g < gs.len() && gs[g]@.contains(x) && ms.contains(y) implies (gs[g]@.contains(y) <==> level_key(files@[x as int], level as int)
            == level_key(files@[y as int], level as int)) by {
            let k = choose|k: int| 0 <= k < gs[g]@.len() && gs[g]@[k] == x;
            assert(ms.contains(gs[g]@[k]));
            let m1 = choose|i: int| 0 <= i < ms.len() && ms[i] == x;
            let m2 = choose|i: int| 0 <= i < ms.len() && ms[i] == y;
            assert(gs[g]@.contains(ms[m1]));
            assert(gs[g]@.contains(ms[m2]) <==> key_of(keys@[m1]) == key_of(keys@[m2]));
        }
        assert forall|x: usize, y: usize|
            #![trigger ms.contains(x), ms.contains(y)]
            ms.contains(x) && ms.contains(y) && x != y && level_key(files@[x as int], level as int) == level_key(files@[y as int], level as int) implies in_some_group(
            gs,
            x,
        ) by {
            let m1 = choose|i: int| 0 <= i < ms.len() && ms[i] == x;
            let m2 = choose|i: int| 0 <= i < ms.len() && ms[i] == y;
            assert(key_of(keys@[m1]) == key_of(keys@[m2]));
            assert(in_some_group(gs, ms[m1]));
        }
    }
    groups
}

/// Whether two files have the same keys at every level up to `level`.
pub open spec fn same_up_to(a: SourceFile, b: SourceFile, level: int) -> bool {
    &&& level_key(a, 0) == level_key(b, 0)
    &&& (level >= 1 ==> level_key(a, 1) == level_key(b, 1))
    &&& (level >= 2 ==> level_key(a, 2) == level_key(b, 2))
}

/// Whether `groups` are the classes of the files `members` under "same
/// keys up to `level`": each group holds at least two of them in
/// increasing order, and with a file all the files with the same keys and
/// no others; every file that shares its keys with another is in a group;
/// no file is in two groups.
pub open spec fn is_refinement(groups: Seq<Vec<usize>>, files: Seq<SourceFile>, members: Seq<usize>, level: int) -> bool {
    &&& forall|g: int| 0 <= g < groups.len() ==> (#[trigger] groups[g])@.len() >= 2 && is_increasing(groups[g]@)
    &&& forall|g: int, k: int| 0 <= g < groups.len() && 0 <= k < groups[g]@.len() ==> members.contains(#[trigger] groups[g]@[k])
    &&& forall|g: int, x: usize, y: usize|
        #![trigger groups[g]@.contains(x), members.contains(y)]
        0 <= g < groups.len() && groups[g]@.contains(x) && members.contains(y) ==> (groups[g]@.contains(y) <==> same_up_to(
            files[x as int],
            files[y as int],
            level,
        ))
    &&& forall|x: usize, y: usize|
        #![trigger members.contains(x), members.contains(y)]
        members.contains(x) && members.contains(y) && x != y && same_up_to(files[x as int], files[y as int], level) ==> in_some_group(groups, x)
    &&& forall|g: int, h: int, x: usize|
        #![trigger groups[g]@.contains(x), groups[h]@.contains(x)]
        0 <= g < groups.len() && 0 <= h < groups.len() && g != h ==> !(groups[g]@.contains(x) && groups[h]@.contains(x))
}

/// Whether one of the first `upto` groups holds `idx`.
pub open spec fn in_group_before(groups: Seq<Vec<usize>>, upto: int, idx: usize) -> bool {
    exists|g: int| 0 <= g < upto && g < groups.len() && (#[trigger] groups[g])@.contains(idx)
}

/// Splits each of `buckets`, the classes up to the level before, by the
/// keys at `level`.
fn refine_all(files: &Vec<SourceFile>, members: Ghost<Seq<usize>>, buckets: &Vec<Vec<usize>>, level: u8) -> (refined: Vec<Vec<usize>>)
    requires
        1 <= level <= 2,
        all_read(files@, members@),
        is_refinement(buckets@, files@, members@, level - 1),
    ensures
        is_refinement(refined@, files@, members@, level as int),
{
    let mut refined: Vec<Vec<usize>> = Vec::new();
    let mut i: usize = 0;
    while i < buckets.len()
        invariant
            i <= buckets.len(),
            1 <= level <= 2,
            all_read(files@, members@),
            is_refinement(buckets@, files@, members@, level - 1),
            forall|g: int| 0 <= g < refined@.len() ==> (#[trigger] refined@[g])@.len() >= 2 && is_increasing(refined@[g]@),
            forall|g: int, k: int| 0 <= g < refined@.len() && 0 <= k < refined@[g]@.len() ==> members@.contains(#[trigger] refined@[g]@[k]),
            forall|g: int, x: usize| 0 <= g < refined@.len() && #[trigger] refined@[g]@.contains(x) ==> in_group_before(buckets@, i as int, x),
            forall|g: int, x: usize, y: usize|
                #![trigger refined@[g]@.contains(x), members@.contains(y)]
                0 <= g < refined@.len() && refined@[g]@.contains(x) && members@.contains(y) ==> (refined@[g]@.contains(y) <==> same_up_to(
                    files@[x as int],
                    files@[y as int],
                    level as int,
                )),
            forall|x: usize, y: usize|
                #![trigger members@.contains(x), members@.contains(y)]
                members@.contains(x) && members@.contains(y) && x != y && same_up_to(files@[x as int], files@[y as int], level as int)
                    && in_group_before(buckets@, i as int, x) ==> in_some_group(refined@, x),
            forall|g: int, h: int, x: usize|
                #![trigger refined@[g]@.contains(x), refined@[h]@.contains(x)]
                0 <= g < refined@.len() && 0 <= h < refined@.len() && g != h ==> !(refined@[g]@.contains(x) && refined@[h]@.contains(x)),
        decreases buckets.len() - i,
    {
        let bucket = &buckets[i];
        let ghost b = bucket@;
        proof {
            assert(b == buckets@[i as int]@);
            assert forall|m: int| 0 <= m < b.len() implies (#[trigger] b[m]) < files@.len() && files@[b[m] as int].entry.size is Some && files@[b[m] as int].content is Some by {
                assert(members@.contains(buckets@[i as int]@[m]));
                let at = choose|at: int| 0 <= at < members@.len() && members@[at] == b[m];
                assert(members@[at] < files@.len());
            }
        }
        let mut parts = split_files(files, bucket, level);
        let ghost old_refined = refined@;
        let ghost new_parts = parts@;
        refined.append(&mut parts);
        proof {
            let r = refined@;
            let shift = old_refined.len() as int;
            assert(r =~= old_refined + new_parts);
            assert forall|g: int| 0 <= g < r.len() implies (g < shift ==> r[g] == old_refined[g]) && (g >= shift ==> r[g] == new_parts[g - shift]) by {}
            // A new part lies in the bucket.
            assert forall|g: int, x: usize| shift <= g < r.len() && #[trigger] r[g]@.contains(x) implies b.contains(x) && members@.contains(x) by {
                let k = choose|k: int| 0 <= k < r[g]@.len() && r[g]@[k] == x;
                assert(b.contains(new_parts[g - shift]@[k]));
                let at = choose|at: int| 0 <= at < b.len() && b[at] == x;
                assert(members@.contains(buckets@[i as int]@[at]));
            }
            assert forall|g: int| 0 <= g < r.len() implies (#[trigger] r[g])@.len() >= 2 && is_increasing(r[g]@) by {
                if g >= shift {
                    assert(r[g] == new_parts[g - shift]);
                }
            }
            assert forall|g: int, k: int| 0 <= g < r.len() && 0 <= k < r[g]@.len() implies members@.contains(#[trigger] r[g]@[k]) by {
                if g >= shift {
                    assert(r[g]@.contains(r[g]@[k]));
                }
            }
            assert forall|g: int, x: usize| 0 <= g < r.len() && #[trigger] r[g]@.contains(x) implies in_group_before(buckets@, i + 1, x) by {
                if g < shift {
                    assert(old_refined[g]@.contains(x));
                    assert(in_group_before(buckets@, i as int, x));
                    let j = choose|j: int| 0 <= j < i && j < buckets@.len() && (#[trigger] buckets@[j])@.contains(x);
                    assert(buckets@[j]@.contains(x));
                } else {
                    assert(buckets@[i as int]@.contains(x));
                }
            }
            assert forall|g: int, x: usize, y: usize|
                #![trigger r[g]@.contains(x), members@.contains(y)]
                0 <= g < r.len() && r[g]@.contains(x) && members@.contains(y) implies (r[g]@.contains(y) <==> same_up_to(
                files@[x as int],
                files@[y as int],
                level as int,
            )) by {
                if g < shift {
                    assert(old_refined[g]@.contains(x));
                } else {
                    let part = new_parts[g - shift];
                    assert(part@.contains(x));
                    assert(b.contains(x) && members@.contains(x));
                    assert(buckets@[i as int]@.contains(x));
                    // Within the bucket, the keys up to the level before agree.
                    assert(buckets@[i as int]@.contains(y) <==> same_up_to(files@[x as int], files@[y as int], level - 1));
                    if b.contains(y) {
                        assert(part@.contains(y) <==> level_key(files@[x as int], level as int) == level_key(files@[y as int], level as int));
                    } else {
                        if part@.contains(y) {
                            assert(r[g]@.contains(y));
                        }
                    }
                }
            }
            assert forall|x: usize, y: usize|
                #![trigger members@.contains(x), members@.contains(y)]
                members@.contains(x) && members@.contains(y) && x != y && same_up_to(files@[x as int], files@[y as int], level as int) && in_group_before(
                buckets@,
                i + 1,
                x,
            ) implies in_some_group(r, x) by {
                let j = choose|j: int| 0 <= j < i + 1 && j < buckets@.len() && (#[trigger] buckets@[j])@.contains(x);
                if j < i {
                    assert(in_group_before(buckets@, i as int, x));
                    assert(in_some_group(old_refined, x));
                    let g = choose|g: int| 0 <= g < old_refined.len() && (#[trigger] old_refined[g])@.contains(x);
                    assert(r[g]@.contains(x));
                } else {
                    assert(buckets@[i as int]@.contains(x));
                    assert(buckets@[i as int]@.contains(y) <==> same_up_to(files@[x as int], files@[y as int], level - 1));
                    assert(b.contains(x) && b.contains(y));
                    assert(in_some_group(new_parts, x));
                    let g = choose|g: int| 0 <= g < new_parts.len() && (#[trigger] new_parts[g])@.contains(x);
                    assert(r[g + shift] == new_parts[g]);
                    assert(r[g + shift]@.contains(x));
                }
            }
            assert forall|g: int, h: int, x: usize|
                #![trigger r[g]@.contains(x), r[h]@.contains(x)]
                0 <= g < r.len() && 0 <= h < r.len() && g != h implies !(r[g]@.contains(x) && r[h]@.contains(x)) by {
                if r[g]@.contains(x) && r[h]@.contains(x) {
                    if g < shift && h < shift {
                        assert(old_refined[g]@.contains(x) && old_refined[h]@.contains(x));
                    } else if g >= shift && h >= shift {
                        assert(new_parts[g - shift]@.contains(x) && new_parts[h - shift]@.contains(x));
                    } else {
                        let old_one = if g < shift { g } else { h };
                        assert(old_refined[old_one]@.contains(x));
                        assert(in_group_before(buckets@, i as int, x));
                        let j = choose|j: int| 0 <= j < i && j < buckets@.len() && (#[trigger] buckets@[j])@.contains(x);
                        assert(buckets@[i as int]@.contains(x));
                        assert(!(buckets@[j]@.contains(x) && buckets@[i as int]@.contains(x)));
                    }
                }
            }
        }
        i += 1;
    }
    proof {
        assert forall|x: usize, y: usize|
            #![trigger members@.contains(x), members@.contains(y)]
            members@.contains(x) && members@.contains(y) && x != y && same_up_to(files@[x as int], files@[y as int], level as int) implies in_some_group(
            refined@,
            x,
        ) by {
            assert(same_up_to(files@[x as int], files@[y as int], level - 1));
            assert(in_some_group(buckets@, x));
            let j = choose|j: int| 0 <= j < buckets@.len() && (#[trigger] buckets@[j])@.contains(x);
            assert(in_group_before(buckets@, i as int, x));
        }
    }
    refined
}

/// Whether the search for duplicates compares `file`: the file search
/// keeps its entry, it is a regular file of known size, and its content
/// was read.
pub open spec fn dedup_reads(
    root: Seq<char>,
    pattern: Seq<char>,
    exclude_patterns: Seq<String>,
    min_bytes: Option<u64>,
    max_bytes: Option<u64>,
    file: SourceFile,
) -> bool {
    &&& search_keeps(root, pattern, exclude_patterns, None, min_bytes, max_bytes, file.entry)
    &&& file.entry.is_file()
    &&& file.entry.size is Some
    &&& file.content is Some
}

/// Whether two files have the same size, the same digest of the first
/// 4 KiB and the same digest of the whole content.
pub open spec fn same_fingerprint(a: SourceFile, b: SourceFile) -> bool {
    same_up_to(a, b, 2)
}

/// Whether `groups`, of indices into `files`, are the groups of
/// duplicates among the files that the search compares: each group holds
/// at least two compared files in increasing order, and with a file all
/// the compared files of the same fingerprint and no others; every
/// compared file that shares its fingerprint with another is in a group;
/// no file is in two groups.
pub open spec fn is_duplicate_grouping(
    groups: Seq<Vec<usize>>,
    files: Seq<SourceFile>,
    root: Seq<char>,
    pattern: Seq<char>,
    exclude_patterns: Seq<String>,
    min_bytes: Option<u64>,
    max_bytes: Option<u64>,
) -> bool {
    &&& forall|g: int| 0 <= g < groups.len() ==> (#[trigger] groups[g])@.len() >= 2 && is_increasing(groups[g]@)
    &&& forall|g: int, k: int|
        0 <= g < groups.len() && 0 <= k < groups[g]@.len() ==> (#[trigger] groups[g]@[k]) < files.len() && dedup_reads(
            root,
            pattern,
            exclude_patterns,
            min_bytes,
            max_bytes,
            files[groups[g]@[k] as int],
        )
    &&& forall|g: int, x: usize, y: usize|
        #![trigger groups[g]@.contains(x), files[y as int]]
        0 <= g < groups.len() && groups[g]@.contains(x) && y < files.len() && dedup_reads(
            root,
            pattern,
            exclude_patterns,
            min_bytes,
            max_bytes,
            files[y as int],
        ) ==> (groups[g]@.contains(y) <==> same_fingerprint(files[x as int], files[y as int]))
    &&& forall|x: usize, y: usize|
        #![trigger files[x as int], files[y as int]]
        x < files.len() && y < files.len() && x != y && dedup_reads(root, pattern, exclude_patterns, min_bytes, max_bytes, files[x as int])
            && dedup_reads(root, pattern, exclude_patterns, min_bytes, max_bytes, files[y as int]) && same_fingerprint(
            files[x as int],
            files[y as int],
        ) ==> in_some_group(groups, x)
    &&& forall|g: int, h: int, x: usize|
        #![trigger groups[g]@.contains(x), groups[h]@.contains(x)]
        0 <= g < groups.len() && 0 <= h < groups.len() && g != h ==> !(groups[g]@.contains(x) && groups[h]@.contains(x))
}

/// The groups of duplicates among `files`, as indices into `files`.
pub fn duplicate_groups(
    root: &str,
    files: &Vec<SourceFile>,
    pattern: &str,
    exclude_patterns: &Vec<String>,
    min_bytes: Option<u64>,
    max_bytes: Option<u64>,
) -> (groups: Vec<Vec<usize>>)
    ensures
        is_duplicate_grouping(groups@, files@, root@, pattern@, exclude_patterns@, min_bytes, max_bytes),
{
    let filter = SearchFilter::new(root, pattern, exclude_patterns, None, min_bytes, max_bytes);
    let ghost root = Ghost(root@);
    let ghost pattern = Ghost(pattern@);
    let ghost exclude_patterns = Ghost(exclude_patterns@);
    let mut members: Vec<usize> = Vec::new();
    let mut i: usize = 0;
    while i < files.len()
        invariant
            i <= files.len(),
            filter.prepared_from(root@, pattern@, exclude_patterns@, None, filter.min_bytes, filter.max_bytes),
            is_increasing(members@),
            forall|m: int| 0 <= m < members@.len() ==> (#[trigger] members@[m]) < i,
            forall|x: usize|
                members@.contains(x) <==> x < i && dedup_reads(
                    root@,
                    pattern@,
                    exclude_patterns@,
                    filter.min_bytes,
                    filter.max_bytes,
                    #[trigger] files@[x as int],
                ),
        decreases files.len() - i,
    {
        let file = &files[i];
        let is_file = match file.entry.kind {
            Some(EntryKind::File) => true,
            _ => false,
        };
        let ghost before = members@;
        if is_file && file.entry.size.is_some() && file.content.is_some() && filter.keeps(&file.entry) {
            members.push(i);
            proof {
                assert(members@[members@.len() - 1] == i);
                assert forall|x: usize|
                    members@.contains(x) <==> x < i + 1 && dedup_reads(
                        root@,
                        pattern@,
                        exclude_patterns@,
                        filter.min_bytes,
                        filter.max_bytes,
                        #[trigger] files@[x as int],
                    ) by {
                    if before.contains(x) {
                        let k = choose|k: int| 0 <= k < before.len() && before[k] == x;
                        assert(members@[k] == x);
                    }
                    if members@.contains(x) {
                        let k = choose|k: int| 0 <= k < members@.len() && members@[k] == x;
                        if k < before.len() {
                            assert(before[k] == x);
                        }
                    }
                }
            }
        } else {
            proof {
                assert forall|x: usize|
                    members@.contains(x) <==> x < i + 1 && dedup_reads(
                        root@,
                        pattern@,
                        exclude_patterns@,
                        filter.min_bytes,
                        filter.max_bytes,
                        #[trigger] files@[x as int],
                    ) by {
                    if x == i {
                        assert(!dedup_reads(root@, pattern@, exclude_patterns@, filter.min_bytes, filter.max_bytes, files@[i as int]));
                    }
                }
            }
        }
        i += 1;
    }
    proof {
        assert(all_read(files@, members@)) by {
            assert forall|m: int| 0 <= m < members@.len() implies (#[trigger] members@[m]) < files@.len() && files@[members@[m] as int].entry.size is Some
                && files@[members@[m] as int].content is Some by {
                assert(members@.contains(members@[m]));
            }
        }
    }
    let by_size = split_files(files, &members, 0);
    let by_head = refine_all(files, Ghost(members@), &by_size, 1);
    let groups = refine_all(files, Ghost(members@), &by_head, 2);
    proof {
        let gs = groups@;
        assert forall|g: int, k: int| 0 <= g < gs.len() && 0 <= k < gs[g]@.len() implies (#[trigger] gs[g]@[k]) < files@.len() && dedup_reads(
            root@,
            pattern@,
            exclude_patterns@,
            filter.min_bytes,
            filter.max_bytes,
            files@[gs[g]@[k] as int],
        ) by {
            assert(members@.contains(gs[g]@[k]));
        }
        assert forall|g: int, x: usize, y: usize|
            #![trigger gs[g]@.contains(x), files@[y as int]]
            0 <= g < gs.len() && gs[g]@.contains(x) && y < files@.len() && dedup_reads(
                root@,
                pattern@,
                exclude_patterns@,
                filter.min_bytes,
                filter.max_bytes,
                files@[y as int],
            ) implies (gs[g]@.contains(y) <==> same_fingerprint(files@[x as int], files@[y as int])) by {
            assert(members@.contains(y));
        }
        assert forall|x: usize, y: usize|
            #![trigger files@[x as int], files@[y as int]]
            x < files@.len() && y < files@.len() && x != y && dedup_reads(root@, pattern@, exclude_patterns@, filter.min_bytes, filter.max_bytes, files@[x as int])
                && dedup_reads(root@, pattern@, exclude_patterns@, filter.min_bytes, filter.max_bytes, files@[y as int]) && same_fingerprint(
                files@[x as int],
                files@[y as int],
            ) implies in_some_group(gs, x) by {
            assert(members@.contains(x));
            assert(members@.contains(y));
        }
    }
    groups
}

/// The name pattern of a search for duplicates that names none.
pub open spec fn pattern_or_all(pattern: Option<String>) -> Seq<char> {
    match pattern {
        Some(p) => p@,
        None => "**/*"@,
    }
}

/// The exclude patterns of a search that may name none.
pub open spec fn excludes_or_none(exclude_patterns: Option<Vec<String>>) -> Seq<String> {
    match exclude_patterns {
        Some(patterns) => patterns@,
        None => Seq::empty(),
    }
}

/// Whether `paths` name the files of `groups`, group for group and
/// member for member.
pub open spec fn paths_name_groups(paths: Seq<Vec<String>>, groups: Seq<Vec<usize>>, files: Seq<SourceFile>) -> bool {
    &&& paths.len() == groups.len()
    &&& forall|g: int| 0 <= g < groups.len() ==> (#[trigger] paths[g])@.len() == groups[g]@.len()
    &&& forall|g: int, k: int|
        0 <= g < groups.len() && 0 <= k < groups[g]@.len() ==> groups[g]@[k] < files.len() && (#[trigger] paths[g]@[k])@
            == files[groups[g]@[k] as int].entry.path@
}

/// Whether `paths` are the groups of duplicates among `files`, each file
/// named by its path.
pub open spec fn names_duplicates(
    paths: Seq<Vec<String>>,
    files: Seq<SourceFile>,
    root: Seq<char>,
    pattern: Seq<char>,
    exclude_patterns: Seq<String>,
    min_bytes: Option<u64>,
    max_bytes: Option<u64>,
) -> bool {
    exists|groups: Seq<Vec<usize>>| #[trigger]
        paths_name_groups(paths, groups, files) && is_duplicate_grouping(groups, files, root, pattern, exclude_patterns, min_bytes, max_bytes)
}

/// The paths of the files of `groups`.
pub fn paths_of_groups(files: &Vec<SourceFile>, groups: &Vec<Vec<usize>>) -> (paths: Vec<Vec<String>>)
    requires
        forall|g: int, k: int| 0 <= g < groups@.len() && 0 <= k < groups@[g]@.len() ==> (#[trigger] groups@[g]@[k]) < files@.len(),
    ensures
        paths_name_groups(paths@, groups@, files@),
{
    let mut paths: Vec<Vec<String>> = Vec::new();
    let mut g: usize = 0;
    while g < groups.len()
        invariant
            g <= groups.len(),
            forall|i: int, k: int| 0 <= i < groups@.len() && 0 <= k < groups@[i]@.len() ==> (#[trigger] groups@[i]@[k]) < files@.len(),
            paths@.len() == g,
            forall|i: int| 0 <= i < g ==> (#[trigger] paths@[i])@.len() == groups@[i]@.len(),
            forall|i: int, k: int| 0 <= i < g && 0 <= k < groups@[i]@.len() ==> (#[trigger] paths@[i]@[k])@ == files@[groups@[i]@[k] as int].entry.path@,
        decreases groups.len() - g,
    {
        let group = &groups[g];
        let mut names: Vec<String> = Vec::new();
        let mut k: usize = 0;
        while k < group.len()
            invariant
                k <= group.len(),
                group@ == groups@[g as int]@,
                g < groups@.len(),
                forall|i: int, k: int| 0 <= i < groups@.len() && 0 <= k < groups@[i]@.len() ==> (#[trigger] groups@[i]@[k]) < files@.len(),
                names@.len() == k,
                forall|j: int| 0 <= j < k ==> (#[trigger] names@[j])@ == files@[group@[j] as int].entry.path@,
            decreases group.len() - k,
        {
            assert(groups@[g as int]@[k as int] < files@.len());
            names.push(files[group[k]].entry.path.clone());
            k += 1;
        }
        paths.push(names);
        g += 1;
    }
    paths
}

impl FileSystemService {
    /// The groups of duplicate files among the files that a walk under
    /// `root_path` found, each file named by its path.
    ///
    /// A file is compared when the file search for `pattern` (every file,
    /// where none is given) keeps it and its content was read. Two files
    /// are duplicates when they have the same size, the same digest of
    /// their first 4 KiB and the same digest of their whole content. A
    /// group holds at least two files. The search is refused when the
    /// root lies under no allowed directory.
    pub fn find_duplicate_files(
        &self,
        root_path: &str,
        files: &Vec<SourceFile>,
        pattern: Option<String>,
        exclude_patterns: Option<Vec<String>>,
        min_bytes: Option<u64>,
        max_bytes: Option<u64>,
    ) -> (found: Result<Vec<Vec<String>>, ServiceError>)
        ensures
            !path_allowed(root_path@, self.roots()) ==> found is Err && found->Err_0 is NotAllowed,
            path_allowed(root_path@, self.roots()) ==> found is Ok && names_duplicates(
                found->Ok_0@,
                files@,
                root_path@,
                pattern_or_all(pattern),
                excludes_or_none(exclude_patterns),
                min_bytes,
                max_bytes,
            ),
    {
        if !self.is_allowed(root_path) {
            return Err(ServiceError::NotAllowed(root_path.to_owned()));
        }
        let name_pattern = match pattern {
            Some(p) => p,
            None => String::from_str("**/*"),
        };
        let excludes = match exclude_patterns {
            Some(patterns) => patterns,
            None => Vec::new(),
        };
        let groups = duplicate_groups(root_path, files, name_pattern.as_str(), &excludes, min_bytes, max_bytes);
        let paths = paths_of_groups(files, &groups);
        assert(paths_name_groups(paths@, groups@, files@));
        assert(excludes@ =~= excludes_or_none(exclude_patterns));
        Ok(paths)
    }
}

/// Two files of one group have the same size and the same digest of
/// their content.
pub proof fn lemma_group_members_alike(
    groups: Seq<Vec<usize>>,
    files: Seq<SourceFile>,
    root: Seq<char>,
    pattern: Seq<char>,
    exclude_patterns: Seq<String>,
    min_bytes: Option<u64>,
    max_bytes: Option<u64>,
    g: int,
    x: usize,
    y: usize,
)
    requires
        is_duplicate_grouping(groups, files, root, pattern, exclude_patterns, min_bytes, max_bytes),
        0 <= g < groups.len(),
        groups[g]@.contains(x),
        groups[g]@.contains(y),
    ensures
        files[x as int].entry.size == files[y as int].entry.size,
        sha256_digest(files[x as int].content->0@) == sha256_digest(files[y as int].content->0@),
{
    let k = choose|k: int| 0 <= k < groups[g]@.len() && groups[g]@[k] == y;
    assert(groups[g]@[k] < files.len());
    assert(dedup_reads(root, pattern, exclude_patterns, min_bytes, max_bytes, files[y as int]));
    assert(same_fingerprint(files[x as int], files[y as int]));
    let kx = choose|k: int| 0 <= k < groups[g]@.len() && groups[g]@[k] == x;
    assert(groups[g]@[kx] < files.len());
}

/// Two compared files with the same recorded size and the same bytes are
/// in one group.
pub proof fn lemma_identical_files_share_a_group(
    groups: Seq<Vec<usize>>,
    files: Seq<SourceFile>,
    root: Seq<char>,
    pattern: Seq<char>,
    exclude_patterns: Seq<String>,
    min_bytes: Option<u64>,
    max_bytes: Option<u64>,
    x: usize,
    y: usize,
)
    requires
        is_duplicate_grouping(groups, files, root, pattern, exclude_patterns, min_bytes, max_bytes),
        x < files.len(),
        y < files.len(),
        x != y,
        dedup_reads(root, pattern, exclude_patterns, min_bytes, max_bytes, files[x as int]),
        dedup_reads(root, pattern, exclude_patterns, min_bytes, max_bytes, files[y as int]),
        files[x as int].entry.size == files[y as int].entry.size,
        files[x as int].content->0@ == files[y as int].content->0@,
    ensures
        exists|g: int| 0 <= g < groups.len() && (#[trigger] groups[g])@.contains(x) && groups[g]@.contains(y),
{
    assert(same_fingerprint(files[x as int], files[y as int]));
    assert(in_some_group(groups, x));
    let g = choose|g: int| 0 <= g < groups.len() && (#[trigger] groups[g])@.contains(x);
    assert(groups[g]@.contains(y));
}

/// No file of one group has the size and the bytes of a file of another
/// group.
pub proof fn lemma_no_identical_pair_across_groups(
    groups: Seq<Vec<usize>>,
    files: Seq<SourceFile>,
    root: Seq<char>,
    pattern: Seq<char>,
    exclude_patterns: Seq<String>,
    min_bytes: Option<u64>,
    max_bytes: Option<u64>,
    g: int,
    h: int,
    x: usize,
    y: usize,
)
    requires
        is_duplicate_grouping(groups, files, root, pattern, exclude_patterns, min_bytes, max_bytes),
        0 <= g < groups.len(),
        0 <= h < groups.len(),
        g != h,
        groups[g]@.contains(x),
        groups[h]@.contains(y),
    ensures
        !(files[x as int].entry.size == files[y as int].entry.size && files[x as int].content->0@ == files[y as int].content->0@),
{
    if files[x as int].entry.size == files[y as int].entry.size && files[x as int].content->0@ == files[y as int].content->0@ {
        let k = choose|k: int| 0 <= k < groups[h]@.len() && groups[h]@[k] == y;
        assert(groups[h]@[k] < files.len());
        assert(dedup_reads(root, pattern, exclude_patterns, min_bytes, max_bytes, files[y as int]));
        assert(same_fingerprint(files[x as int], files[y as int]));
        assert(groups[g]@.contains(y));
        assert(!(groups[g]@.contains(y) && groups[h]@.contains(y)));
    }
}

} // verus!
