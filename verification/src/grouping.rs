//! Grouping by key: the classes of equal keys among chosen files, each
//! class with at least two members.

use vstd::prelude::*;

verus! {

/// The key by which files are grouped: a size and a digest.
pub struct FileKey {
    pub size: u64,
    pub digest: Vec<u8>,
}

/// The key as plain values.
pub open spec fn key_of(key: FileKey) -> (u64, Seq<u8>) {
    (key.size, key.digest@)
}

/// The key of the file with index `idx`.
pub open spec fn member_key(keys: Seq<FileKey>, idx: usize) -> (u64, Seq<u8>) {
    key_of(keys[idx as int])
}

/// Whether the numbers increase strictly.
pub open spec fn is_increasing(s: Seq<usize>) -> bool {
    forall|i: int, j: int| 0 <= i < j < s.len() ==> s[i] < s[j]
}

/// Whether `members` are indices into `keys`, in increasing order.
pub open spec fn valid_members(keys: Seq<FileKey>, members: Seq<usize>) -> bool {
    &&& is_increasing(members)
    &&& forall|m: int| 0 <= m < members.len() ==> #[trigger] members[m] < keys.len()
}

/// Whether `group` is a class of `members`: at least two of them, in
/// increasing order, and exactly those whose key is that of its first.
pub open spec fn is_class_of(group: Seq<usize>, keys: Seq<FileKey>, members: Seq<usize>) -> bool {
    &&& group.len() >= 2
    &&& is_increasing(group)
    &&& forall|k: int| 0 <= k < group.len() ==> members.contains(#[trigger] group[k])
    &&& forall|m: int|
        0 <= m < members.len() ==> (group.contains(#[trigger] members[m]) <==> member_key(keys, members[m]) == member_key(keys, group[0]))
}

/// Whether `groups` are the classes of `members` by key: each group is a
/// class, the groups stand in the order of their first members, and every
/// member that shares its key with another member is in a group.
pub open spec fn is_grouping(groups: Seq<Vec<usize>>, keys: Seq<FileKey>, members: Seq<usize>) -> bool {
    &&& forall|g: int| 0 <= g < groups.len() ==> is_class_of(#[trigger] groups[g]@, keys, members)
    &&& forall|g: int, h: int| 0 <= g < h < groups.len() ==> (#[trigger] groups[g])@[0] < (#[trigger] groups[h])@[0]
    &&& forall|a: int, b: int|
        #![trigger members[a], members[b]]
        0 <= a < members.len() && 0 <= b < members.len() && a != b && member_key(keys, members[a]) == member_key(keys, members[b])
            ==> in_some_group(groups, members[a])
}

/// Whether one of `groups` holds `idx`.
pub open spec fn in_some_group(groups: Seq<Vec<usize>>, idx: usize) -> bool {
    exists|g: int| 0 <= g < groups.len() && (#[trigger] groups[g])@.contains(idx)
}

/// Whether the two byte strings are the same.
pub fn same_bytes(a: &Vec<u8>, b: &Vec<u8>) -> (same: bool)
    ensures
        same == (a@ == b@),
{
    if a.len() != b.len() {
        return false;
    }
    let mut i: usize = 0;
    while i < a.len()
        invariant
            i <= a.len(),
            a.len() == b.len(),
            forall|k: int| 0 <= k < i ==> a@[k] == b@[k],
        decreases a.len() - i,
    {
        if a[i] != b[i] {
            return false;
        }
        i += 1;
    }
    assert(a@ =~= b@);
    true
}

/// Whether the two keys are the same.
pub fn same_key(a: &FileKey, b: &FileKey) -> (same: bool)
    ensures
        same == (key_of(*a) == key_of(*b)),
{
    a.size == b.size && same_bytes(&a.digest, &b.digest)
}

/// Whether a member before position `p` has the key of the member at `q`.
pub open spec fn seen_before(keys: Seq<FileKey>, members: Seq<usize>, p: int, q: int) -> bool {
    exists|m: int| 0 <= m < p && member_key(keys, #[trigger] members[m]) == member_key(keys, members[q])
}

/// Groups `members` by their keys.
pub fn group_by(keys: &Vec<FileKey>, members: &Vec<usize>) -> (groups: Vec<Vec<usize>>)
    requires
        valid_members(keys@, members@),
    ensures
        is_grouping(groups@, keys@, members@),
{
    let n = members.len();
    let mut assigned: Vec<bool> = Vec::new();
    let mut fill: usize = 0;
    while fill < n
        invariant
            fill <= n,
            assigned@.len() == fill,
            forall|q: int| 0 <= q < fill ==> !assigned@[q],
        decreases n - fill,
    {
        assigned.push(false);
        fill += 1;
    }
    let mut groups: Vec<Vec<usize>> = Vec::new();
    let mut p: usize = 0;
    while p < n
        invariant
            n == members.len(),
            p <= n,
            assigned@.len() == n,
            valid_members(keys@, members@),
            forall|g: int| 0 <= g < groups@.len() ==> is_class_of(#[trigger] groups@[g]@, keys@, members@),
            forall|g: int, h: int| 0 <= g < h < groups@.len() ==> (#[trigger] groups@[g])@[0] < (#[trigger] groups@[h])@[0],
            forall|g: int, m: int| 0 <= g < groups@.len() && p <= m < n ==> (#[trigger] groups@[g])@[0] < #[trigger] members@[m],
            forall|q: int| p <= q < n ==> (#[trigger] assigned@[q] <==> seen_before(keys@, members@, p as int, q)),
            forall|a: int, b: int|
                #![trigger members@[a], members@[b]]
                0 <= a < p && 0 <= b < n && a != b && member_key(keys@, members@[a]) == member_key(keys@, members@[b]) ==> in_some_group(
                    groups@,
                    members@[a],
                ),
        decreases n - p,
    {
        let ghost old_groups = groups@;
        if !assigned[p] {
            let mut group: Vec<usize> = Vec::new();
            group.push(members[p]);
            let mut q: usize = p + 1;
            assert(group@.contains(members@[p as int])) by {
                assert(group@[0] == members@[p as int]);
            }
            while q < n
                invariant
                    n == members.len(),
                    p < q <= n,
                    assigned@.len() == n,
                    valid_members(keys@, members@),
                    group@.len() >= 1,
                    group@[0] == members@[p as int],
                    is_increasing(group@),
                    forall|k: int| 0 <= k < group@.len() ==> exists|x: int| p <= x < q && members@[x] == #[trigger] group@[k],
                    forall|x: int|
                        p <= x < q ==> (group@.contains(#[trigger] members@[x]) <==> member_key(keys@, members@[x]) == member_key(
                            keys@,
                            members@[p as int],
                        )),
                    forall|y: int|
                        p < y < n ==> (#[trigger] assigned@[y] <==> (seen_before(keys@, members@, p as int, y) || (y < q && member_key(
                            keys@,
                            members@[y],
                        ) == member_key(keys@, members@[p as int])))),
                decreases n - q,
            {
                let ghost before = group@;
                if same_key(&keys[members[q]], &keys[members[p]]) {
                    proof {
                        let last = before[before.len() - 1];
                        let x = choose|x: int| p <= x < q && members@[x] == last;
                        assert(members@[x] < members@[q as int]);
                    }
                    group.push(members[q]);
                    assigned.set(q, true);
                    proof {
                        assert(group@[group@.len() - 1] == members@[q as int]);
                        assert forall|k: int| 0 <= k < group@.len() implies exists|x: int| p <= x < q + 1 && members@[x] == #[trigger] group@[k] by {
                            if k < before.len() {
                                let x = choose|x: int| p <= x < q && members@[x] == before[k];
                                assert(members@[x] == group@[k]);
                            } else {
                                assert(members@[q as int] == group@[k]);
                            }
                        }
                        assert forall|x: int| p <= x < q + 1 implies (group@.contains(#[trigger] members@[x]) <==> member_key(keys@, members@[x])
                            == member_key(keys@, members@[p as int])) by {
                            if x < q {
                                if before.contains(members@[x]) {
                                    let k = choose|k: int| 0 <= k < before.len() && before[k] == members@[x];
                                    assert(group@[k] == members@[x]);
                                }
                                if group@.contains(members@[x]) {
                                    let k = choose|k: int| 0 <= k < group@.len() && group@[k] == members@[x];
                                    if k == before.len() {
                                        assert(members@[x] < members@[q as int]);
                                    } else {
                                        assert(before[k] == members@[x]);
                                    }
                                }
                            }
                        }
                    }
                } else {
                    proof {
                        assert forall|x: int| p <= x < q + 1 implies (group@.contains(#[trigger] members@[x]) <==> member_key(keys@, members@[x])
                            == member_key(keys@, members@[p as int])) by {
                            if x == q && group@.contains(members@[x]) {
                                let k = choose|k: int| 0 <= k < group@.len() && group@[k] == members@[x];
                                let y = choose|y: int| p <= y < q && members@[y] == group@[k];
                                assert(members@[y] < members@[q as int]);
                            }
                        }
                    }
                }
                q += 1;
            }
            proof {
                assert(!seen_before(keys@, members@, p as int, p as int));
                assert forall|m: int| 0 <= m < n implies (group@.contains(#[trigger] members@[m]) <==> member_key(keys@, members@[m]) == member_key(
                    keys@,
                    group@[0],
                )) by {
                    if m < p {
                        if member_key(keys@, members@[m]) == member_key(keys@, members@[p as int]) {
                            assert(seen_before(keys@, members@, p as int, p as int));
                        }
                        if group@.contains(members@[m]) {
                            let k = choose|k: int| 0 <= k < group@.len() && group@[k] == members@[m];
                            let x = choose|x: int| p <= x < n && members@[x] == group@[k];
                            assert(members@[m] < members@[x]);
                        }
                    }
                }
                assert forall|k: int| 0 <= k < group@.len() implies members@.contains(#[trigger] group@[k]) by {
                    let x = choose|x: int| p <= x < n && members@[x] == group@[k];
                    assert(members@[x] == group@[k]);
                }
            }
            let ghost class = group@;
            if group.len() >= 2 {
                groups.push(group);
                proof {
                    assert(groups@[groups@.len() - 1]@ == class);
                    assert forall|g: int| 0 <= g < groups@.len() implies is_class_of(#[trigger] groups@[g]@, keys@, members@) by {
                        if g < old_groups.len() {
                            assert(groups@[g] == old_groups[g]);
                        }
                    }
                    assert forall|g: int, h: int| 0 <= g < h < groups@.len() implies (#[trigger] groups@[g])@[0] < (#[trigger] groups@[h])@[0] by {
                        assert(groups@[g] == old_groups[g]);
                        if h < old_groups.len() {
                            assert(groups@[h] == old_groups[h]);
                        } else {
                            assert(old_groups[g]@[0] < members@[p as int]);
                        }
                    }
                    assert forall|g: int, m: int| 0 <= g < groups@.len() && p + 1 <= m < n implies (#[trigger] groups@[g])@[0] < #[trigger] members@[m] by {
                        if g < old_groups.len() {
                            assert(groups@[g] == old_groups[g]);
                        } else {
                            assert(members@[p as int] < members@[m]);
                        }
                    }
                }
            }
            proof {
                assert forall|a: int, b: int|
                    #![trigger members@[a], members@[b]]
                    0 <= a < p + 1 && 0 <= b < n && a != b && member_key(keys@, members@[a]) == member_key(keys@, members@[b]) implies in_some_group(
                    groups@,
                    members@[a],
                ) by {
                    if a < p {
                        assert(in_some_group(old_groups, members@[a]));
                        let g = choose|g: int| 0 <= g < old_groups.len() && (#[trigger] old_groups[g])@.contains(members@[a]);
                        assert(groups@[g] == old_groups[g]);
                        assert(groups@[g]@.contains(members@[a]));
                    } else {
                        if b < p {
                            assert(seen_before(keys@, members@, p as int, p as int));
                        }
                        assert(class.contains(members@[b]));
                        assert(class.contains(members@[a]));
                        assert(class.len() >= 2) by {
                            let k1 = choose|k: int| 0 <= k < class.len() && class[k] == members@[a];
                            let k2 = choose|k: int| 0 <= k < class.len() && class[k] == members@[b];
                            assert(members@[a] != members@[b]) by {
                                if a < b {
                                    assert(members@[a] < members@[b]);
                                } else {
                                    assert(members@[b] < members@[a]);
                                }
                            }
                        }
                        assert(groups@[groups@.len() - 1]@.contains(members@[a]));
                    }
                }
                assert forall|y: int| p + 1 <= y < n implies (#[trigger] assigned@[y] <==> seen_before(keys@, members@, p + 1, y)) by {
                    if seen_before(keys@, members@, p + 1, y) {
                        let m = choose|m: int| 0 <= m < p + 1 && member_key(keys@, #[trigger] members@[m]) == member_key(keys@, members@[y]);
                        if m < p {
                            assert(seen_before(keys@, members@, p as int, y));
                        }
                    }
                    if seen_before(keys@, members@, p as int, y) {
                        let m = choose|m: int| 0 <= m < p && member_key(keys@, #[trigger] members@[m]) == member_key(keys@, members@[y]);
                        assert(0 <= m < p + 1);
                    }
                    if member_key(keys@, members@[y]) == member_key(keys@, members@[p as int]) {
                        assert(member_key(keys@, members@[p as int]) == member_key(keys@, members@[y]));
                    }
                }
            }
        } else {
            proof {
                assert(seen_before(keys@, members@, p as int, p as int));
                let m0 = choose|m: int| 0 <= m < p && member_key(keys@, #[trigger] members@[m]) == member_key(keys@, members@[p as int]);
                assert forall|a: int, b: int|
                    #![trigger members@[a], members@[b]]
                    0 <= a < p + 1 && 0 <= b < n && a != b && member_key(keys@, members@[a]) == member_key(keys@, members@[b]) implies in_some_group(
                    groups@,
                    members@[a],
                ) by {
                    if a == p {
                        assert(member_key(keys@, members@[m0]) == member_key(keys@, members@[p as int]));
                        assert(in_some_group(groups@, members@[m0]));
                        let g = choose|g: int| 0 <= g < groups@.len() && (#[trigger] groups@[g])@.contains(members@[m0]);
                        assert(is_class_of(groups@[g]@, keys@, members@));
                        assert(groups@[g]@.contains(members@[p as int]));
                    }
                }
                assert forall|y: int| p + 1 <= y < n implies (#[trigger] assigned@[y] <==> seen_before(keys@, members@, p + 1, y)) by {
                    if seen_before(keys@, members@, p + 1, y) {
                        let m = choose|m: int| 0 <= m < p + 1 && member_key(keys@, #[trigger] members@[m]) == member_key(keys@, members@[y]);
                        if m == p {
                            assert(member_key(keys@, members@[m0]) == member_key(keys@, members@[y]));
                        }
                        assert(seen_before(keys@, members@, p as int, y));
                    }
                    if seen_before(keys@, members@, p as int, y) {
                        let m = choose|m: int| 0 <= m < p && member_key(keys@, #[trigger] members@[m]) == member_key(keys@, members@[y]);
                        assert(0 <= m < p + 1);
                    }
                }
            }
        }
        p += 1;
    }
    groups
}

/// Whether `groups` split `members` by the keys that stand beside them:
/// `keys[m]` is the key of `members[m]`. Each group holds at least two
/// members in increasing order, and with a member all members of the same
/// key and no others; every member that shares its key with another is in
/// a group; no member is in two groups.
pub open spec fn is_split(groups: Seq<Vec<usize>>, keys: Seq<FileKey>, members: Seq<usize>) -> bool {
    &&& forall|g: int| 0 <= g < groups.len() ==> (#[trigger] groups[g])@.len() >= 2 && is_increasing(groups[g]@)
    &&& forall|g: int, k: int| 0 <= g < groups.len() && 0 <= k < groups[g]@.len() ==> members.contains(#[trigger] groups[g]@[k])
    &&& forall|g: int, m1: int, m2: int|
        #![trigger groups[g], members[m1], members[m2]]
        0 <= g < groups.len() && 0 <= m1 < members.len() && 0 <= m2 < members.len() && groups[g]@.contains(members[m1]) ==> (groups[g]@.contains(
            members[m2],
        ) <==> key_of(keys[m1]) == key_of(keys[m2]))
    &&& forall|m1: int, m2: int|
        #![trigger keys[m1], keys[m2]]
        0 <= m1 < members.len() && 0 <= m2 < members.len() && m1 != m2 && key_of(keys[m1]) == key_of(keys[m2]) ==> in_some_group(
            groups,
            members[m1],
        )
    &&& forall|g: int, h: int, x: usize|
        #![trigger groups[g]@.contains(x), groups[h]@.contains(x)]
        0 <= g < groups.len() && 0 <= h < groups.len() && g != h ==> !(groups[g]@.contains(x) && groups[h]@.contains(x))
}

/// The positions `0..n`.
fn positions(n: usize) -> (all: Vec<usize>)
    ensures
        all@.len() == n,
        forall|i: int| 0 <= i < n ==> all@[i] == i,
{
    let mut all: Vec<usize> = Vec::new();
    let mut i: usize = 0;
    while i < n
        invariant
            i <= n,
            all@.len() == i,
            forall|k: int| 0 <= k < i ==> all@[k] == k,
        decreases n - i,
    {
        all.push(i);
        i += 1;
    }
    all
}

/// Splits `members` by the keys that stand beside them.
pub fn split_by_key(keys: &Vec<FileKey>, members: &Vec<usize>) -> (groups: Vec<Vec<usize>>)
    requires
        keys@.len() == members@.len(),
        is_increasing(members@),
    ensures
        is_split(groups@, keys@, members@),
{
    let n = members.len();
    let all = positions(n);
    let by_position = group_by(keys, &all);
    let mut groups: Vec<Vec<usize>> = Vec::new();
    let mut g: usize = 0;
    while g < by_position.len()
        invariant
            g <= by_position.len(),
            n == members@.len(),
            keys@.len() == n,
            all@.len() == n,
            forall|i: int| 0 <= i < n ==> all@[i] == i,
            is_increasing(members@),
            is_grouping(by_position@, keys@, all@),
            groups@.len() == g,
            forall|i: int| 0 <= i < g ==> (#[trigger] groups@[i])@.len() == by_position@[i]@.len(),
            forall|i: int, k: int|
                0 <= i < g && 0 <= k < groups@[i]@.len() ==> by_position@[i]@[k] < n && #[trigger] groups@[i]@[k] == members@[by_position@[i]@[k] as int],
        decreases by_position.len() - g,
    {
        let class = &by_position[g];
        let ghost old_groups = groups@;
        assert(is_class_of(class@, keys@, all@));
        let mut group: Vec<usize> = Vec::new();
        let mut k: usize = 0;
        while k < class.len()
            invariant
                k <= class.len(),
                n == members@.len(),
                all@.len() == n,
                forall|i: int| 0 <= i < n ==> all@[i] == i,
                is_class_of(class@, keys@, all@),
                group@.len() == k,
                forall|j: int| 0 <= j < k ==> class@[j] < n && #[trigger] group@[j] == members@[class@[j] as int],
            decreases class.len() - k,
        {
            proof {
                assert(all@.contains(class@[k as int]));
                let i = choose|i: int| 0 <= i < all@.len() && all@[i] == class@[k as int];
                assert(class@[k as int] == i);
            }
            group.push(members[class[k]]);
            k += 1;
        }
        groups.push(group);
        proof {
            assert forall|i: int| 0 <= i < g + 1 implies (#[trigger] groups@[i])@.len() == by_position@[i]@.len() by {
                if i < g {
                    assert(groups@[i] == old_groups[i]);
                }
            }
            assert forall|i: int, k: int| 0 <= i < g + 1 && 0 <= k < groups@[i]@.len() implies by_position@[i]@[k] < n && #[trigger] groups@[i]@[k]
                == members@[by_position@[i]@[k] as int] by {
                if i < g {
                    assert(groups@[i] == old_groups[i]);
                }
            }
        }
        g += 1;
    }
    proof {
        lemma_split_from_positions(groups@, by_position@, keys@, members@, all@);
    }
    groups
}

/// A grouping of the positions of `members`, read through `members`, is a
/// split of `members`.
proof fn lemma_split_from_positions(groups: Seq<Vec<usize>>, by_position: Seq<Vec<usize>>, keys: Seq<FileKey>, members: Seq<usize>, all: Seq<usize>)
    requires
        members.len() <= usize::MAX,
        keys.len() == members.len(),
        all.len() == members.len(),
        forall|i: int| 0 <= i < all.len() ==> all[i] == i,
        is_increasing(members),
        is_grouping(by_position, keys, all),
        groups.len() == by_position.len(),
        forall|i: int| 0 <= i < groups.len() ==> (#[trigger] groups[i])@.len() == by_position[i]@.len(),
        forall|i: int, k: int|
            0 <= i < groups.len() && 0 <= k < groups[i]@.len() ==> by_position[i]@[k] < members.len() && #[trigger] groups[i]@[k] == members[by_position[i]@[k] as int],
    ensures
        is_split(groups, keys, members),
{
    let n = members.len();
    // A member is in a group exactly when its position is in the group of positions.
    assert forall|g: int, m: int| 0 <= g < groups.len() && 0 <= m < n implies (groups[g]@.contains(#[trigger] members[m]) <==> (#[trigger] by_position[g])@.contains(
        m as usize,
    )) by {
        if groups[g]@.contains(members[m]) {
            let k = choose|k: int| 0 <= k < groups[g]@.len() && groups[g]@[k] == members[m];
            let pos = by_position[g]@[k];
            assert(groups[g]@[k] == members[pos as int]);
            if pos < m {
                assert(members[pos as int] < members[m]);
            }
            if m < pos {
                assert(members[m] < members[pos as int]);
            }
            assert(by_position[g]@[k] == m as usize);
        }
        if by_position[g]@.contains(m as usize) {
            let k = choose|k: int| 0 <= k < by_position[g]@.len() && by_position[g]@[k] == m as usize;
            assert(groups[g]@[k] == members[m]);
        }
    }
    assert forall|g: int| 0 <= g < groups.len() implies (#[trigger] groups[g])@.len() >= 2 && is_increasing(groups[g]@) by {
        assert(is_class_of(by_position[g]@, keys, all));
        assert forall|i: int, j: int| 0 <= i < j < groups[g]@.len() implies groups[g]@[i] < groups[g]@[j] by {
            assert(by_position[g]@[i] < by_position[g]@[j]);
            assert(groups[g]@[i] == members[by_position[g]@[i] as int]);
            assert(groups[g]@[j] == members[by_position[g]@[j] as int]);
        }
    }
    assert forall|g: int, k: int| 0 <= g < groups.len() && 0 <= k < groups[g]@.len() implies members.contains(#[trigger] groups[g]@[k]) by {
        assert(groups[g]@[k] == members[by_position[g]@[k] as int]);
    }
    assert forall|g: int, m1: int, m2: int|
        #![trigger groups[g], members[m1], members[m2]]
        0 <= g < groups.len() && 0 <= m1 < n && 0 <= m2 < n && groups[g]@.contains(members[m1]) implies (groups[g]@.contains(members[m2]) <==> key_of(
        keys[m1],
    ) == key_of(keys[m2])) by {
        assert(is_class_of(by_position[g]@, keys, all));
        assert(by_position[g]@.contains(m1 as usize));
        assert(all[m1] == m1 as usize);
        assert(all[m2] == m2 as usize);
        assert(by_position[g]@.contains(all[m1]));
        assert(by_position[g]@.contains(all[m2]) <==> member_key(keys, all[m2]) == member_key(keys, by_position[g]@[0]));
        assert(groups[g]@.contains(members[m2]) <==> by_position[g]@.contains(m2 as usize));
    }
    assert forall|m1: int, m2: int|
        #![trigger keys[m1], keys[m2]]
        0 <= m1 < n && 0 <= m2 < n && m1 != m2 && key_of(keys[m1]) == key_of(keys[m2]) implies in_some_group(groups, members[m1]) by {
        assert(all[m1] == m1 as usize);
        assert(all[m2] == m2 as usize);
        assert(member_key(keys, all[m1]) == member_key(keys, all[m2]));
        assert(in_some_group(by_position, all[m1]));
        let g = choose|g: int| 0 <= g < by_position.len() && (#[trigger] by_position[g])@.contains(all[m1]);
        assert(groups[g]@.contains(members[m1]) <==> by_position[g]@.contains(m1 as usize));
        assert(groups[g]@.contains(members[m1]));
    }
    assert forall|g: int, h: int, x: usize|
        #![trigger groups[g]@.contains(x), groups[h]@.contains(x)]
        0 <= g < groups.len() && 0 <= h < groups.len() && g != h implies !(groups[g]@.contains(x) && groups[h]@.contains(x)) by {
        if groups[g]@.contains(x) && groups[h]@.contains(x) {
            let k = choose|k: int| 0 <= k < groups[g]@.len() && groups[g]@[k] == x;
            let m = by_position[g]@[k] as int;
            assert(groups[g]@[k] == members[m]);
            assert(x == members[m]);
            assert(by_position[g]@.contains(m as usize));
            assert(groups[h]@.contains(members[m]) <==> by_position[h]@.contains(m as usize));
            assert(by_position[h]@.contains(m as usize));
            assert(is_class_of(by_position[g]@, keys, all));
            assert(is_class_of(by_position[h]@, keys, all));
            assert(all[m] == m as usize);
            // Both classes are the class of position m, so each holds the first of the other.
            let fg = by_position[g]@[0];
            let fh = by_position[h]@[0];
            assert(all.contains(fg)) by {
                assert(by_position[g]@[0] == fg);
            }
            assert(all.contains(fh)) by {
                assert(by_position[h]@[0] == fh);
            }
            let ig = choose|i: int| 0 <= i < all.len() && all[i] == fg;
            let ih = choose|i: int| 0 <= i < all.len() && all[i] == fh;
            assert(member_key(keys, all[m]) == member_key(keys, fg));
            assert(member_key(keys, all[m]) == member_key(keys, fh));
            assert(by_position[h]@.contains(all[ig]));
            assert(by_position[g]@.contains(all[ih]));
            let kg = choose|k: int| 0 <= k < by_position[h]@.len() && by_position[h]@[k] == fg;
            let kh = choose|k: int| 0 <= k < by_position[g]@.len() && by_position[g]@[k] == fh;
            if kg > 0 {
                assert(by_position[h]@[0] < by_position[h]@[kg]);
            }
            if kh > 0 {
                assert(by_position[g]@[0] < by_position[g]@[kh]);
            }
            assert(fg == fh);
            if g < h {
                assert(by_position[g]@[0] < by_position[h]@[0]);
            } else {
                assert(by_position[h]@[0] < by_position[g]@[0]);
            }
        }
    }
}

} // verus!
