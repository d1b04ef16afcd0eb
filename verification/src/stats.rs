//! Sizes and emptiness of directories, over the entries that a walk
//! found.

use vstd::prelude::*;
use crate::chars::to_chars;
use crate::error::ServiceError;
use crate::sandbox::{components, is_prefix, path_allowed, same_chars, split_components};
use crate::service::FileSystemService;
use crate::walk::{search_keeps, EntryKind, SearchFilter, WalkEntry};

verus! {

/// Whether the file name is that of a file in which an operating system
/// keeps what it knows of a folder: `.DS_Store` or `Thumbs.db`.
pub open spec fn is_metadata_name(name: Seq<char>) -> bool {
    name == ".DS_Store"@ || name == "Thumbs.db"@
}

/// Whether `filename` is the name of a system metadata file.
pub fn is_system_metadata_file(filename: &str) -> (noise: bool)
    ensures
        noise == is_metadata_name(filename@),
{
    let name = to_chars(filename);
    let ds_store = to_chars(".DS_Store");
    let thumbs = to_chars("Thumbs.db");
    same_chars(&name, &ds_store) || same_chars(&name, &thumbs)
}

/// The sum of `a` and `b`, or the greatest number where that is less.
pub open spec fn capped_sum(a: u64, b: u64) -> u64 {
    if a + b <= u64::MAX {
        (a + b) as u64
    } else {
        u64::MAX
    }
}

/// Whether the size of `entry` counts for the size of the directory
/// under `root`: the search for every file keeps it, it is a regular file
/// and its size is known.
pub open spec fn size_counts(root: Seq<char>, entry: WalkEntry) -> bool {
    &&& search_keeps(root, "**/*"@, Seq::empty(), None, None, None, entry)
    &&& entry.is_file()
    &&& entry.size is Some
}

/// The sizes of the first `n` entries that count, added up; the sum stops
/// at the greatest number.
pub open spec fn total_size(root: Seq<char>, entries: Seq<WalkEntry>, n: int) -> u64
    decreases n,
{
    if n <= 0 || n > entries.len() {
        0
    } else if size_counts(root, entries[n - 1]) {
        capped_sum(total_size(root, entries, n - 1), entries[n - 1].size->0)
    } else {
        total_size(root, entries, n - 1)
    }
}

/// Whether the path `inner` lies in the directory `outer` or is it: both
/// start at the root of the filesystem or both do not, and the components
/// of `outer` are the first components of `inner`.
pub open spec fn is_inside(inner: Seq<char>, outer: Seq<char>) -> bool {
    &&& (inner.len() > 0 && inner[0] == '/') == (outer.len() > 0 && outer[0] == '/')
    &&& components(outer).len() <= components(inner).len()
    &&& components(inner).take(components(outer).len() as int) == components(outer)
}

/// Whether `entry` is a file that fills the directory at `dir`: a regular
/// file inside it that is no system metadata file.
pub open spec fn fills(entry: WalkEntry, dir: Seq<char>) -> bool {
    entry.is_file() && !is_metadata_name(entry.file_name@) && is_inside(entry.path@, dir)
}

/// Whether none of `entries` fills the directory at `dir`.
pub open spec fn is_empty_dir(entries: Seq<WalkEntry>, dir: Seq<char>) -> bool {
    forall|k: int| 0 <= k < entries.len() ==> !fills(#[trigger] entries[k], dir)
}

/// Whether the search for empty directories reports `entry`: the search
/// for every name keeps it, it is a directory, and no entry fills it.
pub open spec fn reported_empty(root: Seq<char>, exclude_patterns: Seq<String>, entries: Seq<WalkEntry>, entry: WalkEntry) -> bool {
    &&& search_keeps(root, "**/*"@, exclude_patterns, None, None, None, entry)
    &&& entry.is_dir()
    &&& is_empty_dir(entries, entry.path@)
}

/// The first `n` entries that are reported as empty directories.
pub open spec fn empty_upto(root: Seq<char>, exclude_patterns: Seq<String>, entries: Seq<WalkEntry>, n: int) -> Seq<int>
    decreases n,
{
    if n <= 0 || n > entries.len() {
        Seq::empty()
    } else if reported_empty(root, exclude_patterns, entries, entries[n - 1]) {
        empty_upto(root, exclude_patterns, entries, n - 1).push(n - 1)
    } else {
        empty_upto(root, exclude_patterns, entries, n - 1)
    }
}

/// Whether `paths` are the paths of the entries with the indices `at`.
pub open spec fn paths_at(paths: Seq<String>, entries: Seq<WalkEntry>, at: Seq<int>) -> bool {
    &&& paths.len() == at.len()
    &&& forall|j: int| 0 <= j < at.len() ==> 0 <= #[trigger] at[j] < entries.len() && paths[j]@ == entries[at[j]].path@
}

/// Whether the path `inner` lies in the directory `outer`.
pub fn path_is_inside(inner: &str, outer: &str) -> (inside: bool)
    ensures
        inside == is_inside(inner@, outer@),
{
    let inner_chars = to_chars(inner);
    let outer_chars = to_chars(outer);
    let inner_rooted = inner_chars.len() > 0 && inner_chars[0] == '/';
    let outer_rooted = outer_chars.len() > 0 && outer_chars[0] == '/';
    if inner_rooted != outer_rooted {
        return false;
    }
    let inner_parts = split_components(&inner_chars);
    let outer_parts = split_components(&outer_chars);
    is_prefix(&outer_parts, &inner_parts)
}

/// Whether none of `entries` fills the directory at `dir`.
pub fn directory_is_empty(entries: &Vec<WalkEntry>, dir: &str) -> (empty: bool)
    ensures
        empty == is_empty_dir(entries@, dir@),
{
    let mut k: usize = 0;
    while k < entries.len()
        invariant
            k <= entries.len(),
            forall|j: int| 0 <= j < k ==> !fills(#[trigger] entries@[j], dir@),
        decreases entries.len() - k,
    {
        let entry = &entries[k];
        let is_file = match entry.kind {
            Some(EntryKind::File) => true,
            _ => false,
        };
        if is_file && !is_system_metadata_file(entry.file_name.as_str()) && path_is_inside(entry.path.as_str(), dir) {
            return false;
        }
        k += 1;
    }
    true
}

impl FileSystemService {
    /// The size in bytes of all the regular files among the entries that a
    /// walk under `root_path` found. The sum stops at the greatest number.
    pub fn calculate_directory_size(&self, root_path: &str, entries: &Vec<WalkEntry>) -> (size: Result<u64, ServiceError>)
        ensures
            !path_allowed(root_path@, self.roots()) ==> size is Err && size->Err_0 is NotAllowed,
            path_allowed(root_path@, self.roots()) ==> size == Ok::<u64, ServiceError>(total_size(root_path@, entries@, entries@.len() as int)),
    {
        if !self.is_allowed(root_path) {
            return Err(ServiceError::NotAllowed(root_path.to_owned()));
        }
        let no_excludes: Vec<String> = Vec::new();
        let filter = SearchFilter::new(root_path, "**/*", &no_excludes, None, None, None);
        assert(no_excludes@ =~= Seq::<String>::empty());
        let mut total: u64 = 0;
        let mut i: usize = 0;
        while i < entries.len()
            invariant
                i <= entries.len(),
                filter.prepared_from(root_path@, "**/*"@, Seq::empty(), None, None, None),
                total == total_size(root_path@, entries@, i as int),
            decreases entries.len() - i,
        {
            let entry = &entries[i];
            let is_file = match entry.kind {
                Some(EntryKind::File) => true,
                _ => false,
            };
            if is_file && filter.keeps(entry) {
                match entry.size {
                    Some(size) => {
                        total = if size <= u64::MAX - total { total + size } else { u64::MAX };
                    },
                    None => {},
                }
            }
            i += 1;
        }
        Ok(total)
    }

    /// The directories among the entries that a walk under `root_path`
    /// found which hold no regular file, at any depth, but for system
    /// metadata files.
    pub fn find_empty_directories(&self, root_path: &str, entries: &Vec<WalkEntry>, exclude_patterns: Option<Vec<String>>) -> (found: Result<Vec<String>, ServiceError>)
        ensures
            !path_allowed(root_path@, self.roots()) ==> found is Err && found->Err_0 is NotAllowed,
            path_allowed(root_path@, self.roots()) ==> found is Ok && paths_at(
                found->Ok_0@,
                entries@,
                empty_upto(
                    root_path@,
                    match exclude_patterns {
                        Some(patterns) => patterns@,
                        None => Seq::empty(),
                    },
                    entries@,
                    entries@.len() as int,
                ),
            ),
    {
        if !self.is_allowed(root_path) {
            return Err(ServiceError::NotAllowed(root_path.to_owned()));
        }
        let excludes = match exclude_patterns {
            Some(patterns) => patterns,
            None => Vec::new(),
        };
        assert(excludes@ =~= match exclude_patterns {
            Some(patterns) => patterns@,
            None => Seq::empty(),
        });
        let filter = SearchFilter::new(root_path, "**/*", &excludes, None, None, None);
        let mut empty_dirs: Vec<String> = Vec::new();
        let mut i: usize = 0;
        while i < entries.len()
            invariant
                i <= entries.len(),
                filter.prepared_from(root_path@, "**/*"@, excludes@, None, None, None),
                paths_at(empty_dirs@, entries@, empty_upto(root_path@, excludes@, entries@, i as int)),
            decreases entries.len() - i,
        {
            let entry = &entries[i];
            let ghost before = empty_upto(root_path@, excludes@, entries@, i as int);
            let ghost old_dirs = empty_dirs@;
            let is_dir = match entry.kind {
                Some(EntryKind::Directory) => true,
                _ => false,
            };
            if is_dir && filter.keeps(entry) && directory_is_empty(entries, entry.path.as_str()) {
                empty_dirs.push(entry.path.clone());
                proof {
                    let after = empty_upto(root_path@, excludes@, entries@, i + 1);
                    assert(after == before.push(i as int));
                    assert forall|j: int| 0 <= j < after.len() implies 0 <= #[trigger] after[j] < entries@.len() && empty_dirs@[j]@ == entries@[after[j]].path@ by {
                        if j < before.len() {
                            assert(after[j] == before[j]);
                            assert(empty_dirs@[j] == old_dirs[j]);
                        }
                    }
                }
            }
            i += 1;
        }
        Ok(empty_dirs)
    }
}

} // verus!
