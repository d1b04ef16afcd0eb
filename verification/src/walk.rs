//! File search under a root: which of the entries that a walk found pass
//! the name pattern, the excludes, the extension list and the size
//! window.

use vstd::prelude::*;
use vstd::string::StringExecFns;
use crate::chars::to_chars;
use crate::error::ServiceError;
use crate::sandbox::path_allowed;
use crate::service::FileSystemService;
use crate::size::{filesize_in_range, in_size_window};

verus! {

/// Whether the glob matches the path, as the `glob_match` crate decides it
/// on the platform that the library is built for.
pub uninterp spec fn glob_matches(glob: Seq<char>, path: Seq<char>) -> bool;

/// `glob_match::glob_match` computes its result from the glob and the
/// path alone; the contract gives that result its name.
pub assume_specification[ glob_match::glob_match ](glob: &str, path: &str) -> (matched: bool)
    ensures
        matched == glob_matches(glob@, path@),
;

/// `s` in lower case, as Unicode defines it.
pub uninterp spec fn unicode_lowercase(s: Seq<char>) -> Seq<char>;

/// `str::to_lowercase` returns the lower-case form of the string, which
/// depends on the string alone; the contract gives it its name.
pub assume_specification[ str::to_lowercase ](s: &str) -> (lower: String)
    ensures
        lower@ == unicode_lowercase(s@),
;

/// What kind of thing a walked entry is, without following links.
#[derive(Debug, Clone, Copy, PartialEq, Eq, Structural)]
pub enum EntryKind {
    File,
    Directory,
    Symlink,
    Other,
}

/// An entry that a walk of a directory tree found.
#[derive(Debug, Clone, PartialEq, Eq)]
pub struct WalkEntry {
    /// The path as the walk gives it.
    pub path: String,
    /// The path relative to the root of the walk.
    pub relative_path: String,
    /// The last component of the path.
    pub file_name: String,
    /// The extension of the file name, without the dot, if it has one.
    pub extension: Option<String>,
    /// The kind of the entry, where the walk could tell.
    pub kind: Option<EntryKind>,
    /// The size in bytes, where the metadata could be read.
    pub size: Option<u64>,
}

impl WalkEntry {
    /// A copy of the entry.
    pub fn duplicate(&self) -> (copy: WalkEntry)
        ensures
            copy == *self,
    {
        let extension = match &self.extension {
            Some(ext) => Some(ext.clone()),
            None => None,
        };
        WalkEntry {
            path: self.path.clone(),
            relative_path: self.relative_path.clone(),
            file_name: self.file_name.clone(),
            extension,
            kind: self.kind,
            size: self.size,
        }
    }

    /// Whether the entry is a regular file.
    pub open spec fn is_file(&self) -> bool {
        self.kind == Some(EntryKind::File)
    }

    /// Whether the entry is a directory.
    pub open spec fn is_dir(&self) -> bool {
        self.kind == Some(EntryKind::Directory)
    }
}

/// The glob that an exclude pattern stands for: a pattern with a star
/// loses one leading slash, a pattern without is wrapped in stars.
pub open spec fn exclude_glob_of(pattern: Seq<char>) -> Seq<char> {
    if pattern.contains('*') {
        if pattern.len() > 0 && pattern[0] == '/' {
            pattern.skip(1)
        } else {
            pattern
        }
    } else {
        seq!['*'] + pattern + seq!['*']
    }
}

/// The glob that a name pattern stands for: in lower case, and without a
/// star wrapped so that it matches a part of a name.
pub open spec fn name_glob_of(pattern: Seq<char>) -> Seq<char> {
    if pattern.contains('*') {
        unicode_lowercase(pattern)
    } else {
        seq!['*', '*', '/', '*'] + unicode_lowercase(pattern) + seq!['*']
    }
}

/// `c` with an ASCII capital letter turned into the small one.
pub open spec fn ascii_lower(c: char) -> char {
    if 'A' <= c <= 'Z' {
        ((c as u8) + 32) as char
    } else {
        c
    }
}

/// Whether `a` and `b` are the same but for the case of ASCII letters.
pub open spec fn same_ignoring_ascii_case(a: Seq<char>, b: Seq<char>) -> bool {
    &&& a.len() == b.len()
    &&& forall|i: int| 0 <= i < a.len() ==> ascii_lower(#[trigger] a[i]) == ascii_lower(b[i])
}

/// The strings as sequences of characters.
pub open spec fn string_views(strings: Seq<String>) -> Seq<Seq<char>> {
    Seq::new(strings.len(), |i: int| strings[i]@)
}

/// The globs that the exclude patterns stand for, one for one.
pub open spec fn exclude_globs_of(patterns: Seq<String>) -> Seq<Seq<char>> {
    Seq::new(patterns.len(), |i: int| exclude_glob_of(patterns[i]@))
}

/// Whether one of `globs` matches `path`.
pub open spec fn any_glob_matches(globs: Seq<Seq<char>>, path: Seq<char>) -> bool {
    exists|i: int| 0 <= i < globs.len() && glob_matches(#[trigger] globs[i], path)
}

/// Whether the extension passes the list: with a list, the entry has an
/// extension and the list holds it.
pub open spec fn extension_passes(allowed: Option<Vec<String>>, extension: Option<String>) -> bool {
    allowed is Some ==> extension is Some && extension_listed(allowed->0@, extension->0@)
}

/// Whether the size passes the window of a file search: the window
/// applies to regular files only, and a file whose size is unknown fails
/// it.
pub open spec fn size_passes(min_bytes: Option<u64>, max_bytes: Option<u64>, entry: WalkEntry) -> bool {
    (min_bytes is Some || max_bytes is Some) && entry.is_file() ==> entry.size is Some && in_size_window(entry.size->0, min_bytes, max_bytes)
}

/// Whether a file search keeps `entry`: it is not the root itself, no
/// exclude matches its relative path, its name in lower case matches the
/// name pattern, and its extension and size pass.
pub open spec fn search_keeps(
    root: Seq<char>,
    pattern: Seq<char>,
    exclude_patterns: Seq<String>,
    file_extensions: Option<Vec<String>>,
    min_bytes: Option<u64>,
    max_bytes: Option<u64>,
    entry: WalkEntry,
) -> bool {
    &&& entry.path@ != root
    &&& !any_glob_matches(exclude_globs_of(exclude_patterns), entry.relative_path@)
    &&& glob_matches(name_glob_of(pattern), unicode_lowercase(entry.file_name@))
    &&& extension_passes(file_extensions, entry.extension)
    &&& size_passes(min_bytes, max_bytes, entry)
}

/// The entries that a file search keeps, in their order.
pub open spec fn search_selection(
    root: Seq<char>,
    pattern: Seq<char>,
    exclude_patterns: Seq<String>,
    file_extensions: Option<Vec<String>>,
    min_bytes: Option<u64>,
    max_bytes: Option<u64>,
    entries: Seq<WalkEntry>,
) -> Seq<WalkEntry>
    decreases entries.len(),
{
    if entries.len() == 0 {
        Seq::empty()
    } else if search_keeps(root, pattern, exclude_patterns, file_extensions, min_bytes, max_bytes, entries.last()) {
        search_selection(root, pattern, exclude_patterns, file_extensions, min_bytes, max_bytes, entries.drop_last()).push(entries.last())
    } else {
        search_selection(root, pattern, exclude_patterns, file_extensions, min_bytes, max_bytes, entries.drop_last())
    }
}

/// Whether `ext` is one of `allowed`, but for the case of ASCII letters.
pub open spec fn extension_listed(allowed: Seq<String>, ext: Seq<char>) -> bool {
    exists|i: int| 0 <= i < allowed.len() && same_ignoring_ascii_case(#[trigger] allowed[i]@, ext)
}

/// The filters of a file search, made ready for the walk.
pub struct SearchFilter {
    /// The root of the walk.
    pub root: String,
    /// The glob that a file name must match, in lower case.
    pub name_glob: String,
    /// The globs that exclude a relative path.
    pub exclude_globs: Vec<String>,
    /// The extensions that are let through, if only some are.
    pub extensions: Option<Vec<String>>,
    /// The least size of a file.
    pub min_bytes: Option<u64>,
    /// The greatest size of a file.
    pub max_bytes: Option<u64>,
}

impl SearchFilter {
    /// Whether the filter is the one that a search with these arguments
    /// uses.
    pub open spec fn prepared_from(
        &self,
        root: Seq<char>,
        pattern: Seq<char>,
        exclude_patterns: Seq<String>,
        file_extensions: Option<Vec<String>>,
        min_bytes: Option<u64>,
        max_bytes: Option<u64>,
    ) -> bool {
        &&& self.root@ == root
        &&& self.name_glob@ == name_glob_of(pattern)
        &&& string_views(self.exclude_globs@) == exclude_globs_of(exclude_patterns)
        &&& self.extensions == file_extensions
        &&& self.min_bytes == min_bytes
        &&& self.max_bytes == max_bytes
    }

    /// Whether the search keeps `entry`.
    pub open spec fn selects(&self, entry: WalkEntry) -> bool {
        &&& entry.path@ != self.root@
        &&& !any_glob_matches(string_views(self.exclude_globs@), entry.relative_path@)
        &&& glob_matches(self.name_glob@, unicode_lowercase(entry.file_name@))
        &&& extension_passes(self.extensions, entry.extension)
        &&& size_passes(self.min_bytes, self.max_bytes, entry)
    }
}

/// Whether a star occurs in `chars`.
pub fn has_star(chars: &Vec<char>) -> (found: bool)
    ensures
        found == chars@.contains('*'),
{
    let mut i: usize = 0;
    while i < chars.len()
        invariant
            i <= chars.len(),
            forall|k: int| 0 <= k < i ==> chars@[k] != '*',
        decreases chars.len() - i,
    {
        if chars[i] == '*' {
            return true;
        }
        i += 1;
    }
    false
}

/// Appends `chars[from..]` to `out`.
pub fn push_chars_from(out: &mut String, chars: &Vec<char>, from: usize)
    requires
        from <= chars.len(),
    ensures
        final(out)@ == old(out)@ + chars@.skip(from as int),
{
    let mut i: usize = from;
    assert(chars@.subrange(from as int, from as int) =~= Seq::<char>::empty());
    assert(out@ =~= old(out)@ + chars@.subrange(from as int, i as int));
    while i < chars.len()
        invariant
            from <= i <= chars.len(),
            out@ == old(out)@ + chars@.subrange(from as int, i as int),
        decreases chars.len() - i,
    {
        out.push(chars[i]);
        assert(chars@.subrange(from as int, i + 1) =~= chars@.subrange(from as int, i as int).push(chars@[i as int]));
        i += 1;
    }
    assert(chars@.subrange(from as int, chars.len() as int) =~= chars@.skip(from as int));
}

/// The glob that the exclude pattern stands for.
pub fn exclude_glob(pattern: &str) -> (glob: String)
    ensures
        glob@ == exclude_glob_of(pattern@),
{
    let chars = to_chars(pattern);
    let mut glob = String::new();
    if has_star(&chars) {
        if chars.len() > 0 && chars[0] == '/' {
            push_chars_from(&mut glob, &chars, 1);
            assert(glob@ =~= chars@.skip(1));
        } else {
            push_chars_from(&mut glob, &chars, 0);
            assert(glob@ =~= chars@);
        }
    } else {
        glob.push('*');
        push_chars_from(&mut glob, &chars, 0);
        glob.push('*');
        assert(glob@ =~= seq!['*'] + chars@ + seq!['*']);
    }
    glob
}

/// The glob that the name pattern stands for.
pub fn name_glob(pattern: &str) -> (glob: String)
    ensures
        glob@ == name_glob_of(pattern@),
{
    let chars = to_chars(pattern);
    let lower = pattern.to_lowercase();
    if has_star(&chars) {
        lower
    } else {
        let mut glob = String::new();
        glob.push('*');
        glob.push('*');
        glob.push('/');
        glob.push('*');
        glob.append(lower.as_str());
        glob.push('*');
        assert(glob@ =~= seq!['*', '*', '/', '*'] + lower@ + seq!['*']);
        glob
    }
}

/// `c` with an ASCII capital letter turned into the small one.
pub fn to_ascii_lower(c: char) -> (lower: char)
    ensures
        lower == ascii_lower(c),
{
    if 'A' <= c && c <= 'Z' {
        ((c as u8) + 32) as char
    } else {
        c
    }
}

/// Whether `a` and `b` are the same but for the case of ASCII letters.
pub fn eq_ignore_ascii_case(a: &str, b: &str) -> (same: bool)
    ensures
        same == same_ignoring_ascii_case(a@, b@),
{
    let x = to_chars(a);
    let y = to_chars(b);
    if x.len() != y.len() {
        return false;
    }
    let mut i: usize = 0;
    while i < x.len()
        invariant
            i <= x.len(),
            x.len() == y.len(),
            x@ == a@,
            y@ == b@,
            forall|k: int| 0 <= k < i ==> ascii_lower(#[trigger] x@[k]) == ascii_lower(y@[k]),
        decreases x.len() - i,
    {
        if to_ascii_lower(x[i]) != to_ascii_lower(y[i]) {
            return false;
        }
        i += 1;
    }
    true
}

/// Whether one of `globs` matches `path`.
pub fn matches_any(globs: &Vec<String>, path: &str) -> (hit: bool)
    ensures
        hit == any_glob_matches(string_views(globs@), path@),
{
    let mut i: usize = 0;
    while i < globs.len()
        invariant
            i <= globs.len(),
            forall|k: int| 0 <= k < i ==> !glob_matches(#[trigger] string_views(globs@)[k], path@),
        decreases globs.len() - i,
    {
        if glob_match::glob_match(globs[i].as_str(), path) {
            assert(glob_matches(string_views(globs@)[i as int], path@));
            return true;
        }
        i += 1;
    }
    false
}

/// Whether `ext` is one of `allowed`, but for the case of ASCII letters.
pub fn extension_in(allowed: &Vec<String>, ext: &str) -> (listed: bool)
    ensures
        listed == extension_listed(allowed@, ext@),
{
    let mut i: usize = 0;
    while i < allowed.len()
        invariant
            i <= allowed.len(),
            forall|k: int| 0 <= k < i ==> !same_ignoring_ascii_case(#[trigger] allowed@[k]@, ext@),
        decreases allowed.len() - i,
    {
        if eq_ignore_ascii_case(allowed[i].as_str(), ext) {
            return true;
        }
        i += 1;
    }
    false
}

impl SearchFilter {
    /// The filter of a search under `root` for `pattern`.
    pub fn new(
        root: &str,
        pattern: &str,
        exclude_patterns: &Vec<String>,
        file_extensions: Option<Vec<String>>,
        min_bytes: Option<u64>,
        max_bytes: Option<u64>,
    ) -> (filter: SearchFilter)
        ensures
            filter.prepared_from(root@, pattern@, exclude_patterns@, file_extensions, min_bytes, max_bytes),
    {
        let mut exclude_globs: Vec<String> = Vec::new();
        let mut i: usize = 0;
        while i < exclude_patterns.len()
            invariant
                i <= exclude_patterns.len(),
                exclude_globs@.len() == i,
                forall|k: int| 0 <= k < i ==> (#[trigger] exclude_globs@[k])@ == exclude_glob_of(exclude_patterns@[k]@),
            decreases exclude_patterns.len() - i,
        {
            exclude_globs.push(exclude_glob(exclude_patterns[i].as_str()));
            i += 1;
        }
        assert(string_views(exclude_globs@) =~= exclude_globs_of(exclude_patterns@));
        SearchFilter {
            root: root.to_owned(),
            name_glob: name_glob(pattern),
            exclude_globs,
            extensions: file_extensions,
            min_bytes,
            max_bytes,
        }
    }

    /// Whether the search keeps `entry`.
    pub fn keeps(&self, entry: &WalkEntry) -> (kept: bool)
        ensures
            kept == self.selects(*entry),
    {
        if entry.path == self.root {
            return false;
        }
        if matches_any(&self.exclude_globs, entry.relative_path.as_str()) {
            return false;
        }
        let lower_name = entry.file_name.as_str().to_lowercase();
        if !glob_match::glob_match(self.name_glob.as_str(), lower_name.as_str()) {
            return false;
        }
        match &self.extensions {
            Some(allowed) => {
                match &entry.extension {
                    Some(ext) => {
                        if !extension_in(allowed, ext.as_str()) {
                            return false;
                        }
                    },
                    None => {
                        return false;
                    },
                }
            },
            None => {},
        }
        let is_file = match entry.kind {
            Some(EntryKind::File) => true,
            _ => false,
        };
        if (self.min_bytes.is_some() || self.max_bytes.is_some()) && is_file {
            return match entry.size {
                Some(size) => filesize_in_range(size, self.min_bytes, self.max_bytes),
                None => false,
            };
        }
        true
    }
}

impl FileSystemService {
    /// The entries of a walk under `root_path` that a search keeps.
    ///
    /// `root_path` is the resolved root and `entries` is what the walk
    /// found under it, in the walk's order; the result keeps that order.
    /// The name pattern is matched against each file name in lower case;
    /// a pattern without a star matches a part of the name. The search is
    /// refused when the root lies under no allowed directory.
    pub fn search_files_iter(
        &self,
        root_path: &str,
        entries: &Vec<WalkEntry>,
        pattern: String,
        exclude_patterns: Vec<String>,
        file_extensions: Option<Vec<String>>,
        min_bytes: Option<u64>,
        max_bytes: Option<u64>,
    ) -> (found: Result<Vec<WalkEntry>, ServiceError>)
        ensures
            !path_allowed(root_path@, self.roots()) ==> found is Err && found->Err_0 is NotAllowed,
            path_allowed(root_path@, self.roots()) ==> found is Ok && found->Ok_0@ == search_selection(
                root_path@,
                pattern@,
                exclude_patterns@,
                file_extensions,
                min_bytes,
                max_bytes,
                entries@,
            ),
    {
        if !self.is_allowed(root_path) {
            return Err(ServiceError::NotAllowed(root_path.to_owned()));
        }
        let filter = SearchFilter::new(root_path, pattern.as_str(), &exclude_patterns, file_extensions, min_bytes, max_bytes);
        let mut found: Vec<WalkEntry> = Vec::new();
        let mut i: usize = 0;
        assert(entries@.take(0) =~= Seq::<WalkEntry>::empty());
        while i < entries.len()
            invariant
                i <= entries.len(),
                filter.prepared_from(root_path@, pattern@, exclude_patterns@, file_extensions, min_bytes, max_bytes),
                found@ == search_selection(root_path@, pattern@, exclude_patterns@, file_extensions, min_bytes, max_bytes, entries@.take(i as int)),
            decreases entries.len() - i,
        {
            assert(entries@.take(i + 1).drop_last() =~= entries@.take(i as int));
            if filter.keeps(&entries[i]) {
                found.push(entries[i].duplicate());
            }
            i += 1;
        }
        assert(entries@.take(entries.len() as int) =~= entries@);
        Ok(found)
    }

    /// The same search, collected.
    pub fn search_files(
        &self,
        root_path: &str,
        entries: &Vec<WalkEntry>,
        pattern: String,
        exclude_patterns: Vec<String>,
        file_extensions: Option<Vec<String>>,
        min_bytes: Option<u64>,
        max_bytes: Option<u64>,
    ) -> (found: Result<Vec<WalkEntry>, ServiceError>)
        ensures
            !path_allowed(root_path@, self.roots()) ==> found is Err && found->Err_0 is NotAllowed,
            path_allowed(root_path@, self.roots()) ==> found is Ok && found->Ok_0@ == search_selection(
                root_path@,
                pattern@,
                exclude_patterns@,
                file_extensions,
                min_bytes,
                max_bytes,
                entries@,
            ),
    {
        self.search_files_iter(root_path, entries, pattern, exclude_patterns, file_extensions, min_bytes, max_bytes)
    }
}

} // verus!
