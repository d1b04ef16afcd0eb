//! The path sandbox: whether a resolved path lies under an allowed root.
//!
//! Paths are absolute and written with `/` between components. Resolving
//! a requested path against the disk is the caller's part; the decision
//! over what came back is made here.

use vstd::prelude::*;
use crate::chars::to_chars;
use crate::error::ServiceError;
use crate::service::FileSystemService;

verus! {

/// `done` with `current` added as a component, unless `current` is empty
/// or the single dot.
pub open spec fn with_component(done: Seq<Seq<char>>, current: Seq<char>) -> Seq<Seq<char>> {
    if current.len() == 0 || current == seq!['.'] {
        done
    } else {
        done.push(current)
    }
}

/// The components of `s` from index `i` on, after the components `done`
/// and the begun component `current`.
pub open spec fn split_from(s: Seq<char>, i: int, current: Seq<char>, done: Seq<Seq<char>>) -> Seq<Seq<char>>
    decreases s.len() - i,
{
    if i >= s.len() || i < 0 {
        with_component(done, current)
    } else if s[i] == '/' {
        split_from(s, i + 1, Seq::empty(), with_component(done, current))
    } else {
        split_from(s, i + 1, current.push(s[i]), done)
    }
}

/// The components of the path `s`: the pieces between slashes, without
/// the empty ones and the single dots.
pub open spec fn components(s: Seq<char>) -> Seq<Seq<char>> {
    split_from(s, 0, Seq::empty(), Seq::empty())
}

/// Whether the path starts at the root of the filesystem.
pub open spec fn is_absolute(s: Seq<char>) -> bool {
    s.len() > 0 && s[0] == '/'
}

/// Whether a component `..` occurs in the path.
pub open spec fn climbs(s: Seq<char>) -> bool {
    components(s).contains(seq!['.', '.'])
}

/// Whether `path` lies in the directory `root` or is that directory: both
/// are absolute, the components of `root` are the first components of
/// `path`, and `path` does not climb.
pub open spec fn lies_under(path: Seq<char>, root: Seq<char>) -> bool {
    &&& is_absolute(path)
    &&& is_absolute(root)
    &&& !climbs(path)
    &&& components(root).len() <= components(path).len()
    &&& components(path).take(components(root).len() as int) == components(root)
}

/// Whether `path` lies under one of `roots`.
pub open spec fn path_allowed(path: Seq<char>, roots: Seq<Seq<char>>) -> bool {
    exists|i: int| 0 <= i < roots.len() && lies_under(path, #[trigger] roots[i])
}

/// The views of the components.
pub open spec fn components_view(parts: Seq<Vec<char>>) -> Seq<Seq<char>> {
    Seq::new(parts.len(), |i: int| parts[i]@)
}

/// Splits a path into its components.
pub fn split_components(path: &Vec<char>) -> (parts: Vec<Vec<char>>)
    ensures
        components_view(parts@) == components(path@),
{
    let mut parts: Vec<Vec<char>> = Vec::new();
    let mut current: Vec<char> = Vec::new();
    let mut i: usize = 0;
    assert(components_view(parts@) =~= Seq::<Seq<char>>::empty());
    while i < path.len()
        invariant
            i <= path.len(),
            split_from(path@, i as int, current@, components_view(parts@)) == components(path@),
        decreases path.len() - i,
    {
        let c = path[i];
        if c == '/' {
            let ghost before = components_view(parts@);
            let ghost cur = current@;
            if current.len() > 0 && !(current.len() == 1 && current[0] == '.') {
                parts.push(current);
                assert(components_view(parts@) =~= before.push(cur));
                assert(cur != seq!['.']) by {
                    if cur.len() == 1 {
                        assert(cur[0] != '.');
                        assert(seq!['.'][0] == '.');
                    }
                }
            } else {
                assert(cur.len() == 0 || cur =~= seq!['.']);
            }
            current = Vec::new();
        } else {
            current.push(c);
        }
        i += 1;
    }
    let ghost before = components_view(parts@);
    let ghost cur = current@;
    if current.len() > 0 && !(current.len() == 1 && current[0] == '.') {
        parts.push(current);
        assert(components_view(parts@) =~= before.push(cur));
        assert(cur != seq!['.']) by {
            if cur.len() == 1 {
                assert(cur[0] != '.');
                assert(seq!['.'][0] == '.');
            }
        }
    } else {
        assert(cur.len() == 0 || cur =~= seq!['.']);
    }
    parts
}

/// Whether two sequences of characters are the same.
pub fn same_chars(a: &Vec<char>, b: &Vec<char>) -> (same: bool)
    ensures
        same == (a@ == b@),
{
    if a.len() != b.len() {
        return false;
    }
    let mut i: usize = 0;
    while i < a.len()
        invariant
            i <= a.len(),
            a.len() == b.len(),
            forall|k: int| 0 <= k < i ==> a@[k] == b@[k],
        decreases a.len() - i,
    {
        if a[i] != b[i] {
            return false;
        }
        i += 1;
    }
    assert(a@ =~= b@);
    true
}

/// Whether one of the components is `..`.
fn has_parent_component(parts: &Vec<Vec<char>>) -> (found: bool)
    ensures
        found == components_view(parts@).contains(seq!['.', '.']),
{
    let mut i: usize = 0;
    while i < parts.len()
        invariant
            i <= parts.len(),
            forall|k: int| 0 <= k < i ==> components_view(parts@)[k] != seq!['.', '.'],
        decreases parts.len() - i,
    {
        let part = &parts[i];
        if part.len() == 2 && part[0] == '.' && part[1] == '.' {
            assert(part@ =~= seq!['.', '.']);
            assert(components_view(parts@)[i as int] == seq!['.', '.']);
            return true;
        }
        assert(part@ != seq!['.', '.']) by {
            if part@.len() == 2 {
                assert(seq!['.', '.'][0] == '.' && seq!['.', '.'][1] == '.');
            }
        }
        i += 1;
    }
    false
}

/// Whether the components `root` are the first of the components `path`.
pub fn is_prefix(root: &Vec<Vec<char>>, path: &Vec<Vec<char>>) -> (prefix: bool)
    ensures
        prefix == (root@.len() <= path@.len() && components_view(path@).take(root@.len() as int) == components_view(root@)),
{
    if root.len() > path.len() {
        return false;
    }
    let mut i: usize = 0;
    while i < root.len()
        invariant
            i <= root.len() <= path.len(),
            forall|k: int| 0 <= k < i ==> root@[k]@ == path@[k]@,
        decreases root.len() - i,
    {
        if !same_chars(&root[i], &path[i]) {
            assert(components_view(path@).take(root@.len() as int)[i as int] != components_view(root@)[i as int]);
            return false;
        }
        i += 1;
    }
    assert(components_view(path@).take(root@.len() as int) =~= components_view(root@));
    true
}

/// Whether `path` lies under `root`.
pub fn is_path_under(path: &str, root: &str) -> (under: bool)
    ensures
        under == lies_under(path@, root@),
{
    let path_chars = to_chars(path);
    let root_chars = to_chars(root);
    if path_chars.len() == 0 || root_chars.len() == 0 {
        return false;
    }
    if path_chars[0] != '/' || root_chars[0] != '/' {
        return false;
    }
    let path_parts = split_components(&path_chars);
    if has_parent_component(&path_parts) {
        return false;
    }
    let root_parts = split_components(&root_chars);
    is_prefix(&root_parts, &path_parts)
}

impl FileSystemService {
    /// Whether `path`, absolute and resolved, lies under an allowed root.
    pub fn is_allowed(&self, path: &str) -> (allowed: bool)
        ensures
            allowed == path_allowed(path@, self.roots()),
    {
        let mut i: usize = 0;
        while i < self.allowed.len()
            invariant
                i <= self.allowed.len(),
                forall|k: int| 0 <= k < i ==> !lies_under(path@, #[trigger] self.roots()[k]),
            decreases self.allowed.len() - i,
        {
            if is_path_under(path, self.allowed[i].as_str()) {
                assert(lies_under(path@, self.roots()[i as int]));
                return true;
            }
            i += 1;
        }
        false
    }

    /// Decides on a requested path once it has been resolved.
    ///
    /// `resolved` is the absolute path that the request stands for, with
    /// symbolic links followed as far as the path exists; `through_symlink`
    /// says whether a component of the request is a symbolic link. The
    /// path is refused unless it lies under an allowed root, and then
    /// refused if it goes through a symbolic link; otherwise it is handed
    /// back.
    pub fn validate_path(&self, resolved: &str, through_symlink: bool) -> (valid: Result<String, ServiceError>)
        ensures
            !path_allowed(resolved@, self.roots()) ==> valid is Err && valid->Err_0 is NotAllowed && valid->Err_0->NotAllowed_0@ == resolved@,
            path_allowed(resolved@, self.roots()) && through_symlink ==> valid is Err && valid->Err_0 is SymlinkInPath
                && valid->Err_0->SymlinkInPath_0@ == resolved@,
            path_allowed(resolved@, self.roots()) && !through_symlink ==> valid is Ok && valid->Ok_0@ == resolved@,
    {
        if !self.is_allowed(resolved) {
            Err(ServiceError::NotAllowed(resolved.to_owned()))
        } else if through_symlink {
            Err(ServiceError::SymlinkInPath(resolved.to_owned()))
        } else {
            Ok(resolved.to_owned())
        }
    }
}

/// With no allowed root, no path is allowed.
pub proof fn lemma_empty_allow_list_denies(path: Seq<char>)
    ensures
        !path_allowed(path, Seq::<Seq<char>>::empty()),
{
}

} // verus!
