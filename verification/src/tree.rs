//! The tree of a directory: names with a mark for directories and
//! symbolic links, nested as the directories are, cut at a depth and at
//! a number of entries.

use vstd::prelude::*;
use crate::error::ServiceError;
use crate::sandbox::path_allowed;
use crate::service::FileSystemService;
use crate::walk::EntryKind;

verus! {

/// An entry of a directory as it was read, without following links, with
/// the entries below it where it is a directory that was read.
pub struct DirNode {
    pub name: String,
    pub kind: EntryKind,
    pub children: Vec<DirNode>,
}

/// A node of the tree that is shown: the name, with `/` after a
/// directory and `@` after a symbolic link, and for a directory what it
/// holds.
#[derive(Debug, PartialEq, Eq)]
pub struct TreeNode {
    pub n: String,
    pub c: Option<Vec<TreeNode>>,
}

/// A node of the tree as plain values.
pub ghost struct TreeModel {
    pub n: Seq<char>,
    pub c: Option<Seq<TreeModel>>,
}

/// The node as plain values.
pub open spec fn model_of(node: TreeNode) -> TreeModel
    decreases node,
{
    TreeModel {
        n: node.n@,
        c: match node.c {
            Some(below) => Some(models_of(below@, below@.len() as int)),
            None => None,
        },
    }
}

/// The first `k` nodes as plain values.
pub open spec fn models_of(nodes: Seq<TreeNode>, k: int) -> Seq<TreeModel>
    decreases nodes, k,
{
    if k <= 0 || k > nodes.len() {
        Seq::empty()
    } else {
        models_of(nodes, k - 1).push(model_of(nodes[k - 1]))
    }
}

/// What building a tree gives: the nodes, whether a directory was left
/// unread because of the depth, and the number of entries seen so far.
pub ghost struct TreeOutcome {
    pub nodes: Seq<TreeModel>,
    pub reached_max_depth: bool,
    pub count: usize,
}

/// The count after one more entry.
pub open spec fn bump(count: usize) -> usize {
    if count < usize::MAX {
        (count + 1) as usize
    } else {
        count
    }
}

/// The depth that is left below a directory.
pub open spec fn depth_below(max_depth: Option<usize>) -> Option<usize> {
    match max_depth {
        Some(d) => Some(if d > 0 { (d - 1) as usize } else { 0 }),
        None => None,
    }
}

/// The name of an entry as the tree shows it.
pub open spec fn shown_entry_name(name: Seq<char>, kind: EntryKind) -> Seq<char> {
    match kind {
        EntryKind::Symlink => name.push('@'),
        EntryKind::Directory => name.push('/'),
        _ => name,
    }
}

/// The tree of what the directory `dir` holds. With no depth left the
/// directory is not read. `count` entries were seen before.
pub open spec fn tree_of(dir: DirNode, max_depth: Option<usize>, max_files: Option<usize>, count: usize) -> TreeOutcome
    decreases dir,
{
    if max_depth == Some(0usize) {
        TreeOutcome { nodes: Seq::empty(), reached_max_depth: true, count }
    } else {
        tree_of_first(dir.children@, dir.children@.len() as int, max_depth, max_files, count)
    }
}

/// The tree of the first `k` of `entries`. Each entry is counted; one
/// that takes the count above `max_files` is left out, and what is below
/// it is not read. Only a directory proper is read further.
pub open spec fn tree_of_first(entries: Seq<DirNode>, k: int, max_depth: Option<usize>, max_files: Option<usize>, count: usize) -> TreeOutcome
    decreases entries, k,
{
    if k <= 0 || k > entries.len() {
        TreeOutcome { nodes: Seq::empty(), reached_max_depth: false, count }
    } else {
        let before = tree_of_first(entries, k - 1, max_depth, max_files, count);
        let entry = entries[k - 1];
        let seen = bump(before.count);
        if max_files is Some && seen > max_files->0 {
            TreeOutcome { nodes: before.nodes, reached_max_depth: before.reached_max_depth, count: seen }
        } else if entry.kind == EntryKind::Directory {
            let below = tree_of(entry, depth_below(max_depth), max_files, seen);
            TreeOutcome {
                nodes: before.nodes.push(TreeModel { n: shown_entry_name(entry.name@, entry.kind), c: Some(below.nodes) }),
                reached_max_depth: before.reached_max_depth || below.reached_max_depth,
                count: below.count,
            }
        } else {
            TreeOutcome {
                nodes: before.nodes.push(TreeModel { n: shown_entry_name(entry.name@, entry.kind), c: None }),
                reached_max_depth: before.reached_max_depth,
                count: seen,
            }
        }
    }
}

/// The name of an entry as the tree shows it.
fn entry_name(name: &String, kind: EntryKind) -> (shown: String)
    ensures
        shown@ == shown_entry_name(name@, kind),
{
    let mut shown = name.clone();
    match kind {
        EntryKind::Symlink => {
            shown.push('@');
        },
        EntryKind::Directory => {
            shown.push('/');
        },
        _ => {},
    }
    shown
}

/// Builds the tree of what the directory `dir` holds.
pub fn build_tree(dir: &DirNode, max_depth: Option<usize>, max_files: Option<usize>, current_count: &mut usize) -> (built: (Vec<TreeNode>, bool))
    ensures
        models_of(built.0@, built.0@.len() as int) == tree_of(*dir, max_depth, max_files, *old(current_count)).nodes,
        built.1 == tree_of(*dir, max_depth, max_files, *old(current_count)).reached_max_depth,
        *final(current_count) == tree_of(*dir, max_depth, max_files, *old(current_count)).count,
    decreases *dir,
{
    let mut nodes: Vec<TreeNode> = Vec::new();
    let mut reached_max_depth = false;
    if let Some(d) = max_depth {
        if d == 0 {
            return (nodes, true);
        }
    }
    let next_depth = match max_depth {
        Some(d) => Some(d - 1),
        None => None,
    };
    let ghost start = *current_count;
    let mut i: usize = 0;
    while i < dir.children.len()
        invariant
            i <= dir.children.len(),
            max_depth != Some(0usize),
            next_depth == depth_below(max_depth),
            models_of(nodes@, nodes@.len() as int) == tree_of_first(dir.children@, i as int, max_depth, max_files, start).nodes,
            reached_max_depth == tree_of_first(dir.children@, i as int, max_depth, max_files, start).reached_max_depth,
            *current_count == tree_of_first(dir.children@, i as int, max_depth, max_files, start).count,
        decreases dir.children.len() - i,
    {
        let entry = &dir.children[i];
        let ghost old_nodes = nodes@;
        if *current_count < usize::MAX {
            *current_count += 1;
        }
        let skip = match max_files {
            Some(max) => *current_count > max,
            None => false,
        };
        if !skip {
            let shown = entry_name(&entry.name, entry.kind);
            let is_dir = match entry.kind {
                EntryKind::Directory => true,
                _ => false,
            };
            let ghost seen = *current_count;
            let ghost before = tree_of_first(dir.children@, i as int, max_depth, max_files, start);
            let ghost after = tree_of_first(dir.children@, i + 1, max_depth, max_files, start);
            if is_dir {
                let (below, below_reached) = build_tree(entry, next_depth, max_files, current_count);
                reached_max_depth = reached_max_depth || below_reached;
                let ghost below_models = models_of(below@, below@.len() as int);
                let node = TreeNode { n: shown, c: Some(below) };
                assert(model_of(node) == TreeModel { n: shown@, c: Some(below_models) });
                nodes.push(node);
                assert(after.nodes == before.nodes.push(TreeModel { n: shown@, c: Some(below_models) }));
            } else {
                let node = TreeNode { n: shown, c: None };
                assert(model_of(node) == TreeModel { n: shown@, c: None });
                nodes.push(node);
                assert(after.nodes == before.nodes.push(TreeModel { n: shown@, c: None }));
            }
            proof {
                let len = nodes@.len() as int;
                lemma_models_prefix(nodes@, len - 1);
                assert(nodes@.take(len - 1) =~= old_nodes);
                assert(models_of(nodes@, len) == models_of(nodes@, len - 1).push(model_of(nodes@[len - 1])));
            }
        }
        i += 1;
    }
    (nodes, reached_max_depth)
}

/// The models of the first `k` nodes depend on those nodes alone.
pub proof fn lemma_models_prefix(nodes: Seq<TreeNode>, k: int)
    requires
        0 <= k <= nodes.len(),
    ensures
        models_of(nodes, k) == models_of(nodes.take(k), k),
    decreases k,
{
    if k > 0 {
        lemma_models_prefix(nodes, k - 1);
        lemma_models_prefix(nodes.take(k), k - 1);
        assert(nodes.take(k).take(k - 1) =~= nodes.take(k - 1));
    }
}

impl FileSystemService {
    /// The tree of the directory at `root_path`, resolved, whose entries
    /// were read into `root`.
    ///
    /// `max_depth` bounds the levels that are shown, `max_files` the
    /// entries. `current_count` counts the entries seen. The second part
    /// of the result says whether a directory was left unread because of
    /// the depth. The tree is refused when the root lies under no allowed
    /// directory, and when it is no directory.
    pub fn directory_tree(
        &self,
        root_path: &str,
        root: &DirNode,
        max_depth: Option<usize>,
        max_files: Option<usize>,
        current_count: &mut usize,
    ) -> (built: Result<(Vec<TreeNode>, bool), ServiceError>)
        ensures
            !path_allowed(root_path@, self.roots()) ==> built is Err && built->Err_0 is NotAllowed && *final(current_count) == *old(current_count),
            path_allowed(root_path@, self.roots()) && root.kind != EntryKind::Directory ==> built is Err && built->Err_0 is FromString
                && built->Err_0->FromString_0@ == "Root path must be a directory"@ && *final(current_count) == *old(current_count),
            path_allowed(root_path@, self.roots()) && root.kind == EntryKind::Directory ==> built is Ok && ({
                let outcome = tree_of(*root, max_depth, max_files, *old(current_count));
                &&& models_of(built->Ok_0.0@, built->Ok_0.0@.len() as int) == outcome.nodes
                &&& built->Ok_0.1 == outcome.reached_max_depth
                &&& *final(current_count) == outcome.count
            }),
    {
        if !self.is_allowed(root_path) {
            return Err(ServiceError::NotAllowed(root_path.to_owned()));
        }
        let is_dir = match root.kind {
            EntryKind::Directory => true,
            _ => false,
        };
        if !is_dir {
            return Err(ServiceError::FromString("Root path must be a directory".to_owned()));
        }
        Ok(build_tree(root, max_depth, max_files, current_count))
    }
}

} // verus!
