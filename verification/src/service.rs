//! The service object: the allow-list of root directories and the
//! operations that work under it.

use vstd::prelude::*;
use vstd::string::StringExecFns;
use crate::error::ServiceError;

verus! {

/// A path that is put forward as an allowed root: resolved, and known to
/// be a directory or not.
#[derive(Debug, Clone, PartialEq, Eq)]
pub struct DirectoryCandidate {
    pub path: String,
    pub is_directory: bool,
}

/// A root that a client offers: the URI as the client gave it, and the
/// resolved path where the URI names a directory.
#[derive(Debug, Clone, PartialEq, Eq)]
pub struct RootCandidate {
    pub uri: String,
    pub resolved: Option<String>,
}

/// The index of the first candidate at or after `i` that is no directory,
/// or the number of candidates.
pub open spec fn first_non_directory(candidates: Seq<DirectoryCandidate>, i: int) -> int
    decreases candidates.len() - i,
{
    if i >= candidates.len() || i < 0 {
        candidates.len() as int
    } else if !candidates[i].is_directory {
        i
    } else {
        first_non_directory(candidates, i + 1)
    }
}

/// The paths of the candidates.
pub open spec fn candidate_paths(candidates: Seq<DirectoryCandidate>) -> Seq<Seq<char>> {
    Seq::new(candidates.len(), |i: int| candidates[i].path@)
}

/// The message for a candidate that is no directory.
pub open spec fn not_a_directory_message(path: Seq<char>) -> Seq<char> {
    "Error: "@ + path + " is not a directory"@
}

/// The resolved paths of the first `n` roots that name a directory.
pub open spec fn valid_upto(candidates: Seq<RootCandidate>, n: int) -> Seq<Seq<char>>
    decreases n,
{
    if n <= 0 || n > candidates.len() {
        Seq::empty()
    } else if candidates[n - 1].resolved is Some {
        valid_upto(candidates, n - 1).push(candidates[n - 1].resolved->0@)
    } else {
        valid_upto(candidates, n - 1)
    }
}

/// The URIs of the first `n` roots that name no directory, each after a
/// comma and a space but the first.
pub open spec fn skipped_upto(candidates: Seq<RootCandidate>, n: int) -> Seq<char>
    decreases n,
{
    if n <= 0 || n > candidates.len() {
        Seq::empty()
    } else if candidates[n - 1].resolved is Some {
        skipped_upto(candidates, n - 1)
    } else if skipped_upto(candidates, n - 1).len() == 0 {
        candidates[n - 1].uri@
    } else {
        skipped_upto(candidates, n - 1) + ", "@ + candidates[n - 1].uri@
    }
}

/// Whether one of the first `n` roots names no directory.
pub open spec fn any_skipped(candidates: Seq<RootCandidate>, n: int) -> bool {
    exists|k: int| 0 <= k < n && k < candidates.len() && (#[trigger] candidates[k]).resolved is None
}

/// What is said of roots that were passed over.
pub open spec fn skipped_message(candidates: Seq<RootCandidate>) -> Seq<char> {
    "Skipped roots that are not directories: "@ + skipped_upto(candidates, candidates.len() as int)
}

/// A filesystem service confined to a list of allowed root directories.
///
/// The roots are absolute, canonical directory paths written with `/`
/// between components. An empty list allows nothing.
pub struct FileSystemService {
    pub allowed: Vec<String>,
}

impl FileSystemService {
    /// The allowed roots as sequences of characters, in order.
    pub open spec fn roots(&self) -> Seq<Seq<char>> {
        Seq::new(self.allowed@.len(), |i: int| self.allowed@[i]@)
    }

    /// A service over the given roots.
    pub fn new(allowed_directories: Vec<String>) -> (service: Self)
        ensures
            service.allowed == allowed_directories,
    {
        FileSystemService { allowed: allowed_directories }
    }

    /// A service over the candidates, which must all be directories: the
    /// first that is none is refused by name.
    pub fn try_new(candidates: &Vec<DirectoryCandidate>) -> (made: Result<Self, ServiceError>)
        ensures
            ({
                let at = first_non_directory(candidates@, 0);
                if at >= candidates@.len() {
                    made is Ok && made->Ok_0.roots() == candidate_paths(candidates@)
                } else {
                    made is Err && made->Err_0 is FromString && made->Err_0->FromString_0@ == not_a_directory_message(candidates@[at].path@)
                }
            }),
    {
        let mut allowed: Vec<String> = Vec::new();
        let mut i: usize = 0;
        while i < candidates.len()
            invariant
                i <= candidates.len(),
                first_non_directory(candidates@, 0) == first_non_directory(candidates@, i as int),
                allowed@.len() == i,
                forall|k: int| 0 <= k < i ==> (#[trigger] allowed@[k])@ == candidates@[k].path@,
            decreases candidates.len() - i,
        {
            if !candidates[i].is_directory {
                let mut message = String::from_str("Error: ");
                message.append(candidates[i].path.as_str());
                message.append(" is not a directory");
                return Err(ServiceError::FromString(message));
            }
            allowed.push(candidates[i].path.clone());
            i += 1;
        }
        let service = FileSystemService { allowed };
        assert(service.roots() =~= candidate_paths(candidates@));
        Ok(service)
    }

    /// The roots among `candidates` that name a directory, by their
    /// resolved paths and in their order, and a word on the others if
    /// there are any.
    pub fn valid_roots(&self, candidates: &Vec<RootCandidate>) -> (sorted: (Vec<String>, Option<String>))
        ensures
            sorted.0@.len() == valid_upto(candidates@, candidates@.len() as int).len(),
            forall|k: int| 0 <= k < sorted.0@.len() ==> (#[trigger] sorted.0@[k])@ == valid_upto(candidates@, candidates@.len() as int)[k],
            any_skipped(candidates@, candidates@.len() as int) ==> sorted.1 is Some && sorted.1->0@ == skipped_message(candidates@),
            !any_skipped(candidates@, candidates@.len() as int) ==> sorted.1 is None,
    {
        let mut valid: Vec<String> = Vec::new();
        let mut skipped = String::new();
        let mut some_skipped = false;
        let mut i: usize = 0;
        while i < candidates.len()
            invariant
                i <= candidates.len(),
                valid@.len() == valid_upto(candidates@, i as int).len(),
                forall|k: int| 0 <= k < valid@.len() ==> (#[trigger] valid@[k])@ == valid_upto(candidates@, i as int)[k],
                skipped@ == skipped_upto(candidates@, i as int),
                some_skipped == any_skipped(candidates@, i as int),
            decreases candidates.len() - i,
        {
            match &candidates[i].resolved {
                Some(path) => {
                    valid.push(path.clone());
                    proof {
                        if any_skipped(candidates@, i + 1) {
                            let k = choose|k: int| 0 <= k < i + 1 && k < candidates@.len() && (#[trigger] candidates@[k]).resolved is None;
                            assert(candidates@[k].resolved is None);
                        }
                    }
                },
                None => {
                    if skipped.as_str().unicode_len() > 0 {
                        skipped.append(", ");
                    }
                    skipped.append(candidates[i].uri.as_str());
                    some_skipped = true;
                    assert(candidates@[i as int].resolved is None);
                    assert(skipped@ =~= skipped_upto(candidates@, i + 1));
                },
            }
            i += 1;
        }
        if some_skipped {
            let mut message = String::from_str("Skipped roots that are not directories: ");
            message.append(skipped.as_str());
            (valid, Some(message))
        } else {
            (valid, None)
        }
    }

    /// The current allow-list.
    pub fn allowed_directories(&self) -> (roots: &Vec<String>)
        ensures
            roots == self.allowed,
    {
        &self.allowed
    }

    /// Replaces the whole allow-list by `new_list`.
    pub fn update_allowed_paths(&mut self, new_list: Vec<String>)
        ensures
            final(self).allowed == new_list,
    {
        self.allowed = new_list;
    }
}

} // verus!
