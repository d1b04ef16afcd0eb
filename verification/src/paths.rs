//! Paths as a request names them: the `file://` prefix, the home
//! directory, and the symbolic links along the way.

use vstd::prelude::*;
use vstd::string::StringExecFns;
use crate::chars::to_chars;
use crate::snippet::{trim_end_index, trim_start_index, trimmed};
use crate::walk::push_chars_from;

verus! {

/// The prefix of a file URI.
pub open spec fn uri_prefix() -> Seq<char> {
    seq!['f', 'i', 'l', 'e', ':', '/', '/']
}

/// Whether `s` starts with `prefix`.
pub open spec fn starts_with(s: Seq<char>, prefix: Seq<char>) -> bool {
    prefix.len() <= s.len() && s.take(prefix.len() as int) == prefix
}

/// The path that `input` names: without a leading `file://`, and then
/// without white space at either end.
pub open spec fn path_in(input: Seq<char>) -> Seq<char> {
    if starts_with(input, uri_prefix()) {
        trimmed(input.skip(uri_prefix().len() as int))
    } else {
        trimmed(input)
    }
}

/// Whether `chars` from `from` on start with `file://`.
fn has_uri_prefix(chars: &Vec<char>) -> (found: bool)
    ensures
        found == starts_with(chars@, uri_prefix()),
{
    if chars.len() < 7 {
        return false;
    }
    let found = chars[0] == 'f' && chars[1] == 'i' && chars[2] == 'l' && chars[3] == 'e' && chars[4] == ':' && chars[5] == '/' && chars[6] == '/';
    proof {
        let head = chars@.take(7);
        if found {
            assert(head =~= uri_prefix());
        } else {
            assert(head[0] == chars@[0] && head[1] == chars@[1] && head[2] == chars@[2] && head[3] == chars@[3] && head[4] == chars@[4] && head[5]
                == chars@[5] && head[6] == chars@[6]);
            assert(uri_prefix()[0] == 'f' && uri_prefix()[1] == 'i' && uri_prefix()[2] == 'l' && uri_prefix()[3] == 'e' && uri_prefix()[4] == ':'
                && uri_prefix()[5] == '/' && uri_prefix()[6] == '/');
        }
    }
    found
}

/// The path that `input` names, be it a raw path or a `file://` URI.
pub fn parse_file_path(input: &str) -> (path: String)
    ensures
        path@ == path_in(input@),
{
    let chars = to_chars(input);
    let mut rest: Vec<char> = Vec::new();
    let from: usize = if has_uri_prefix(&chars) { 7 } else { 0 };
    let mut i: usize = from;
    while i < chars.len()
        invariant
            from <= i <= chars.len(),
            rest@ == chars@.subrange(from as int, i as int),
        decreases chars.len() - i,
    {
        rest.push(chars[i]);
        assert(chars@.subrange(from as int, i + 1) =~= chars@.subrange(from as int, i as int).push(chars@[i as int]));
        i += 1;
    }
    assert(rest@ =~= chars@.skip(from as int));
    assert(chars@.skip(0) =~= chars@);
    let lead = trim_start_index(&rest);
    let tail = trim_end_index(&rest);
    let mut path = String::new();
    let mut k: usize = lead;
    while k < tail
        invariant
            lead <= k,
            k <= tail || lead >= tail,
            tail <= rest.len(),
            path@ == if lead < tail { rest@.subrange(lead as int, k as int) } else { Seq::<char>::empty() },
        decreases tail - k,
    {
        path.push(rest[k]);
        assert(rest@.subrange(lead as int, k + 1) =~= rest@.subrange(lead as int, k as int).push(rest@[k as int]));
        k += 1;
    }
    assert(path@ =~= trimmed(rest@));
    path
}

/// The resolved form of a path: what resolving it against the disk gave,
/// or the path itself where that failed.
pub fn normalize_path(path: &str, canonical: Option<String>) -> (normalized: String)
    ensures
        normalized@ == (match canonical {
            Some(resolved) => resolved@,
            None => path@,
        }),
{
    match canonical {
        Some(resolved) => resolved,
        None => path.to_owned(),
    }
}

/// Whether the first component of the path is `~`.
pub open spec fn starts_at_home(path: Seq<char>) -> bool {
    path.len() > 0 && path[0] == '~' && (path.len() == 1 || path[1] == '/')
}

/// The index of the first character at or after `i` that is no slash.
pub open spec fn after_slashes(path: Seq<char>, i: int) -> int
    decreases path.len() - i,
{
    if i >= path.len() || i < 0 {
        path.len() as int
    } else if path[i] != '/' {
        i
    } else {
        after_slashes(path, i + 1)
    }
}

/// `base` with `rest` below it.
pub open spec fn joined(base: Seq<char>, rest: Seq<char>) -> Seq<char> {
    if base.len() > 0 && base.last() != '/' {
        base + seq!['/'] + rest
    } else {
        base + rest
    }
}

/// The path with a leading `~` replaced by the home directory, where
/// there is one.
pub open spec fn home_expanded(path: Seq<char>, home: Option<Seq<char>>) -> Seq<char> {
    if home is Some && starts_at_home(path) {
        joined(home->0, path.skip(after_slashes(path, 1)))
    } else {
        path
    }
}

/// Replaces a leading `~` by the home directory `home`, where it is
/// known. A `~` elsewhere stays.
pub fn expand_home(path: &str, home: Option<&str>) -> (expanded: String)
    ensures
        expanded@ == home_expanded(
            path@,
            match home {
                Some(h) => Some(h@),
                None => None,
            },
        ),
{
    let chars = to_chars(path);
    let at_home = chars.len() > 0 && chars[0] == '~' && (chars.len() == 1 || chars[1] == '/');
    match home {
        Some(base) => {
            if !at_home {
                return path.to_owned();
            }
            let mut from: usize = 1;
            while from < chars.len() && chars[from] == '/'
                invariant
                    1 <= from <= chars.len(),
                    after_slashes(chars@, 1) == after_slashes(chars@, from as int),
                decreases chars.len() - from,
            {
                from += 1;
            }
            let base_chars = to_chars(base);
            let mut expanded = String::from_str(base);
            if base_chars.len() > 0 && base_chars[base_chars.len() - 1] != '/' {
                expanded.push('/');
            }
            push_chars_from(&mut expanded, &chars, from);
            assert(expanded@ =~= joined(base@, chars@.skip(from as int)));
            expanded
        },
        None => path.to_owned(),
    }
}

/// What is known of one component of a path, from the root down to it.
#[derive(Debug, Clone, PartialEq, Eq)]
pub enum ComponentFact {
    /// The component is the prefix of a verbatim disk path; it is not
    /// looked at.
    VerbatimDisk,
    /// Nothing exists at the path down to this component.
    Missing,
    /// The path down to this component exists; it is a symbolic link or
    /// not.
    Present { symlink: bool },
    /// The path down to this component exists, but could not be looked
    /// at; the message of the failure.
    Unreadable(String),
}

/// Whether the search for a symbolic link ends at this component.
pub open spec fn is_decisive(fact: ComponentFact) -> bool {
    match fact {
        ComponentFact::VerbatimDisk => false,
        ComponentFact::Missing => true,
        ComponentFact::Present { symlink } => symlink,
        ComponentFact::Unreadable(_) => true,
    }
}

/// The index of the first decisive component at or after `i`, or the
/// number of components.
pub open spec fn first_decisive(facts: Seq<ComponentFact>, i: int) -> int
    decreases facts.len() - i,
{
    if i >= facts.len() || i < 0 {
        facts.len() as int
    } else if is_decisive(facts[i]) {
        i
    } else {
        first_decisive(facts, i + 1)
    }
}

/// Whether `found` is what the components say of symbolic links: the
/// first component that is missing, unreadable or a link decides; a
/// missing one ends the search without a link, an unreadable one fails it.
pub open spec fn symlink_verdict(found: Result<bool, String>, facts: Seq<ComponentFact>) -> bool {
    let at = first_decisive(facts, 0);
    if at >= facts.len() {
        found == Ok::<bool, String>(false)
    } else {
        match facts[at] {
            ComponentFact::Unreadable(message) => found is Err && found->Err_0@ == message@,
            ComponentFact::Present { symlink } => found == Ok::<bool, String>(true),
            _ => found == Ok::<bool, String>(false),
        }
    }
}

/// Whether a component of a path is a symbolic link, from what is known
/// of each component, the first of the path first.
pub fn contains_symlink(facts: &Vec<ComponentFact>) -> (found: Result<bool, String>)
    ensures
        symlink_verdict(found, facts@),
{
    let mut i: usize = 0;
    while i < facts.len()
        invariant
            i <= facts.len(),
            first_decisive(facts@, 0) == first_decisive(facts@, i as int),
        decreases facts.len() - i,
    {
        match &facts[i] {
            ComponentFact::VerbatimDisk => {},
            ComponentFact::Missing => {
                return Ok(false);
            },
            ComponentFact::Present { symlink } => {
                if *symlink {
                    return Ok(true);
                }
            },
            ComponentFact::Unreadable(message) => {
                return Err(message.clone());
            },
        }
        i += 1;
    }
    Ok(false)
}

/// Whether `c` is a letter of the ASCII alphabet.
pub open spec fn is_ascii_letter(c: char) -> bool {
    ('a' <= c <= 'z') || ('A' <= c <= 'Z')
}

/// Whether `s` is the prefix of a verbatim disk path: `\\?\`, a drive
/// letter and a colon.
pub open spec fn is_verbatim_disk_prefix(s: Seq<char>) -> bool {
    s.len() == 6 && s[0] == '\\' && s[1] == '\\' && s[2] == '?' && s[3] == '\\' && is_ascii_letter(s[4]) && s[5] == ':'
}

/// Whether the component is the prefix of a verbatim disk path.
pub fn is_verbatim_disk(component: &str) -> (verbatim: bool)
    ensures
        verbatim == is_verbatim_disk_prefix(component@),
{
    let s = to_chars(component);
    if s.len() != 6 {
        return false;
    }
    let letter = s[4];
    s[0] == '\\' && s[1] == '\\' && s[2] == '?' && s[3] == '\\' && (('a' <= letter && letter <= 'z') || ('A' <= letter && letter <= 'Z')) && s[5] == ':'
}

} // verus!
