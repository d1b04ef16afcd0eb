//! The decisions of the server around the service: which tools may be
//! called, what the server says when it starts, and what it does with
//! the roots of a client.

use vstd::prelude::*;
use vstd::string::StringExecFns;
use crate::chars::to_chars;
use crate::cli::CommandArguments;
use crate::decimal::{decimal, push_decimal};
use crate::error::ServiceError;
use crate::sandbox::same_chars;
use crate::service::FileSystemService;
use crate::snippet::{trim_end_index, trim_start_index, trimmed};
use crate::tools::{all_tools, name_of_tool, writes, FileSystemTools};
use crate::walk::{eq_ignore_ascii_case, same_ignoring_ascii_case, string_views, unicode_lowercase};

verus! {

/// The server's side of the service.
pub struct FileSystemHandler {
    /// Whether tools that write are refused.
    pub readonly: bool,
    /// Whether the roots of a client replace the allowed directories.
    pub mcp_roots_support: bool,
    /// The service.
    pub fs_service: FileSystemService,
    /// The names of the tools that may be called, in lower case; all of
    /// them where there is no list.
    pub enabled_tools: Option<Vec<String>>,
}

/// The name of the tool that is always enabled.
pub open spec fn always_enabled() -> Seq<char> {
    "list_allowed_directories"@
}

/// `done` with the name in the piece `current` added: the piece trimmed
/// and in lower case, unless nothing is left of it.
pub open spec fn with_name(done: Seq<Seq<char>>, current: Seq<char>) -> Seq<Seq<char>> {
    if trimmed(current).len() == 0 {
        done
    } else {
        done.push(unicode_lowercase(trimmed(current)))
    }
}

/// The names in `s` from index `i` on, after the names `done` and the
/// begun piece `current`; a comma ends a piece.
pub open spec fn names_from(s: Seq<char>, i: int, current: Seq<char>, done: Seq<Seq<char>>) -> Seq<Seq<char>>
    decreases s.len() - i,
{
    if i >= s.len() || i < 0 {
        with_name(done, current)
    } else if s[i] == ',' {
        names_from(s, i + 1, Seq::empty(), with_name(done, current))
    } else {
        names_from(s, i + 1, current.push(s[i]), done)
    }
}

/// The tools that the argument enables: all of them, which is no list,
/// where the argument is missing, blank or `all`; else the names between
/// its commas, and the tool that is always enabled.
pub open spec fn enabled_by(tools: Option<String>) -> Option<Seq<Seq<char>>> {
    match tools {
        None => None,
        Some(list) => {
            let t = trimmed(list@);
            if t.len() == 0 || same_ignoring_ascii_case(t, "all"@) {
                None
            } else {
                Some(names_from(list@, 0, Seq::empty(), Seq::empty()).push(always_enabled()))
            }
        },
    }
}

/// The piece trimmed and in lower case.
fn tool_name_in(piece: &Vec<char>) -> (name: String)
    ensures
        name@ == unicode_lowercase(trimmed(piece@)),
{
    let lead = trim_start_index(piece);
    let tail = trim_end_index(piece);
    let mut kept = String::new();
    let mut k: usize = lead;
    while k < tail
        invariant
            lead <= k,
            k <= tail || lead >= tail,
            tail <= piece.len(),
            kept@ == if lead < tail { piece@.subrange(lead as int, k as int) } else { Seq::<char>::empty() },
        decreases tail - k,
    {
        kept.push(piece[k]);
        assert(piece@.subrange(lead as int, k + 1) =~= piece@.subrange(lead as int, k as int).push(piece@[k as int]));
        k += 1;
    }
    assert(kept@ =~= trimmed(piece@));
    kept.as_str().to_lowercase()
}

/// Whether nothing is left of the piece once it is trimmed.
fn piece_is_blank(piece: &Vec<char>) -> (b: bool)
    ensures
        b == (trimmed(piece@).len() == 0),
{
    trim_start_index(piece) >= trim_end_index(piece)
}

/// The tools that the argument enables.
pub fn parse_enabled_tools(tools: &Option<String>) -> (enabled: Option<Vec<String>>)
    ensures
        match enabled_by(*tools) {
            None => enabled is None,
            Some(names) => enabled is Some && string_views(enabled->0@) == names,
        },
{
    let list = match tools {
        Some(list) => list,
        None => {
            return None;
        },
    };
    let chars = to_chars(list.as_str());
    if piece_is_blank(&chars) {
        return None;
    }
    let lead = trim_start_index(&chars);
    let tail = trim_end_index(&chars);
    let mut t = String::new();
    let mut k: usize = lead;
    while k < tail
        invariant
            lead <= k <= tail <= chars.len(),
            t@ == chars@.subrange(lead as int, k as int),
        decreases tail - k,
    {
        t.push(chars[k]);
        assert(chars@.subrange(lead as int, k + 1) =~= chars@.subrange(lead as int, k as int).push(chars@[k as int]));
        k += 1;
    }
    assert(t@ =~= trimmed(chars@));
    if eq_ignore_ascii_case(t.as_str(), "all") {
        return None;
    }
    let mut names: Vec<String> = Vec::new();
    let mut current: Vec<char> = Vec::new();
    let mut i: usize = 0;
    assert(string_views(names@) =~= Seq::<Seq<char>>::empty());
    while i < chars.len()
        invariant
            i <= chars.len(),
            names_from(chars@, i as int, current@, string_views(names@)) == names_from(chars@, 0, Seq::empty(), Seq::empty()),
        decreases chars.len() - i,
    {
        let c = chars[i];
        if c == ',' {
            let ghost before = string_views(names@);
            if !piece_is_blank(&current) {
                names.push(tool_name_in(&current));
                assert(string_views(names@) =~= before.push(unicode_lowercase(trimmed(current@))));
            }
            current = Vec::new();
        } else {
            current.push(c);
        }
        i += 1;
    }
    let ghost before = string_views(names@);
    if !piece_is_blank(&current) {
        names.push(tool_name_in(&current));
        assert(string_views(names@) =~= before.push(unicode_lowercase(trimmed(current@))));
    }
    let ghost parsed = string_views(names@);
    names.push(String::from_str("list_allowed_directories"));
    assert(string_views(names@) =~= parsed.push(always_enabled()));
    Some(names)
}

/// What the server does about the roots of a client.
#[derive(Debug, Clone, PartialEq, Eq)]
pub enum RootsStep {
    /// Nothing.
    Skip,
    /// Say this and go on with the allowed directories as they are.
    Notify(String),
    /// Say this and stop the server: it has no directory to work in.
    GiveUp(String),
    /// Ask the client for its roots.
    AskClient,
}

/// Said when the client has no roots to give and the command line gave
/// directories.
pub open spec fn client_without_roots_message() -> Seq<char> {
    "Client does not support MCP Roots. Allowed directories passed from command-line will be used."@
}

/// Said when neither the client nor the command line gives a directory.
pub open spec fn cannot_operate_message() -> Seq<char> {
    "Server cannot operate: No allowed directories available. Server was started without command-line directories and client does not support MCP roots protocol. Please either: 1) Start server with directory arguments, or 2) Use a client that supports MCP roots protocol and provides valid root directories."@
}

/// Said when the client gave no valid root and the command line gave no
/// directory.
pub open spec fn empty_roots_message() -> Seq<char> {
    "Server cannot operate: No allowed directories available. Server was started without command-line directories and client provided empty roots. Please either: 1) Start server with directory arguments, or 2) Use a client that supports MCP roots protocol and provides valid root directories."@
}

/// Said when the client gave no valid root and the command line gave
/// directories.
pub open spec fn keeping_directories_message() -> Seq<char> {
    "Client provided empty roots. Allowed directories passed from command-line will be used."@
}

/// Said when a client announces new roots to a server that takes none.
pub open spec fn roots_disabled_message() -> Seq<char> {
    "Skipping ROOTS client updates, server launched without the --enable-roots flag."@
}

/// Said when the roots of the client became the allowed directories.
pub open spec fn roots_adopted_message(n: nat) -> Seq<char> {
    "Updated allowed directories from MCP roots: "@ + decimal(n) + " valid directories"@
}

/// The first line of the message at the start.
pub open spec fn mode_line(readonly: bool, roots: bool) -> Seq<char> {
    "Secure MCP Filesystem Server running in \""@ + (if readonly {
        "readonly"@
    } else {
        "read/write"@
    }) + "\" mode "@ + (if roots {
        "with"@
    } else {
        "without"@
    }) + " \"MCP Roots\" support."@
}

/// The first `n` directories, each after a comma and a line feed but the
/// first.
pub open spec fn listed_directories(dirs: Seq<Seq<char>>, n: int) -> Seq<char>
    decreases n,
{
    if n <= 0 || n > dirs.len() {
        Seq::empty()
    } else if n == 1 {
        dirs[0]
    } else {
        listed_directories(dirs, n - 1) + ",\n"@ + dirs[n - 1]
    }
}

/// The message at the start.
pub open spec fn startup_text(readonly: bool, roots: bool, dirs: Seq<Seq<char>>) -> Seq<char> {
    mode_line(readonly, roots) + seq!['\n'] + (if dirs.len() == 0 && roots {
        "No allowed directories is set - waiting for client to provide roots via MCP protocol..."@
    } else {
        "Allowed directories:\n"@ + listed_directories(dirs, dirs.len() as int)
    })
}

impl FileSystemHandler {
    /// Whether the tool named `name` may be called: there is no list, or
    /// the list holds the name in lower case.
    pub open spec fn enables(&self, name: Seq<char>) -> bool {
        self.enabled_tools is None || string_views(self.enabled_tools->0@).contains(unicode_lowercase(name))
    }

    /// The handler of a server that was started with `args`, over
    /// `fs_service`.
    pub fn new(args: &CommandArguments, fs_service: FileSystemService) -> (handler: FileSystemHandler)
        ensures
            handler.readonly == !args.allow_write,
            handler.mcp_roots_support == args.enable_roots,
            handler.fs_service == fs_service,
            match enabled_by(args.tools) {
                None => handler.enabled_tools is None,
                Some(names) => handler.enabled_tools is Some && string_views(handler.enabled_tools->0@) == names,
            },
    {
        FileSystemHandler {
            readonly: !args.allow_write,
            mcp_roots_support: args.enable_roots,
            fs_service,
            enabled_tools: parse_enabled_tools(&args.tools),
        }
    }

    /// Refuses where the server is read-only.
    pub fn assert_write_access(&self) -> (checked: Result<(), ServiceError>)
        ensures
            self.readonly ==> checked is Err && checked->Err_0 is NoWriteAccess,
            !self.readonly ==> checked is Ok,
    {
        if self.readonly {
            Err(ServiceError::NoWriteAccess)
        } else {
            Ok(())
        }
    }

    /// Whether the tool named `name` may be called.
    pub fn is_enabled(&self, name: &str) -> (enabled: bool)
        ensures
            enabled == self.enables(name@),
    {
        match &self.enabled_tools {
            None => true,
            Some(names) => {
                let lower = name.to_lowercase();
                let wanted = to_chars(lower.as_str());
                let mut i: usize = 0;
                while i < names.len()
                    invariant
                        i <= names.len(),
                        self.enabled_tools is Some,
                        *names == self.enabled_tools->0,
                        wanted@ == unicode_lowercase(name@),
                        forall|k: int| 0 <= k < i ==> string_views(names@)[k] != wanted@,
                    decreases names.len() - i,
                {
                    let candidate = to_chars(names[i].as_str());
                    if same_chars(&candidate, &wanted) {
                        assert(string_views(names@)[i as int] == wanted@);
                        assert(string_views(self.enabled_tools->0@).contains(unicode_lowercase(name@)));
                        return true;
                    }
                    i += 1;
                }
                false
            },
        }
    }

    /// Decides whether `tool` may be called: it must be enabled, and the
    /// server must allow writing where the tool writes.
    pub fn authorize(&self, tool: FileSystemTools) -> (checked: Result<(), ServiceError>)
        ensures
            !self.enables(name_of_tool(tool)) ==> checked is Err && checked->Err_0 is ToolNotEnabled && checked->Err_0->ToolNotEnabled_0@
                == name_of_tool(tool),
            self.enables(name_of_tool(tool)) && writes(tool) && self.readonly ==> checked is Err && checked->Err_0 is NoWriteAccess,
            self.enables(name_of_tool(tool)) && !(writes(tool) && self.readonly) ==> checked is Ok,
    {
        let name = tool.tool_name();
        if !self.is_enabled(name.as_str()) {
            return Err(ServiceError::ToolNotEnabled(name));
        }
        if tool.require_write_access() {
            return self.assert_write_access();
        }
        Ok(())
    }

    /// The tools that the server lists: those that are enabled, in the
    /// order of the list of all tools.
    pub fn listed_tools(&self) -> (listed: Vec<FileSystemTools>)
        ensures
            forall|k: int| 0 <= k < listed@.len() ==> self.enables(name_of_tool(#[trigger] listed@[k])),
            forall|t: int| 0 <= t < all_tools().len() && self.enables(name_of_tool(all_tools()[t])) ==> listed@.contains(#[trigger] all_tools()[t]),
            self.enabled_tools is None ==> listed@ == all_tools(),
    {
        let all = FileSystemTools::tools();
        let mut listed: Vec<FileSystemTools> = Vec::new();
        let mut i: usize = 0;
        while i < all.len()
            invariant
                i <= all.len(),
                all@ == all_tools(),
                forall|k: int| 0 <= k < listed@.len() ==> self.enables(name_of_tool(#[trigger] listed@[k])),
                forall|t: int| 0 <= t < i && self.enables(name_of_tool(all@[t])) ==> listed@.contains(#[trigger] all@[t]),
                self.enabled_tools is None ==> listed@ == all@.take(i as int),
            decreases all.len() - i,
        {
            let name = all[i].tool_name();
            let ghost before = listed@;
            if self.is_enabled(name.as_str()) {
                listed.push(all[i]);
                proof {
                    assert(listed@[listed@.len() - 1] == all@[i as int]);
                    assert forall|t: int| 0 <= t < i + 1 && self.enables(name_of_tool(all@[t])) implies listed@.contains(#[trigger] all@[t]) by {
                        if t < i {
                            let k = choose|k: int| 0 <= k < before.len() && before[k] == all@[t];
                            assert(listed@[k] == all@[t]);
                        }
                    }
                    assert(all@.take(i + 1) =~= all@.take(i as int).push(all@[i as int]));
                }
            }
            i += 1;
        }
        assert(all@.take(all.len() as int) =~= all@);
        listed
    }

    /// What the server says when it starts.
    pub fn startup_message(&self) -> (message: String)
        ensures
            message@ == startup_text(self.readonly, self.mcp_roots_support, self.fs_service.roots()),
    {
        let mut message = String::from_str("Secure MCP Filesystem Server running in \"");
        if self.readonly {
            message.append("readonly");
        } else {
            message.append("read/write");
        }
        message.append("\" mode ");
        if self.mcp_roots_support {
            message.append("with");
        } else {
            message.append("without");
        }
        message.append(" \"MCP Roots\" support.");
        assert(message@ =~= mode_line(self.readonly, self.mcp_roots_support));
        message.push('\n');
        let dirs = self.fs_service.allowed_directories();
        if dirs.len() == 0 && self.mcp_roots_support {
            message.append("No allowed directories is set - waiting for client to provide roots via MCP protocol...");
            assert(message@ =~= startup_text(self.readonly, self.mcp_roots_support, self.fs_service.roots()));
            return message;
        }
        message.append("Allowed directories:\n");
        let ghost head = message@;
        let ghost roots = self.fs_service.roots();
        let mut i: usize = 0;
        assert(message@ =~= head + listed_directories(roots, 0));
        while i < dirs.len()
            invariant
                i <= dirs.len(),
                dirs == self.fs_service.allowed,
                roots == self.fs_service.roots(),
                message@ == head + listed_directories(roots, i as int),
            decreases dirs.len() - i,
        {
            if i > 0 {
                message.append(",\n");
            }
            message.append(dirs[i].as_str());
            assert(roots[i as int] == dirs@[i as int]@);
            assert(message@ =~= head + listed_directories(roots, i + 1));
            i += 1;
        }
        assert(message@ =~= startup_text(self.readonly, self.mcp_roots_support, self.fs_service.roots()));
        message
    }

    /// What to do about the roots of the client, given whether the client
    /// says that it can list roots. A server without roots support does
    /// nothing. With a client that cannot list roots the server goes on
    /// with its directories, or gives up where it has none.
    pub fn roots_step(&self, client_supports_roots: Option<bool>) -> (step: RootsStep)
        ensures
            !self.mcp_roots_support ==> step is Skip,
            self.mcp_roots_support && client_supports_roots == Some(true) ==> step is AskClient,
            self.mcp_roots_support && client_supports_roots != Some(true) && self.fs_service.roots().len() > 0 ==> step is Notify && step->Notify_0@
                == client_without_roots_message(),
            self.mcp_roots_support && client_supports_roots != Some(true) && self.fs_service.roots().len() == 0 ==> step is GiveUp && step->GiveUp_0@
                == cannot_operate_message(),
    {
        if !self.mcp_roots_support {
            return RootsStep::Skip;
        }
        let supported = match client_supports_roots {
            Some(flag) => flag,
            None => false,
        };
        if supported {
            return RootsStep::AskClient;
        }
        if self.fs_service.allowed_directories().len() > 0 {
            RootsStep::Notify(String::from_str("Client does not support MCP Roots. Allowed directories passed from command-line will be used."))
        } else {
            RootsStep::GiveUp(
                String::from_str(
                    "Server cannot operate: No allowed directories available. Server was started without command-line directories and client does not support MCP roots protocol. Please either: 1) Start server with directory arguments, or 2) Use a client that supports MCP roots protocol and provides valid root directories.",
                ),
            )
        }
    }

    /// What to do when the client announces that its roots changed.
    pub fn roots_changed_step(&self, client_supports_roots: Option<bool>) -> (step: RootsStep)
        ensures
            !self.mcp_roots_support ==> step is Notify && step->Notify_0@ == roots_disabled_message(),
            self.mcp_roots_support && client_supports_roots == Some(true) ==> step is AskClient,
            self.mcp_roots_support && client_supports_roots != Some(true) && self.fs_service.roots().len() > 0 ==> step is Notify && step->Notify_0@
                == client_without_roots_message(),
            self.mcp_roots_support && client_supports_roots != Some(true) && self.fs_service.roots().len() == 0 ==> step is GiveUp && step->GiveUp_0@
                == cannot_operate_message(),
    {
        if self.mcp_roots_support {
            self.roots_step(client_supports_roots)
        } else {
            RootsStep::Notify(String::from_str("Skipping ROOTS client updates, server launched without the --enable-roots flag."))
        }
    }

    /// Takes the valid roots of the client as the allowed directories,
    /// unless there are none, and returns what there is to say: first the
    /// word on roots that were passed over, if any, then what became of
    /// the allowed directories.
    pub fn update_allowed_directories(&mut self, valid_roots: Vec<String>, skipped: Option<String>) -> (messages: Vec<String>)
        ensures
            final(self).readonly == old(self).readonly,
            final(self).mcp_roots_support == old(self).mcp_roots_support,
            final(self).enabled_tools == old(self).enabled_tools,
            valid_roots@.len() == 0 ==> final(self).fs_service == old(self).fs_service,
            valid_roots@.len() > 0 ==> final(self).fs_service.allowed == valid_roots,
            messages@.len() == (if skipped is Some { 2int } else { 1int }),
            skipped is Some ==> messages@[0]@ == skipped->0@,
            messages@.last()@ == (if valid_roots@.len() > 0 {
                roots_adopted_message(valid_roots@.len())
            } else if old(self).fs_service.roots().len() == 0 {
                empty_roots_message()
            } else {
                keeping_directories_message()
            }),
    {
        let mut messages: Vec<String> = Vec::new();
        match skipped {
            Some(word) => {
                messages.push(word);
            },
            None => {},
        }
        if valid_roots.len() == 0 {
            if self.fs_service.allowed_directories().len() == 0 {
                messages.push(
                    String::from_str(
                        "Server cannot operate: No allowed directories available. Server was started without command-line directories and client provided empty roots. Please either: 1) Start server with directory arguments, or 2) Use a client that supports MCP roots protocol and provides valid root directories.",
                    ),
                );
            } else {
                messages.push(String::from_str("Client provided empty roots. Allowed directories passed from command-line will be used."));
            }
        } else {
            let count = valid_roots.len();
            self.fs_service.update_allowed_paths(valid_roots);
            let mut message = String::from_str("Updated allowed directories from MCP roots: ");
            push_decimal(&mut message, count as u64);
            message.append(" valid directories");
            messages.push(message);
        }
        messages
    }
}

/// Whether `a` comes after `b` in the order of strings: at the first
/// index from `i` on at which they differ `a` has the greater character,
/// or `b` ends there and `a` does not.
pub open spec fn comes_after(a: Seq<char>, b: Seq<char>, i: int) -> bool
    decreases a.len() - i,
{
    if i < 0 || i >= a.len() {
        false
    } else if i >= b.len() {
        true
    } else if a[i] != b[i] {
        a[i] > b[i]
    } else {
        comes_after(a, b, i + 1)
    }
}

/// The protocol version that a server speaks to a client: its own, unless
/// that comes after the client's in the order of strings; then the
/// client's.
pub open spec fn version_spoken(server: Seq<char>, client: Seq<char>) -> Seq<char> {
    if comes_after(server, client, 0) {
        client
    } else {
        server
    }
}

/// The protocol version to speak with a client that asks for `client`,
/// for a server whose own is `server`. An older client is met at its
/// version.
pub fn negotiate_protocol_version(server: &str, client: &str) -> (spoken: String)
    ensures
        spoken@ == version_spoken(server@, client@),
{
    let a = to_chars(server);
    let b = to_chars(client);
    let mut i: usize = 0;
    while i < a.len() && i < b.len() && a[i] == b[i]
        invariant
            i <= a.len(),
            i <= b.len(),
            comes_after(a@, b@, 0) == comes_after(a@, b@, i as int),
        decreases a.len() - i,
    {
        i += 1;
    }
    let after = if i >= a.len() {
        false
    } else if i >= b.len() {
        true
    } else {
        a[i] > b[i]
    };
    if after {
        client.to_owned()
    } else {
        server.to_owned()
    }
}

} // verus!
