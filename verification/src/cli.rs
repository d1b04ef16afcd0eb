//! The arguments of the command line, as the service reads them.

use vstd::prelude::*;
use vstd::string::StringExecFns;

verus! {

/// What the command line says.
#[derive(Debug, Clone, PartialEq, Eq)]
pub struct CommandArguments {
    /// Whether tools that write are allowed.
    pub allow_write: bool,
    /// Whether the client may replace the allowed directories by its roots.
    pub enable_roots: bool,
    /// The tools to enable, separated by commas; `all` or nothing for all.
    pub tools: Option<String>,
    /// Whether to list the tools and leave.
    pub list_tools: bool,
    /// The directories that the service may work in.
    pub allowed_directories: Vec<String>,
}

/// What `validate` says of arguments that allow no directory at all.
pub open spec fn missing_directories_message() -> Seq<char> {
    " <ALLOWED_DIRECTORIES> is required when `--enable-roots` is not provided.\n Run `mcp-filesystem --help` to view the usage instructions."@
}

impl CommandArguments {
    /// Whether the arguments leave the service without any directory: none
    /// is given, and the client may not provide roots.
    pub open spec fn lacks_directories(&self) -> bool {
        !self.enable_roots && self.allowed_directories@.len() == 0
    }

    /// Checks that the service has a directory to work in, or may get one
    /// from the client.
    pub fn validate(&self) -> (checked: Result<(), String>)
        ensures
            self.lacks_directories() ==> checked is Err && checked->Err_0@ == missing_directories_message(),
            !self.lacks_directories() ==> checked is Ok,
    {
        if !self.enable_roots && self.allowed_directories.len() == 0 {
            return Err(
                String::from_str(
                    " <ALLOWED_DIRECTORIES> is required when `--enable-roots` is not provided.\n Run `mcp-filesystem --help` to view the usage instructions.",
                ),
            );
        }
        Ok(())
    }
}

} // verus!
