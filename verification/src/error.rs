//! The errors of the service.

use vstd::prelude::*;
use vstd::string::StringExecFns;
use crate::decimal::{decimal, push_decimal};

verus! {

/// What can go wrong in an operation of the service.
#[derive(Debug, Clone, PartialEq, Eq)]
pub enum ServiceError {
    /// A tool that writes was called on a read-only service.
    NoWriteAccess,
    /// The named tool is not among the enabled ones.
    ToolNotEnabled(String),
    /// Another failure, with its message.
    FromString(String),
    /// A failure of reading or writing, with its message.
    IoError(String),
    /// The query is not a regular expression; the engine's message.
    ContentSearchError(String),
    /// The file is larger than this many bytes.
    FileTooLarge(usize),
    /// The file is smaller than this many bytes.
    FileTooSmall(usize),
    /// The file is no image or audio file of a known kind; its MIME type.
    InvalidMediaFile(String),
    /// The path lies under no allowed directory.
    NotAllowed(String),
    /// A component of the path is a symbolic link.
    SymlinkInPath(String),
    /// The glob pattern does not compile; a message that names it.
    InvalidPattern(String),
    /// The pattern is no code of the named language.
    InvalidAstPattern(String),
    /// No language goes by this name.
    UnsupportedLanguage(String),
    /// The text to replace does not occur in the file.
    NoMatch(String),
}

/// The message of `e`.
pub open spec fn message_of(e: ServiceError) -> Seq<char> {
    match e {
        ServiceError::NoWriteAccess => "Service is running in read-only mode. To enable write access, please run with the --allow-write flag."@,
        ServiceError::ToolNotEnabled(name) => "Tool '"@ + name@
            + "' is not enabled. Please add it to the --tools parameter or use --tools all to enable all tools."@,
        ServiceError::FromString(text) => text@,
        ServiceError::IoError(text) => text@,
        ServiceError::ContentSearchError(text) => text@,
        ServiceError::FileTooLarge(max) => "File size exceeds the maximum allowed limit of "@ + decimal(max as nat) + " bytes"@,
        ServiceError::FileTooSmall(min) => "File size is below the minimum required limit of "@ + decimal(min as nat) + " bytes"@,
        ServiceError::InvalidMediaFile(mime) => "The file is either not an image/audio type or is unsupported (mime:"@ + mime@ + ")."@,
        ServiceError::NotAllowed(path) => "Access denied - path outside allowed directories: "@ + path@,
        ServiceError::SymlinkInPath(path) => "Access denied - path contains a symbolic link: "@ + path@,
        ServiceError::InvalidPattern(text) => text@,
        ServiceError::InvalidAstPattern(text) => text@,
        ServiceError::UnsupportedLanguage(name) => "Unsupported language: "@ + name@,
        ServiceError::NoMatch(text) => "Could not find exact match for edit:\n"@ + text@,
    }
}

impl ServiceError {
    /// The message that a user reads.
    pub fn message(&self) -> (text: String)
        ensures
            text@ == message_of(*self),
    {
        match self {
            ServiceError::NoWriteAccess => String::from_str(
                "Service is running in read-only mode. To enable write access, please run with the --allow-write flag.",
            ),
            ServiceError::ToolNotEnabled(name) => {
                let mut text = String::from_str("Tool '");
                text.append(name.as_str());
                text.append("' is not enabled. Please add it to the --tools parameter or use --tools all to enable all tools.");
                text
            },
            ServiceError::FromString(text) => text.clone(),
            ServiceError::IoError(text) => text.clone(),
            ServiceError::ContentSearchError(text) => text.clone(),
            ServiceError::FileTooLarge(max) => {
                let mut text = String::from_str("File size exceeds the maximum allowed limit of ");
                push_decimal(&mut text, *max as u64);
                text.append(" bytes");
                text
            },
            ServiceError::FileTooSmall(min) => {
                let mut text = String::from_str("File size is below the minimum required limit of ");
                push_decimal(&mut text, *min as u64);
                text.append(" bytes");
                text
            },
            ServiceError::InvalidMediaFile(mime) => {
                let mut text = String::from_str("The file is either not an image/audio type or is unsupported (mime:");
                text.append(mime.as_str());
                text.append(").");
                text
            },
            ServiceError::NotAllowed(path) => {
                let mut text = String::from_str("Access denied - path outside allowed directories: ");
                text.append(path.as_str());
                text
            },
            ServiceError::SymlinkInPath(path) => {
                let mut text = String::from_str("Access denied - path contains a symbolic link: ");
                text.append(path.as_str());
                text
            },
            ServiceError::InvalidPattern(text) => text.clone(),
            ServiceError::InvalidAstPattern(text) => text.clone(),
            ServiceError::UnsupportedLanguage(name) => {
                let mut text = String::from_str("Unsupported language: ");
                text.append(name.as_str());
                text
            },
            ServiceError::NoMatch(missing) => {
                let mut text = String::from_str("Could not find exact match for edit:\n");
                text.append(missing.as_str());
                text
            },
        }
    }
}

} // verus!
