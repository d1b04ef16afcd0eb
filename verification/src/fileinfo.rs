//! What is known of a file, and how it is shown.

use vstd::prelude::*;
use vstd::string::StringExecFns;
use crate::decimal::{decimal, digit, digit_char, push_decimal};

verus! {

/// The permissions of a file, as the platform keeps them.
#[derive(Debug, Clone, Copy, PartialEq, Eq, Structural)]
pub enum Permissions {
    /// The mode bits of a POSIX file.
    Unix { mode: u32 },
    /// Whether a Windows file is a directory and whether it is read-only.
    Windows { directory: bool, read_only: bool },
}

/// What is known of a file. The times are written out already, in the
/// local time of the machine.
#[derive(Debug, Clone, PartialEq, Eq)]
pub struct FileInfo {
    pub size: u64,
    pub created: Option<String>,
    pub modified: Option<String>,
    pub accessed: Option<String>,
    pub is_directory: bool,
    pub is_file: bool,
    pub permissions: Permissions,
}

/// `n`, below 512, in octal without leading zeros.
pub open spec fn octal(n: int) -> Seq<char> {
    if n >= 64 {
        seq![digit_char(n / 64), digit_char((n / 8) % 8), digit_char(n % 8)]
    } else if n >= 8 {
        seq![digit_char(n / 8), digit_char(n % 8)]
    } else {
        seq![digit_char(n)]
    }
}

/// The permissions as text: on POSIX a zero and the nine permission bits
/// in octal; on Windows `d` or `-` for a directory or none, then `r` or
/// `w` for read-only or writable.
pub open spec fn permissions_text(permissions: Permissions) -> Seq<char> {
    match permissions {
        Permissions::Unix { mode } => seq!['0'] + octal((mode & 0o777) as int),
        Permissions::Windows { directory, read_only } => seq![if directory { 'd' } else { '-' }, if read_only { 'r' } else { 'w' }],
    }
}

/// The permissions as text.
pub fn format_permissions(permissions: &Permissions) -> (text: String)
    ensures
        text@ == permissions_text(*permissions),
{
    let mut text = String::new();
    match permissions {
        Permissions::Unix { mode } => {
            let bits: u32 = *mode & 0o777;
            assert(bits < 512) by (bit_vector)
                requires
                    bits == *mode & 0o777,
            ;
            let n: u64 = bits as u64;
            text.push('0');
            if n >= 64 {
                text.push(digit(n / 64));
                text.push(digit((n / 8) % 8));
                text.push(digit(n % 8));
            } else if n >= 8 {
                text.push(digit(n / 8));
                text.push(digit(n % 8));
            } else {
                text.push(digit(n));
            }
            assert(text@ =~= seq!['0'] + octal(n as int));
        },
        Permissions::Windows { directory, read_only } => {
            if *directory {
                text.push('d');
            } else {
                text.push('-');
            }
            if *read_only {
                text.push('r');
            } else {
                text.push('w');
            }
            assert(text@ =~= permissions_text(*permissions));
        },
    }
    text
}

/// A time that may be unknown, as text: empty where it is.
pub open spec fn time_text(time: Option<String>) -> Seq<char> {
    match time {
        Some(t) => t@,
        None => Seq::empty(),
    }
}

/// `true` or `false`.
pub open spec fn bool_text(b: bool) -> Seq<char> {
    if b {
        "true"@
    } else {
        "false"@
    }
}

/// The file information as text, one fact on each line.
pub open spec fn info_text(info: FileInfo) -> Seq<char> {
    "size: "@ + decimal(info.size as nat) + "\ncreated: "@ + time_text(info.created) + "\nmodified: "@ + time_text(info.modified) + "\naccessed: "@
        + time_text(info.accessed) + "\nisDirectory: "@ + bool_text(info.is_directory) + "\nisFile: "@ + bool_text(info.is_file)
        + "\npermissions: "@ + permissions_text(info.permissions) + seq!['\n']
}

/// Appends the time, if it is known.
fn push_time(out: &mut String, time: &Option<String>)
    ensures
        final(out)@ == old(out)@ + time_text(*time),
{
    match time {
        Some(t) => {
            out.append(t.as_str());
        },
        None => {
            assert(out@ =~= old(out)@ + Seq::<char>::empty());
        },
    }
}

/// Appends `true` or `false`.
fn push_bool(out: &mut String, b: bool)
    ensures
        final(out)@ == old(out)@ + bool_text(b),
{
    if b {
        out.append("true");
    } else {
        out.append("false");
    }
}

impl FileInfo {
    /// The file information as text.
    pub fn render(&self) -> (text: String)
        ensures
            text@ == info_text(*self),
    {
        let mut text = String::from_str("size: ");
        push_decimal(&mut text, self.size);
        text.append("\ncreated: ");
        push_time(&mut text, &self.created);
        text.append("\nmodified: ");
        push_time(&mut text, &self.modified);
        text.append("\naccessed: ");
        push_time(&mut text, &self.accessed);
        text.append("\nisDirectory: ");
        push_bool(&mut text, self.is_directory);
        text.append("\nisFile: ");
        push_bool(&mut text, self.is_file);
        text.append("\npermissions: ");
        let permissions = format_permissions(&self.permissions);
        text.append(permissions.as_str());
        text.push('\n');
        assert(text@ =~= info_text(*self));
        text
    }
}

} // verus!
