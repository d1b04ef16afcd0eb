//! Text helpers: line-ending detection and normalisation, and escaping of
//! a literal query for a regular-expression engine.

use vstd::prelude::*;
use crate::chars::to_chars;

verus! {

/// `s` with every CR LF pair, and then every remaining CR, replaced by LF.
pub open spec fn normalized_line_endings(s: Seq<char>) -> Seq<char>
    decreases s.len(),
{
    if s.len() == 0 {
        Seq::empty()
    } else if s[0] == '\r' && s.len() > 1 && s[1] == '\n' {
        seq!['\n'] + normalized_line_endings(s.skip(2))
    } else if s[0] == '\r' {
        seq!['\n'] + normalized_line_endings(s.skip(1))
    } else {
        seq![s[0]] + normalized_line_endings(s.skip(1))
    }
}

/// Whether CR directly followed by LF occurs in `s`.
pub open spec fn contains_crlf(s: Seq<char>) -> bool {
    exists|i: int| 0 <= i && i + 1 < s.len() && s[i] == '\r' && #[trigger] s[i + 1] == '\n'
}

/// The line-ending style of `s`: CR LF if that pair occurs, else CR if a
/// CR occurs, else LF.
pub open spec fn line_ending_of(s: Seq<char>) -> Seq<char> {
    if contains_crlf(s) {
        seq!['\r', '\n']
    } else if s.contains('\r') {
        seq!['\r']
    } else {
        seq!['\n']
    }
}

/// The characters that have a meaning of their own in the common
/// regular-expression dialects.
pub open spec fn is_regex_special(c: char) -> bool {
    c == '.' || c == '^' || c == '$' || c == '*' || c == '+' || c == '?' || c == '(' || c == ')'
        || c == '[' || c == ']' || c == '{' || c == '}' || c == '\\' || c == '|' || c == '/'
}

/// `s` with a backslash before each special character.
pub open spec fn escaped_regex(s: Seq<char>) -> Seq<char>
    decreases s.len(),
{
    if s.len() == 0 {
        Seq::empty()
    } else if is_regex_special(s.last()) {
        escaped_regex(s.drop_last()).push('\\').push(s.last())
    } else {
        escaped_regex(s.drop_last()).push(s.last())
    }
}

/// Replaces CR LF and lone CR by LF.
pub fn normalize_line_endings(text: &str) -> (normalized: String)
    ensures
        normalized@ == normalized_line_endings(text@),
{
    let chars = to_chars(text);
    let mut normalized = String::new();
    let mut i: usize = 0;
    proof {
        assert(chars@.skip(0) =~= chars@);
        assert(Seq::<char>::empty() + normalized_line_endings(chars@) =~= normalized_line_endings(chars@));
    }
    while i < chars.len()
        invariant
            i <= chars.len(),
            chars@ == text@,
            normalized@ + normalized_line_endings(chars@.skip(i as int)) == normalized_line_endings(chars@),
        decreases chars.len() - i,
    {
        let ghost rest = chars@.skip(i as int);
        let ghost before = normalized@;
        if chars[i] == '\r' {
            normalized.push('\n');
            if i + 1 < chars.len() && chars[i + 1] == '\n' {
                assert(rest.skip(2) =~= chars@.skip(i + 2));
                assert(before.push('\n') + normalized_line_endings(rest.skip(2)) =~= before + (seq!['\n'] + normalized_line_endings(rest.skip(2))));
                i += 2;
            } else {
                assert(rest.skip(1) =~= chars@.skip(i + 1));
                assert(before.push('\n') + normalized_line_endings(rest.skip(1)) =~= before + (seq!['\n'] + normalized_line_endings(rest.skip(1))));
                i += 1;
            }
        } else {
            normalized.push(chars[i]);
            assert(rest.skip(1) =~= chars@.skip(i + 1));
            assert(before.push(rest[0]) + normalized_line_endings(rest.skip(1)) =~= before + (seq![rest[0]] + normalized_line_endings(rest.skip(1))));
            i += 1;
        }
    }
    assert(normalized@ + Seq::<char>::empty() =~= normalized@);
    normalized
}

/// The line ending that `text` uses: `"\r\n"`, `"\r"` or `"\n"`.
pub fn detect_line_ending(text: &str) -> (ending: &'static str)
    ensures
        ending@ == line_ending_of(text@),
{
    let chars = to_chars(text);
    let mut saw_cr = false;
    let mut i: usize = 0;
    while i < chars.len()
        invariant
            i <= chars.len(),
            chars@ == text@,
            saw_cr <==> exists|j: int| 0 <= j < i && #[trigger] chars@[j] == '\r',
            forall|j: int| 0 <= j && j + 1 < chars.len() && j < i ==> !(chars@[j] == '\r' && #[trigger] chars@[j + 1] == '\n'),
        decreases chars.len() - i,
    {
        if chars[i] == '\r' {
            if i + 1 < chars.len() && chars[i + 1] == '\n' {
                proof {
                    reveal_strlit("\r\n");
                    assert(chars@[i as int] == '\r' && chars@[i + 1] == '\n');
                    assert("\r\n"@ =~= seq!['\r', '\n']);
                }
                return "\r\n";
            }
            saw_cr = true;
        }
        i += 1;
    }
    proof {
        reveal_strlit("\r");
        reveal_strlit("\n");
        assert("\r"@ =~= seq!['\r']);
        assert("\n"@ =~= seq!['\n']);
    }
    if saw_cr {
        "\r"
    } else {
        "\n"
    }
}

/// Whether `c` is one of the special characters.
pub fn regex_special(c: char) -> (special: bool)
    ensures
        special == is_regex_special(c),
{
    c == '.' || c == '^' || c == '$' || c == '*' || c == '+' || c == '?' || c == '(' || c == ')'
        || c == '[' || c == ']' || c == '{' || c == '}' || c == '\\' || c == '|' || c == '/'
}

/// Escapes `text` so that a regular-expression engine reads it as a
/// literal.
pub fn escape_regex(text: &str) -> (escaped: String)
    ensures
        escaped@ == escaped_regex(text@),
{
    let chars = to_chars(text);
    let mut escaped = String::new();
    let mut i: usize = 0;
    while i < chars.len()
        invariant
            i <= chars.len(),
            chars@ == text@,
            escaped@ == escaped_regex(chars@.take(i as int)),
        decreases chars.len() - i,
    {
        assert(chars@.take(i + 1).drop_last() =~= chars@.take(i as int));
        if regex_special(chars[i]) {
            escaped.push('\\');
        }
        escaped.push(chars[i]);
        i += 1;
    }
    assert(chars@.take(chars.len() as int) =~= chars@);
    escaped
}

} // verus!
