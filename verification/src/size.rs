//! File-size windows.

use vstd::prelude::*;
use vstd::string::StringExecFns;
use crate::decimal::{decimal, digit, digit_char, push_decimal};

verus! {

/// The size window `[min, max]`, either bound optional: a size lies in it
/// when it is not above `max` and not below `min`.
pub open spec fn in_size_window(file_size: u64, min_bytes: Option<u64>, max_bytes: Option<u64>) -> bool {
    &&& (max_bytes is Some ==> file_size <= max_bytes->0)
    &&& (min_bytes is Some ==> file_size >= min_bytes->0)
}

/// Whether `file_size` lies within the optional bounds, both inclusive.
pub fn filesize_in_range(file_size: u64, min_bytes: Option<u64>, max_bytes: Option<u64>) -> (within: bool)
    ensures
        within == in_size_window(file_size, min_bytes, max_bytes),
{
    match max_bytes {
        Some(max) => {
            if file_size > max {
                return false;
            }
        },
        None => {},
    }
    match min_bytes {
        Some(min) => file_size >= min,
        None => true,
    }
}

/// The bytes of a kibibyte.
pub const KB: u64 = 1024;

/// The bytes of a mebibyte.
pub const MB: u64 = 1048576;

/// The bytes of a gibibyte.
pub const GB: u64 = 1073741824;

/// The bytes of a tebibyte.
pub const TB: u64 = 1099511627776;

/// The least number that a double cannot tell from its neighbours: 2^53.
pub const DOUBLE_EXACT: u64 = 9007199254740992;

/// `n / d` rounded to the nearest whole number, a tie to the even one.
pub open spec fn round_half_even(n: nat, d: nat) -> nat {
    let q = n / d;
    let r = n % d;
    if 2 * r > d || (2 * r == d && q % 2 == 1) {
        q + 1
    } else {
        q
    }
}

/// The distance between the doubles around `bytes`: the least power of
/// two from `p` on that brings `bytes` below 2^53 when it divides it.
pub open spec fn double_step(bytes: nat, p: nat) -> nat
    decreases 4096 - p,
{
    if p == 0 || p >= 2048 || bytes / p < DOUBLE_EXACT {
        p
    } else {
        double_step(bytes, 2 * p)
    }
}

/// `bytes` as a double holds it: itself below 2^53, else the nearest
/// number with 53 significant bits, a tie to the even one.
pub open spec fn as_double(bytes: nat) -> nat {
    if bytes < DOUBLE_EXACT {
        bytes
    } else {
        round_half_even(bytes, double_step(bytes, 2)) * double_step(bytes, 2)
    }
}

/// The hundredths of `unit` in `bytes`, rounded to the nearest whole
/// number, a tie to the even one.
pub open spec fn hundredths(bytes: nat, unit: nat) -> nat {
    round_half_even(as_double(bytes) * 100, unit)
}

/// `bytes` in units of `unit`, with two decimals.
pub open spec fn scaled_text(bytes: nat, unit: nat) -> Seq<char> {
    let h = hundredths(bytes, unit);
    decimal(h / 100) + seq!['.', digit_char(((h % 100) / 10) as int), digit_char((h % 10) as int)]
}

/// A number of bytes as a person reads it: in the largest unit of TB, GB,
/// MB and KB that it reaches, with two decimals, or in bytes.
pub open spec fn bytes_text(bytes: u64) -> Seq<char> {
    if bytes >= TB {
        scaled_text(bytes as nat, TB as nat) + " TB"@
    } else if bytes >= GB {
        scaled_text(bytes as nat, GB as nat) + " GB"@
    } else if bytes >= MB {
        scaled_text(bytes as nat, MB as nat) + " MB"@
    } else if bytes >= KB {
        scaled_text(bytes as nat, KB as nat) + " KB"@
    } else {
        decimal(bytes as nat) + " bytes"@
    }
}

/// `n / d` rounded to the nearest whole number, a tie to the even one.
fn rounded_quotient(n: u128, d: u128) -> (q: u128)
    requires
        d > 0,
        n / d < u128::MAX,
        d <= u64::MAX,
    ensures
        q == round_half_even(n as nat, d as nat),
{
    let q = n / d;
    let r = n % d;
    if 2 * r > d || (2 * r == d && q % 2 == 1) {
        q + 1
    } else {
        q
    }
}

/// Whether `p` is a power of two from 2 to 2048.
pub open spec fn is_step(p: u64) -> bool {
    p == 2 || p == 4 || p == 8 || p == 16 || p == 32 || p == 64 || p == 128 || p == 256 || p == 512 || p == 1024 || p == 2048
}

/// `bytes` as a double holds it.
fn to_double(bytes: u64) -> (x: u128)
    ensures
        x == as_double(bytes as nat),
        x <= 18446744073709551616u128,
{
    if bytes < DOUBLE_EXACT {
        return bytes as u128;
    }
    let mut step: u64 = 2;
    while bytes / step >= DOUBLE_EXACT
        invariant
            is_step(step),
            double_step(bytes as nat, 2) == double_step(bytes as nat, step as nat),
        decreases 4096 - step,
    {
        assert(step < 2048) by {
            if step == 2048 {
                assert(bytes / 2048 < DOUBLE_EXACT);
            }
        }
        step = step * 2;
    }
    let q = rounded_quotient(bytes as u128, step as u128);
    assert(q <= DOUBLE_EXACT) by {
        assert(bytes / step < DOUBLE_EXACT);
    }
    assert(q * step <= 18446744073709551616int) by (nonlinear_arith)
        requires
            q <= 9007199254740992,
            step <= 2048,
    ;
    q * (step as u128)
}

/// Appends `bytes` in units of `unit`, with two decimals.
fn push_scaled(out: &mut String, bytes: u64, unit: u64)
    requires
        unit == KB || unit == MB || unit == GB || unit == TB,
    ensures
        final(out)@ == old(out)@ + scaled_text(bytes as nat, unit as nat),
{
    let x = to_double(bytes);
    let h = rounded_quotient(x * 100, unit as u128);
    assert(h <= 1844674407370955161600int / 1024 + 1);
    let whole: u64 = (h / 100) as u64;
    let frac: u64 = (h % 100) as u64;
    push_decimal(out, whole);
    out.push('.');
    out.push(digit(frac / 10));
    out.push(digit(frac % 10));
    assert(out@ =~= old(out)@ + scaled_text(bytes as nat, unit as nat));
}

/// A number of bytes as a person reads it.
pub fn format_bytes(bytes: u64) -> (text: String)
    ensures
        text@ == bytes_text(bytes),
{
    let mut text = String::new();
    if bytes >= TB {
        push_scaled(&mut text, bytes, TB);
        text.append(" TB");
    } else if bytes >= GB {
        push_scaled(&mut text, bytes, GB);
        text.append(" GB");
    } else if bytes >= MB {
        push_scaled(&mut text, bytes, MB);
        text.append(" MB");
    } else if bytes >= KB {
        push_scaled(&mut text, bytes, KB);
        text.append(" KB");
    } else {
        push_decimal(&mut text, bytes);
        text.append(" bytes");
    }
    assert(text@ =~= bytes_text(bytes));
    text
}

} // verus!
