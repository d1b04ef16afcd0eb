//! Numbers written in decimal.

use vstd::prelude::*;

verus! {

/// The character of the digit `d`, for `0 <= d <= 9`.
pub open spec fn digit_char(d: int) -> char {
    if d == 0 {
        '0'
    } else if d == 1 {
        '1'
    } else if d == 2 {
        '2'
    } else if d == 3 {
        '3'
    } else if d == 4 {
        '4'
    } else if d == 5 {
        '5'
    } else if d == 6 {
        '6'
    } else if d == 7 {
        '7'
    } else if d == 8 {
        '8'
    } else {
        '9'
    }
}

/// `n` in decimal, without leading zeros.
pub open spec fn decimal(n: nat) -> Seq<char>
    decreases n,
{
    if n < 10 {
        seq![digit_char(n as int)]
    } else {
        decimal(n / 10).push(digit_char((n % 10) as int))
    }
}

/// The character of the digit `d`.
pub fn digit(d: u64) -> (c: char)
    requires
        d <= 9,
    ensures
        c == digit_char(d as int),
{
    if d == 0 {
        '0'
    } else if d == 1 {
        '1'
    } else if d == 2 {
        '2'
    } else if d == 3 {
        '3'
    } else if d == 4 {
        '4'
    } else if d == 5 {
        '5'
    } else if d == 6 {
        '6'
    } else if d == 7 {
        '7'
    } else if d == 8 {
        '8'
    } else {
        '9'
    }
}

/// Appends `n` in decimal to `out`.
pub fn push_decimal(out: &mut String, n: u64)
    ensures
        final(out)@ == old(out)@ + decimal(n as nat),
{
    let mut low: Vec<char> = Vec::new();
    let mut m: u64 = n;
    assert(decimal(m as nat) + low@.reverse() =~= decimal(n as nat));
    while m >= 10
        invariant
            decimal(m as nat) + low@.reverse() == decimal(n as nat),
        decreases m,
    {
        let d = digit(m % 10);
        proof {
            let rest = decimal((m / 10) as nat);
            assert(low@.push(d).reverse() =~= seq![d] + low@.reverse());
            assert(rest.push(d) + low@.reverse() =~= rest + (seq![d] + low@.reverse()));
        }
        low.push(d);
        m = m / 10;
    }
    out.push(digit(m));
    assert(out@ + low@.reverse() =~= old(out)@ + decimal(n as nat));
    let mut k: usize = low.len();
    while k > 0
        invariant
            k <= low.len(),
            out@ + low@.reverse().skip(low.len() - k) == old(out)@ + decimal(n as nat),
        decreases k,
    {
        let ghost rev = low@.reverse();
        let ghost at = low.len() - k;
        assert(rev[at] == low@[k - 1]);
        assert(out@.push(rev[at]) + rev.skip(at + 1) =~= out@ + rev.skip(at));
        out.push(low[k - 1]);
        k -= 1;
    }
    assert(low@.reverse().skip(low.len() as int) =~= Seq::<char>::empty());
    assert(out@ + Seq::<char>::empty() =~= out@);
}

/// `n` in decimal.
pub fn u64_to_decimal(n: u64) -> (text: String)
    ensures
        text@ == decimal(n as nat),
{
    let mut text = String::new();
    push_decimal(&mut text, n);
    assert(Seq::<char>::empty() + decimal(n as nat) =~= decimal(n as nat));
    text
}

} // verus!
