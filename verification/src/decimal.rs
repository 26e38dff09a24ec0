//! Decimal rendering of integers, used by the token and error renderers and
//! by the structural dump.

use vstd::prelude::*;
use crate::chars::push_char;

verus! {

/// The character for one decimal digit value.
pub open spec fn spec_digit_char(d: int) -> char {
    if d == 0 {
        '0'
    } else if d == 1 {
        '1'
    } else if d == 2 {
        '2'
    } else if d == 3 {
        '3'
    } else if d == 4 {
        '4'
    } else if d == 5 {
        '5'
    } else if d == 6 {
        '6'
    } else if d == 7 {
        '7'
    } else if d == 8 {
        '8'
    } else {
        '9'
    }
}

/// The decimal representation of a nonnegative integer, most significant
/// digit first, with no leading zeroes (a lone zero for 0).
pub open spec fn spec_udec(n: nat) -> Seq<char>
    decreases n,
{
    if n < 10 {
        seq![spec_digit_char(n as int)]
    } else {
        spec_udec(n / 10).push(spec_digit_char((n % 10) as int))
    }
}

/// The decimal representation of a signed integer: a leading minus sign for
/// negative values, then the representation of the magnitude.
pub open spec fn spec_idec(i: int) -> Seq<char> {
    if i < 0 {
        seq!['-'] + spec_udec((-i) as nat)
    } else {
        spec_udec(i as nat)
    }
}

fn digit_char(d: u64) -> (c: char)
    requires
        d < 10,
    ensures
        c == spec_digit_char(d as int),
{
    match d {
        0 => '0',
        1 => '1',
        2 => '2',
        3 => '3',
        4 => '4',
        5 => '5',
        6 => '6',
        7 => '7',
        8 => '8',
        _ => '9',
    }
}

/// Appends the decimal representation of `n` to `out`.
pub fn push_u64_dec(out: &mut String, n: u64)
    ensures
        final(out)@ == old(out)@ + spec_udec(n as nat),
    decreases n,
{
    if n < 10 {
        push_char(out, digit_char(n));
        assert(old(out)@ + spec_udec(n as nat) =~= out@);
    } else {
        push_u64_dec(out, n / 10);
        push_char(out, digit_char(n % 10));
        assert(old(out)@ + spec_udec(n as nat) =~= out@);
    }
}

/// The decimal representation of an unsigned integer as a fresh string.
pub fn u64_dec(n: u64) -> (s: String)
    ensures
        s@ == spec_udec(n as nat),
{
    let mut s = String::new();
    push_u64_dec(&mut s, n);
    assert(s@ =~= spec_udec(n as nat));
    s
}

/// Appends the decimal representation of `i` to `out`.
pub fn push_i64_dec(out: &mut String, i: i64)
    ensures
        final(out)@ == old(out)@ + spec_idec(i as int),
{
    if i < 0 {
        push_char(out, '-');
        let m: u64 = if i == i64::MIN {
            9223372036854775808u64
        } else {
            (-i) as u64
        };
        assert(m == -(i as int));
        push_u64_dec(out, m);
        assert(out@ == old(out)@ + spec_idec(i as int)) by {
            assert(old(out)@.push('-') + spec_udec(m as nat) =~= old(out)@ + (seq!['-']
                + spec_udec(m as nat)));
        }
    } else {
        push_u64_dec(out, i as u64);
    }
}

/// The decimal representation of a signed integer as a fresh string.
pub fn i64_dec(i: i64) -> (s: String)
    ensures
        s@ == spec_idec(i as int),
{
    let mut s = String::new();
    push_i64_dec(&mut s, i);
    assert(s@ =~= spec_idec(i as int));
    s
}

} // verus!
