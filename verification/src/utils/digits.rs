//! Verified decimal formatting: numbers to their digit characters.

use vstd::prelude::*;

use crate::external::push_char;

verus! {

/// The character for one decimal digit.
pub open spec fn spec_digit_char(d: int) -> char {
    if d == 0 {
        '0'
    } else if d == 1 {
        '1'
    } else if d == 2 {
        '2'
    } else if d == 3 {
        '3'
    } else if d == 4 {
        '4'
    } else if d == 5 {
        '5'
    } else if d == 6 {
        '6'
    } else if d == 7 {
        '7'
    } else if d == 8 {
        '8'
    } else {
        '9'
    }
}

/// The decimal digits of `n`, most significant first.
pub open spec fn spec_decimal(n: int) -> Seq<char>
    decreases n,
{
    if n < 10 {
        seq![spec_digit_char(n)]
    } else {
        spec_decimal(n / 10).push(spec_digit_char(n % 10))
    }
}

/// The character for one decimal digit.
pub fn digit_char(d: u64) -> (c: char)
    requires
        d < 10,
    ensures
        c == spec_digit_char(d as int),
{
    match d {
        0 => '0',
        1 => '1',
        2 => '2',
        3 => '3',
        4 => '4',
        5 => '5',
        6 => '6',
        7 => '7',
        8 => '8',
        _ => '9',
    }
}

/// Appends the decimal digits of `n` to `out`.
pub fn push_decimal(out: &mut String, n: u64)
    ensures
        final(out)@ == old(out)@ + spec_decimal(n as int),
    decreases n,
{
    if n < 10 {
        let c: char = digit_char(n);
        push_char(out, c);
        proof {
            assert(old(out)@ + spec_decimal(n as int) =~= old(out)@.push(c));
        }
    } else {
        push_decimal(out, n / 10);
        let c: char = digit_char(n % 10);
        push_char(out, c);
        proof {
            assert(old(out)@ + spec_decimal(n as int) =~= (old(out)@ + spec_decimal(
                n as int / 10,
            )).push(c));
        }
    }
}

/// The decimal digits of `n` as a string.
pub fn u64_to_string(n: u64) -> (r: String)
    ensures
        r@ == spec_decimal(n as int),
{
    let mut out: String = String::new();
    push_decimal(&mut out, n);
    proof {
        assert(out@ =~= spec_decimal(n as int));
    }
    out
}

/// The decimal digits of `n`, left-padded with `'0'` to two places.
pub open spec fn spec_two_digits(n: int) -> Seq<char> {
    if n < 10 {
        seq!['0'].push(spec_digit_char(n))
    } else {
        spec_decimal(n)
    }
}

/// Appends `n` as at least two decimal digits, zero-padded.
pub fn push_two_digits(out: &mut String, n: u64)
    requires
        n < 100,
    ensures
        final(out)@ == old(out)@ + spec_two_digits(n as int),
{
    if n < 10 {
        push_char(out, '0');
        let c: char = digit_char(n);
        push_char(out, c);
        proof {
            assert(old(out)@ + spec_two_digits(n as int) =~= old(out)@.push('0').push(c));
        }
    } else {
        push_decimal(out, n);
    }
}

} // verus!
