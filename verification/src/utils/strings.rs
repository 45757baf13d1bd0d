//! Verified helpers over `&str` and its character view.

use vstd::prelude::*;

verus! {

/// Character-for-character string equality.
pub fn str_eq(a: &str, b: &str) -> (r: bool)
    ensures
        r == (a@ == b@),
{
    let a_len: usize = a.unicode_len();
    let b_len: usize = b.unicode_len();
    if a_len != b_len {
        proof {
            assert(a@ != b@);
        }
        return false;
    }
    let mut i: usize = 0;
    while i < a_len
        invariant
            a_len == a@.len(),
            a_len == b@.len(),
            0 <= i <= a_len,
            forall|j: int| 0 <= j < i ==> a@[j] == b@[j],
        decreases a_len - i,
    {
        if a.get_char(i) != b.get_char(i) {
            proof {
                assert(a@ != b@);
            }
            return false;
        }
        i = i + 1;
    }
    proof {
        assert(a@ =~= b@);
    }
    true
}

/// Whether the character `c` occurs in `s`.
pub fn str_contains_char(s: &str, c: char) -> (r: bool)
    ensures
        r == s@.contains(c),
{
    let n: usize = s.unicode_len();
    let mut i: usize = 0;
    while i < n
        invariant
            n == s@.len(),
            0 <= i <= n,
            forall|j: int| 0 <= j < i ==> s@[j] != c,
        decreases n - i,
    {
        if s.get_char(i) == c {
            proof {
                assert(s@[i as int] == c);
            }
            return true;
        }
        i = i + 1;
    }
    proof {
        assert(forall|j: int| 0 <= j < s@.len() ==> s@[j] != c);
    }
    false
}

/// The characters of `s` as a vector.
pub fn str_chars(s: &str) -> (r: Vec<char>)
    ensures
        r@ == s@,
{
    let n: usize = s.unicode_len();
    let mut chars: Vec<char> = Vec::new();
    let mut i: usize = 0;
    while i < n
        invariant
            n == s@.len(),
            0 <= i <= n,
            chars@ =~= s@.take(i as int),
        decreases n - i,
    {
        chars.push(s.get_char(i));
        proof {
            assert(chars@ =~= s@.take(i as int + 1));
        }
        i = i + 1;
    }
    proof {
        assert(chars@ =~= s@);
    }
    chars
}

/// The summed code points of a text: the cheap content fingerprint the
/// display layer uses to notice changes.
pub open spec fn spec_char_sum(s: Seq<char>) -> int
    decreases s.len(),
{
    if s.len() == 0 {
        0
    } else {
        spec_char_sum(s.drop_last()) + (s.last() as int)
    }
}

/// Sums the code points of a text. The length bound keeps the sum
/// inside `usize` even on 32-bit targets.
pub fn simple_hash(data: &str) -> (r: usize)
    requires
        data@.len() <= 3000,
    ensures
        r == spec_char_sum(data@),
{
    let n: usize = data.unicode_len();
    let mut sum: usize = 0;
    let mut i: usize = 0;
    while i < n
        invariant
            n == data@.len(),
            n <= 3000,
            0 <= i <= n,
            sum == spec_char_sum(data@.take(i as int)),
            sum <= i * 0x11_0000,
        decreases n - i,
    {
        proof {
            assert(data@.take(i as int + 1).drop_last() =~= data@.take(i as int));
            assert(data@.take(i as int + 1).last() == data@[i as int]);
            assert(i * 0x11_0000 + 0x11_0000 == (i + 1) * 0x11_0000) by (nonlinear_arith);
            assert((i + 1) * 0x11_0000 <= 3001 * 0x11_0000) by (nonlinear_arith)
                requires
                    i + 1 <= 3001,
            ;
        }
        let c: char = data.get_char(i);
        proof {
            assert((c as usize) < 0x11_0000);
        }
        sum = sum + (c as usize);
        i = i + 1;
    }
    proof {
        assert(data@.take(n as int) =~= data@);
    }
    sum
}

} // verus!
