//! Text predicates used by header lookup, scheme tests and cookie
//! matching: ASCII case-insensitive equality, prefix and suffix tests.

use vstd::prelude::*;
use vstd::string::StrSliceExecFns;

verus! {

/// Code point of a character with ASCII upper case folded to lower case.
pub open spec fn lower_code(c: char) -> u32 {
    if 65 <= c as u32 && c as u32 <= 90 {
        (c as u32 + 32) as u32
    } else {
        c as u32
    }
}

/// Two characters are equal up to ASCII case.
pub open spec fn chars_eq_nocase(a: char, b: char) -> bool {
    lower_code(a) == lower_code(b)
}

/// Two character sequences are equal up to ASCII case.
pub open spec fn eq_nocase(a: Seq<char>, b: Seq<char>) -> bool {
    a.len() == b.len() && forall|i: int| 0 <= i < a.len() ==> chars_eq_nocase(a[i], b[i])
}

/// `small` is a suffix of `big`.
pub open spec fn suffix_of(small: Seq<char>, big: Seq<char>) -> bool {
    small.len() <= big.len() && big.skip(big.len() - small.len()) == small
}

/// `small` is a prefix of `big`.
pub open spec fn prefix_of(small: Seq<char>, big: Seq<char>) -> bool {
    small.len() <= big.len() && big.take(small.len() as int) == small
}

pub fn char_eq_nocase(a: char, b: char) -> (r: bool)
    ensures
        r == chars_eq_nocase(a, b),
{
    let x: u32 = a as u32;
    let y: u32 = b as u32;
    let xl: u32 = if 65 <= x && x <= 90 {
        x + 32
    } else {
        x
    };
    let yl: u32 = if 65 <= y && y <= 90 {
        y + 32
    } else {
        y
    };
    xl == yl
}

pub fn str_eq_nocase(a: &str, b: &str) -> (r: bool)
    ensures
        r == eq_nocase(a@, b@),
{
    let n: usize = a.unicode_len();
    let m: usize = b.unicode_len();
    if n != m {
        return false;
    }
    let mut i: usize = 0;
    while i < n
        invariant
            i <= n,
            n == a@.len(),
            n == b@.len(),
            forall|j: int| 0 <= j < i ==> chars_eq_nocase(a@[j], b@[j]),
        decreases n - i,
    {
        if !char_eq_nocase(a.get_char(i), b.get_char(i)) {
            return false;
        }
        i += 1;
    }
    true
}

/// Case-sensitive equality of two string slices.
pub fn str_eq(a: &str, b: &str) -> (r: bool)
    ensures
        r == (a@ == b@),
{
    let n: usize = a.unicode_len();
    let m: usize = b.unicode_len();
    if n != m {
        return false;
    }
    let mut i: usize = 0;
    while i < n
        invariant
            i <= n,
            n == a@.len(),
            n == b@.len(),
            forall|j: int| 0 <= j < i ==> a@[j] == b@[j],
        decreases n - i,
    {
        if a.get_char(i) != b.get_char(i) {
            return false;
        }
        i += 1;
    }
    proof {
        assert(a@ =~= b@);
    }
    true
}

/// `big` ends with `small`.
pub fn str_ends_with(small: &str, big: &str) -> (r: bool)
    ensures
        r == suffix_of(small@, big@),
{
    let n: usize = big.unicode_len();
    let m: usize = small.unicode_len();
    if m > n {
        return false;
    }
    let start: usize = n - m;
    let mut j: usize = 0;
    while j < m
        invariant
            j <= m,
            m <= n,
            n == big@.len(),
            m == small@.len(),
            start == n - m,
            forall|k: int| 0 <= k < j ==> big@[start + k] == small@[k],
        decreases m - j,
    {
        if big.get_char(start + j) != small.get_char(j) {
            proof {
                assert(big@.skip(n - m)[j as int] == big@[start + j]);
            }
            return false;
        }
        j += 1;
    }
    proof {
        assert(big@.skip(n - m) =~= small@);
    }
    true
}

/// `big` starts with `small`.
pub fn str_starts_with(small: &str, big: &str) -> (r: bool)
    ensures
        r == prefix_of(small@, big@),
{
    let n: usize = big.unicode_len();
    let m: usize = small.unicode_len();
    if m > n {
        return false;
    }
    let mut j: usize = 0;
    while j < m
        invariant
            j <= m,
            m <= n,
            n == big@.len(),
            m == small@.len(),
            forall|k: int| 0 <= k < j ==> big@[k] == small@[k],
        decreases m - j,
    {
        if big.get_char(j) != small.get_char(j) {
            proof {
                assert(big@.take(m as int)[j as int] == big@[j as int]);
            }
            return false;
        }
        j += 1;
    }
    proof {
        assert(big@.take(m as int) =~= small@);
    }
    true
}

} // verus!
