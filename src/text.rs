//! Character classes and scanning over the characters of a string.
use vstd::prelude::*;

verus! {

/// The characters that `char::is_whitespace` accepts: those with the Unicode
/// `White_Space` property.
pub open spec fn white_space(c: char) -> bool {
    let u = c as u32;
    (0x9 <= u && u <= 0xd) || u == 0x20 || u == 0x85 || u == 0xa0 || u == 0x1680
        || (0x2000 <= u && u <= 0x200a) || u == 0x2028 || u == 0x2029 || u == 0x202f
        || u == 0x205f || u == 0x3000
}

/// Relies on `char::is_whitespace`, which is documented to hold exactly on the
/// characters with the Unicode `White_Space` property.
#[verifier::external_body]
fn is_space(c: char) -> (r: bool)
    ensures
        r == white_space(c),
{
    c.is_whitespace()
}

/// The characters that trimming strips from either end of a string.
#[derive(Clone, Copy, Debug, PartialEq, Eq)]
pub enum Class {
    Space,
    Dot,
}

pub open spec fn in_class(k: Class, c: char) -> bool {
    match k {
        Class::Space => white_space(c),
        Class::Dot => c == '.',
    }
}

pub fn is_in(k: Class, c: char) -> (r: bool)
    ensures
        r == in_class(k, c),
{
    match k {
        Class::Space => is_space(c),
        Class::Dot => c == '.',
    }
}

/// The first index at or after `i` whose character is not in class `k`.
pub open spec fn skip_fwd(s: Seq<char>, i: int, k: Class) -> int
    decreases s.len() - i,
{
    if 0 <= i < s.len() && in_class(k, s[i]) {
        skip_fwd(s, i + 1, k)
    } else {
        i
    }
}

/// Going down from `j`, but not below `lo`, the first end whose previous
/// character is not in class `k`.
pub open spec fn skip_back(s: Seq<char>, j: int, lo: int, k: Class) -> int
    decreases j - lo,
{
    if lo < j && j <= s.len() && in_class(k, s[j - 1]) {
        skip_back(s, j - 1, lo, k)
    } else {
        j
    }
}

/// `s` without the characters of class `k` at its start and at its end.
pub open spec fn trim_class(s: Seq<char>, k: Class) -> Seq<char> {
    let a = skip_fwd(s, 0, k);
    s.subrange(a, skip_back(s, s.len() as int, a, k))
}

/// The first index at or after `i` that holds `c`, or the length of `s`.
pub open spec fn find_char(s: Seq<char>, i: int, c: char) -> int
    decreases s.len() - i,
{
    if 0 <= i < s.len() && s[i] != c {
        find_char(s, i + 1, c)
    } else {
        i
    }
}

pub proof fn lemma_find_char(s: Seq<char>, i: int, c: char)
    requires
        0 <= i <= s.len(),
    ensures
        i <= find_char(s, i, c) <= s.len(),
        find_char(s, i, c) < s.len() ==> s[find_char(s, i, c)] == c,
        forall|m: int| i <= m < find_char(s, i, c) ==> s[m] != c,
    decreases s.len() - i,
{
    if i < s.len() && s[i] != c {
        lemma_find_char(s, i + 1, c);
    }
}

/// `s` without the characters of class `k` at either end.
pub fn trim_str(s: &str, k: Class) -> (r: &str)
    ensures
        r@ == trim_class(s@, k),
{
    let n = s.unicode_len();
    let mut a: usize = 0;
    while a < n && is_in(k, s.get_char(a))
        invariant
            n == s@.len(),
            a <= n,
            skip_fwd(s@, a as int, k) == skip_fwd(s@, 0, k),
        decreases n - a,
    {
        a = a + 1;
    }
    let mut b: usize = n;
    while b > a && is_in(k, s.get_char(b - 1))
        invariant
            n == s@.len(),
            a <= b <= n,
            skip_fwd(s@, 0, k) == a,
            skip_back(s@, b as int, a as int, k) == skip_back(s@, n as int, a as int, k),
        decreases b - a,
    {
        b = b - 1;
    }
    s.substring_char(a, b)
}

/// The first index at or after `i` where `s` holds `c`, or `n`, the length.
pub fn find_from(s: &str, n: usize, i: usize, c: char) -> (r: usize)
    requires
        n == s@.len(),
        i <= n,
    ensures
        r == find_char(s@, i as int, c),
        i <= r <= n,
{
    let mut j: usize = i;
    while j < n && s.get_char(j) != c
        invariant
            n == s@.len(),
            i <= j <= n,
            find_char(s@, j as int, c) == find_char(s@, i as int, c),
        decreases n - j,
    {
        j = j + 1;
    }
    j
}

} // verus!
