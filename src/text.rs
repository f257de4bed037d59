//! Prefix and suffix operations on text, stated over sequences of characters.
use vstd::prelude::*;
use vstd::string::{StrSliceExecFns, StringExecFns};

verus! {

/// `s` begins with `p`.
pub open spec fn has_prefix(s: Seq<char>, p: Seq<char>) -> bool {
    p.len() <= s.len() && s.take(p.len() as int) == p
}

/// `s` ends with `x`.
pub open spec fn has_suffix(s: Seq<char>, x: Seq<char>) -> bool {
    x.len() <= s.len() && s.skip(s.len() - x.len()) == x
}

/// `s` without its leading `p`, or `s` itself where it does not begin with `p`.
pub open spec fn drop_prefix(s: Seq<char>, p: Seq<char>) -> Seq<char> {
    if has_prefix(s, p) {
        s.skip(p.len() as int)
    } else {
        s
    }
}

/// `s` without its trailing `x`, or `s` itself where it does not end with `x`.
pub open spec fn drop_suffix(s: Seq<char>, x: Seq<char>) -> Seq<char> {
    if has_suffix(s, x) {
        s.take(s.len() - x.len())
    } else {
        s
    }
}

/// Tells whether `s` begins with `p`.
pub fn starts_with(s: &str, p: &str) -> (r: bool)
    ensures
        r == has_prefix(s@, p@),
{
    let n = p.unicode_len();
    let m = s.unicode_len();
    if n > m {
        return false;
    }
    let mut i: usize = 0;
    while i < n
        invariant
            n == p@.len(),
            m == s@.len(),
            n <= m,
            i <= n,
            forall|j: int| 0 <= j < i ==> s@[j] == p@[j],
        decreases n - i,
    {
        if s.get_char(i) != p.get_char(i) {
            assert(s@.take(n as int)[i as int] != p@[i as int]);
            return false;
        }
        i = i + 1;
    }
    assert(s@.take(n as int) =~= p@);
    true
}

/// Tells whether `s` ends with `x`.
pub fn ends_with(s: &str, x: &str) -> (r: bool)
    ensures
        r == has_suffix(s@, x@),
{
    let n = x.unicode_len();
    let m = s.unicode_len();
    if n > m {
        return false;
    }
    let d: usize = m - n;
    let mut i: usize = 0;
    while i < n
        invariant
            n == x@.len(),
            m == s@.len(),
            d + n == m,
            i <= n,
            forall|j: int| 0 <= j < i ==> s@[d + j] == x@[j],
        decreases n - i,
    {
        if s.get_char(d + i) != x.get_char(i) {
            assert(s@.skip(d as int)[i as int] != x@[i as int]);
            return false;
        }
        i = i + 1;
    }
    assert(s@.skip(d as int) =~= x@);
    true
}

/// `s` without its leading `p`, where it has one.
pub fn strip_prefix(s: &str, p: &str) -> (r: String)
    ensures
        r@ == drop_prefix(s@, p@),
{
    if starts_with(s, p) {
        let n = p.unicode_len();
        let m = s.unicode_len();
        String::from_str(s.substring_char(n, m))
    } else {
        String::from_str(s)
    }
}

/// `s` without its trailing `x`, where it has one.
pub fn strip_suffix(s: &str, x: &str) -> (r: String)
    ensures
        r@ == drop_suffix(s@, x@),
{
    if ends_with(s, x) {
        let n = x.unicode_len();
        let m = s.unicode_len();
        String::from_str(s.substring_char(0, m - n))
    } else {
        String::from_str(s)
    }
}

} // verus!
