//! Text helpers: comparison, search and decimal rendering over `str` views.
use vstd::prelude::*;
use vstd::string::*;

verus! {

/// Whether `a` and `b` hold the same characters.
pub fn str_equal(a: &str, b: &str) -> (r: bool)
    ensures
        r == (a@ == b@),
{
    let n = a.unicode_len();
    if n != b.unicode_len() {
        return false;
    }
    let mut i: usize = 0;
    while i < n
        invariant
            n == a@.len(),
            n == b@.len(),
            i <= n,
            forall|k: int| 0 <= k < i ==> a@[k] == b@[k],
        decreases n - i,
    {
        if a.get_char(i) != b.get_char(i) {
            return false;
        }
        i = i + 1;
    }
    assert(a@ =~= b@);
    true
}

/// Whether `pattern` occurs in `s` at position `at`.
pub open spec fn occurs_at(s: Seq<char>, pattern: Seq<char>, at: int) -> bool {
    0 <= at && at + pattern.len() <= s.len() && s.subrange(at, at + pattern.len()) == pattern
}

/// Whether `pattern` occurs anywhere in `s`.
pub open spec fn contains_seq(s: Seq<char>, pattern: Seq<char>) -> bool {
    exists|at: int| occurs_at(s, pattern, at)
}

fn matches_at(s: &str, pattern: &str, at: usize) -> (r: bool)
    requires
        at as int + pattern@.len() <= s@.len(),
    ensures
        r == occurs_at(s@, pattern@, at as int),
{
    let m = pattern.unicode_len();
    let n = s.unicode_len();
    let mut k: usize = 0;
    while k < m
        invariant
            m == pattern@.len(),
            n == s@.len(),
            at as int + m <= s@.len(),
            k <= m,
            forall|j: int| 0 <= j < k ==> s@[at + j] == pattern@[j],
        decreases m - k,
    {
        if s.get_char(at + k) != pattern.get_char(k) {
            assert(s@.subrange(at as int, at + m)[k as int] != pattern@[k as int]);
            return false;
        }
        k = k + 1;
    }
    assert(s@.subrange(at as int, at + m) =~= pattern@);
    true
}

/// Whether `s` starts with `prefix`.
pub fn starts_with(s: &str, prefix: &str) -> (r: bool)
    ensures
        r == occurs_at(s@, prefix@, 0),
{
    if prefix.unicode_len() > s.unicode_len() {
        return false;
    }
    matches_at(s, prefix, 0)
}

/// Whether `pattern` occurs in `s`.
pub fn contains(s: &str, pattern: &str) -> (r: bool)
    ensures
        r == contains_seq(s@, pattern@),
{
    let n = s.unicode_len();
    let m = pattern.unicode_len();
    if m > n {
        assert forall|at: int| !occurs_at(s@, pattern@, at) by {}
        return false;
    }
    if m == 0 {
        assert(occurs_at(s@, pattern@, 0)) by {
            assert(s@.subrange(0, 0) =~= pattern@);
        }
        return true;
    }
    let mut at: usize = 0;
    while at <= n - m
        invariant
            n == s@.len(),
            m == pattern@.len(),
            1 <= m <= n,
            at <= n - m + 1,
            forall|j: int| 0 <= j < at ==> !occurs_at(s@, pattern@, j),
        decreases n - m + 1 - at,
    {
        if matches_at(s, pattern, at) {
            return true;
        }
        at = at + 1;
    }
    assert forall|j: int| !occurs_at(s@, pattern@, j) by {}
    false
}

} // verus!
