use vstd::prelude::*;

verus! {

/// True when `p` is a prefix of `s`.
pub open spec fn has_prefix(s: Seq<char>, p: Seq<char>) -> bool {
    p.len() <= s.len() && s.subrange(0, p.len() as int) == p
}

/// The least index at or after `lo` where `s` holds `c`, or `s.len()` when there is none.
pub open spec fn first_from(s: Seq<char>, c: char, lo: int) -> int
    decreases s.len() - lo,
{
    if lo >= s.len() || lo < 0 {
        s.len() as int
    } else if s[lo] == c {
        lo
    } else {
        first_from(s, c, lo + 1)
    }
}

pub proof fn lemma_first_from(s: Seq<char>, c: char, lo: int)
    requires
        0 <= lo <= s.len(),
    ensures
        lo <= first_from(s, c, lo) <= s.len(),
        first_from(s, c, lo) < s.len() ==> s[first_from(s, c, lo)] == c,
        forall|k: int| lo <= k < first_from(s, c, lo) ==> s[k] != c,
    decreases s.len() - lo,
{
    if lo < s.len() && s[lo] != c {
        lemma_first_from(s, c, lo + 1);
    }
}

/// A position known to lie before the first `c` from `lo` fixes that position.
pub proof fn lemma_first_from_at(s: Seq<char>, c: char, lo: int, at: int)
    requires
        0 <= lo <= at <= s.len(),
        at < s.len() ==> s[at] == c,
        forall|k: int| lo <= k < at ==> s[k] != c,
    ensures
        first_from(s, c, lo) == at,
    decreases at - lo,
{
    if lo < at {
        lemma_first_from_at(s, c, lo + 1, at);
    }
}

/// Whether `s` starts with `p`.
pub fn starts_with(s: &str, p: &str) -> (r: bool)
    ensures
        r == has_prefix(s@, p@),
{
    let n = s.unicode_len();
    let m = p.unicode_len();
    if m > n {
        return false;
    }
    let mut i: usize = 0;
    while i < m
        invariant
            m == p@.len(),
            n == s@.len(),
            m <= n,
            i <= m,
            forall|k: int| 0 <= k < i ==> s@[k] == p@[k],
        decreases m - i,
    {
        if s.get_char(i) != p.get_char(i) {
            assert(s@.subrange(0, m as int)[i as int] != p@[i as int]);
            return false;
        }
        i = i + 1;
    }
    assert(s@.subrange(0, m as int) =~= p@);
    true
}

/// The position of the first `c` in `s` at or after `lo`, or the length of `s`.
pub fn find_char(s: &str, c: char, lo: usize) -> (r: usize)
    requires
        lo <= s@.len(),
    ensures
        r as int == first_from(s@, c, lo as int),
{
    let n = s.unicode_len();
    let mut i: usize = lo;
    while i < n
        invariant
            n == s@.len(),
            lo <= i <= n,
            first_from(s@, c, lo as int) == first_from(s@, c, i as int),
        decreases n - i,
    {
        if s.get_char(i) == c {
            return i;
        }
        i = i + 1;
    }
    i
}

} // verus!
