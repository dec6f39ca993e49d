//! Character scanning: locating the first occurrence of a delimiter in a
//! character sequence, with the lemmas that pin that position down.

use vstd::prelude::*;

verus! {

/// Index of the first occurrence of `c` in `s`, or `s.len()` when `c` does
/// not occur.
pub open spec fn find_char(s: Seq<char>, c: char) -> nat
    decreases s.len(),
{
    if s.len() == 0 {
        0
    } else if s[0] == c {
        0
    } else {
        1 + find_char(s.subrange(1, s.len() as int), c)
    }
}

/// The first occurrence is within bounds, nothing before it matches, and the
/// character there (if any) matches.
pub proof fn lemma_find_char_props(s: Seq<char>, c: char)
    ensures
        find_char(s, c) <= s.len(),
        forall|j: int| 0 <= j < find_char(s, c) ==> s[j] != c,
        find_char(s, c) < s.len() ==> s[find_char(s, c) as int] == c,
    decreases s.len(),
{
    if s.len() > 0 && s[0] != c {
        let t = s.subrange(1, s.len() as int);
        lemma_find_char_props(t, c);
        assert forall|j: int| 0 <= j < find_char(s, c) implies s[j] != c by {
            if j > 0 {
                assert(t[j - 1] == s[j]);
            }
        }
    }
}

/// A position with no match before it, holding a match (or the end), is the
/// first occurrence.
pub proof fn lemma_find_char_is(s: Seq<char>, c: char, k: int)
    requires
        0 <= k <= s.len(),
        forall|j: int| 0 <= j < k ==> s[j] != c,
        k < s.len() ==> s[k] == c,
    ensures
        find_char(s, c) == k,
    decreases s.len(),
{
    if s.len() == 0 {
    } else if s[0] == c {
        assert(k == 0);
    } else {
        let t = s.subrange(1, s.len() as int);
        assert(forall|j: int| 0 <= j < k - 1 ==> t[j] == s[j + 1]);
        lemma_find_char_is(t, c, k - 1);
    }
}

/// First occurrence of `c` in `s` at or after position `from`; `s.len()` when
/// there is none.
pub fn find_from(s: &str, from: usize, c: char) -> (d: usize)
    requires
        from <= s@.len(),
    ensures
        from <= d <= s@.len(),
        d - from == find_char(s@.subrange(from as int, s@.len() as int), c),
        forall|j: int| from <= j < d ==> s@[j] != c,
        d < s@.len() ==> s@[d as int] == c,
{
    let n = s.unicode_len();
    let mut i: usize = from;
    while i < n
        invariant
            from <= i <= n,
            n == s@.len(),
            forall|j: int| from <= j < i ==> s@[j] != c,
        decreases n - i,
    {
        if s.get_char(i) == c {
            proof {
                let t = s@.subrange(from as int, n as int);
                assert(forall|j: int| 0 <= j < i - from ==> t[j] == s@[j + from]);
                lemma_find_char_is(t, c, i as int - from as int);
            }
            return i;
        }
        i += 1;
    }
    proof {
        let t = s@.subrange(from as int, n as int);
        assert(forall|j: int| 0 <= j < n - from ==> t[j] == s@[j + from]);
        lemma_find_char_is(t, c, n as int - from as int);
    }
    n
}

} // verus!
