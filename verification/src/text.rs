//! Character-sequence helpers shared by the parsers: finding the first
//! occurrence of a character.

use vstd::prelude::*;

verus! {

/// The index of the first occurrence of `c` in `s` at or after `i`, or
/// `s.len()` when there is none.
pub open spec fn spec_index_of_from(s: Seq<char>, c: char, i: int) -> int
    decreases s.len() - i,
{
    if i < 0 || i >= s.len() {
        s.len() as int
    } else if s[i] == c {
        i
    } else {
        spec_index_of_from(s, c, i + 1)
    }
}

/// The index of the first occurrence of `c` in `s`, or `s.len()` when there
/// is none.
pub open spec fn spec_index_of(s: Seq<char>, c: char) -> int {
    spec_index_of_from(s, c, 0)
}

/// What `spec_index_of_from` returns: an index within bounds, pointing at
/// `c`, with no occurrence of `c` before it.
pub proof fn lemma_index_of_from(s: Seq<char>, c: char, i: int)
    requires
        0 <= i <= s.len(),
    ensures
        i <= spec_index_of_from(s, c, i) <= s.len(),
        spec_index_of_from(s, c, i) < s.len() ==> s[spec_index_of_from(s, c, i)] == c,
        forall|j: int| i <= j < spec_index_of_from(s, c, i) ==> s[j] != c,
    decreases s.len() - i,
{
    if i < s.len() && s[i] != c {
        lemma_index_of_from(s, c, i + 1);
    }
}

/// A position at or after `from` that holds `c`, with no occurrence of `c`
/// between `from` and it, is what `spec_index_of_from` finds.
pub proof fn lemma_index_of_from_first(s: Seq<char>, c: char, from: int, k: int)
    requires
        0 <= from <= k < s.len(),
        s[k] == c,
        forall|j: int| from <= j < k ==> s[j] != c,
    ensures
        spec_index_of_from(s, c, from) == k,
{
    lemma_index_of_from(s, c, from);
    let found = spec_index_of_from(s, c, from);
    if found < k {
        assert(s[found] == c);
    }
    if found > k {
        assert(s[k] != c);
    }
}

/// A position that holds `c`, with no occurrence of `c` before it, is what
/// `spec_index_of` finds.
pub proof fn lemma_index_of_first(s: Seq<char>, c: char, k: int)
    requires
        0 <= k < s.len(),
        s[k] == c,
        forall|j: int| 0 <= j < k ==> s[j] != c,
    ensures
        spec_index_of(s, c) == k,
{
    lemma_index_of_from_first(s, c, 0, k);
}

/// Finds the first occurrence of `c` in `s` at or after `from`, returning
/// the string's length when there is none.
pub fn index_of_from(s: &str, c: char, from: usize) -> (r: usize)
    requires
        from <= s@.len(),
    ensures
        r == spec_index_of_from(s@, c, from as int),
        from <= r <= s@.len(),
        r < s@.len() ==> s@[r as int] == c,
        forall|j: int| from <= j < r ==> s@[j] != c,
{
    let len = s.unicode_len();
    let mut i = from;
    while i < len
        invariant
            from <= i <= len,
            len == s@.len(),
            spec_index_of_from(s@, c, from as int) == spec_index_of_from(s@, c, i as int),
            forall|j: int| from <= j < i ==> s@[j] != c,
        decreases len - i,
    {
        if s.get_char(i) == c {
            proof {
                lemma_index_of_from(s@, c, i as int);
            }
            return i;
        }
        i += 1;
    }
    proof {
        lemma_index_of_from(s@, c, from as int);
    }
    len
}

} // verus!
