//! Searching sequences for a value.

use vstd::prelude::*;

verus! {

/// The first position at or after `from` at which `s` holds `x`, or `s.len()`
/// when there is none.
pub open spec fn find_from<T>(s: Seq<T>, x: T, from: int) -> int
    decreases s.len() - from,
{
    if from < 0 || from >= s.len() {
        s.len() as int
    } else if s[from] == x {
        from
    } else {
        find_from(s, x, from + 1)
    }
}

/// `find_from` returns the least position that holds `x`.
pub proof fn lemma_find_from<T>(s: Seq<T>, x: T, from: int)
    requires
        0 <= from <= s.len(),
    ensures
        from <= find_from(s, x, from) <= s.len(),
        find_from(s, x, from) < s.len() ==> s[find_from(s, x, from)] == x,
        forall|i: int| from <= i < find_from(s, x, from) ==> #[trigger] s[i] != x,
    decreases s.len() - from,
{
    if from < s.len() && s[from] != x {
        lemma_find_from(s, x, from + 1);
    }
}

/// A position that holds `x` with no `x` between `from` and it is the one
/// `find_from` returns.
pub proof fn lemma_find_from_is<T>(s: Seq<T>, x: T, from: int, k: int)
    requires
        0 <= from <= k <= s.len(),
        k < s.len() ==> s[k] == x,
        forall|i: int| from <= i < k ==> #[trigger] s[i] != x,
    ensures
        find_from(s, x, from) == k,
{
    lemma_find_from(s, x, from);
}

/// Whether two byte slices hold the same bytes.
pub fn bytes_eq(a: &[u8], b: &[u8]) -> (r: bool)
    ensures
        r == (a@ == b@),
{
    if a.len() != b.len() {
        return false;
    }
    let mut i: usize = 0;
    while i < a.len()
        invariant
            a.len() == b.len(),
            i <= a.len(),
            forall|j: int| 0 <= j < i ==> a@[j] == b@[j],
        decreases a.len() - i,
    {
        if a[i] != b[i] {
            return false;
        }
        i += 1;
    }
    assert(a@ =~= b@);
    true
}

/// The first position in `[from, to)` at which `s` holds `x`, if any.
pub fn find_byte(s: &[u8], x: u8, from: usize, to: usize) -> (r: Option<usize>)
    requires
        from <= to <= s.len(),
    ensures
        match r {
            Some(k) => from <= k < to && k == find_from(s@.take(to as int), x, from as int),
            None => find_from(s@.take(to as int), x, from as int) == to,
        },
{
    let mut i: usize = from;
    while i < to
        invariant
            from <= i <= to <= s.len(),
            forall|j: int| from <= j < i ==> s@[j] != x,
        decreases to - i,
    {
        if s[i] == x {
            proof {
                lemma_find_from_is(s@.take(to as int), x, from as int, i as int);
            }
            return Some(i);
        }
        i += 1;
    }
    proof {
        lemma_find_from_is(s@.take(to as int), x, from as int, to as int);
    }
    None
}

} // verus!
