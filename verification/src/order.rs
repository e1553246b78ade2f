//! The order in which user ids are listed.

use vstd::prelude::*;
use vstd::string::*;
use vstd::utf8::*;

verus! {

/// The first position at or after `from` at which `a` and `b` differ, or
/// one of them ends.
pub open spec fn first_difference(a: Seq<u8>, b: Seq<u8>, from: int) -> int
    decreases a.len() - from,
{
    if from < 0 || from >= a.len() || from >= b.len() || a[from] != b[from] {
        from
    } else {
        first_difference(a, b, from + 1)
    }
}

/// Whether `a` comes before `b` byte by byte: at the first position where
/// they part, `a` has ended or holds the smaller byte.
pub open spec fn bytes_before(a: Seq<u8>, b: Seq<u8>) -> bool {
    let k = first_difference(a, b, 0);
    k < b.len() && (k == a.len() || a[k] < b[k])
}

/// Whether user id `a` is listed before user id `b`: the order of their
/// UTF-8 bytes, which is the order of `String`.
pub open spec fn uid_before(a: Seq<char>, b: Seq<char>) -> bool {
    bytes_before(encode_utf8(a), encode_utf8(b))
}

/// Whether the ids stand in strictly rising order.
pub open spec fn rising(uids: Seq<Seq<char>>) -> bool {
    forall|i: int, j: int| 0 <= i < j < uids.len() ==> uid_before(#[trigger] uids[i], #[trigger] uids[j])
}

/// Up to their first difference two byte sequences are the same.
pub proof fn lemma_first_difference(a: Seq<u8>, b: Seq<u8>, from: int)
    requires
        0 <= from <= a.len(),
        from <= b.len(),
    ensures
        ({
            let k = first_difference(a, b, from);
            &&& from <= k <= a.len()
            &&& k <= b.len()
            &&& forall|i: int| from <= i < k ==> a[i] == b[i]
            &&& k < a.len() && k < b.len() ==> a[k] != b[k]
        }),
    decreases a.len() - from,
{
    if from < a.len() && from < b.len() && a[from] == b[from] {
        lemma_first_difference(a, b, from + 1);
    }
}

/// A position up to which two sequences agree, and at which they part or
/// one ends, is their first difference.
pub proof fn lemma_first_difference_is(a: Seq<u8>, b: Seq<u8>, k: int)
    requires
        0 <= k <= a.len(),
        k <= b.len(),
        forall|i: int| 0 <= i < k ==> a[i] == b[i],
        k < a.len() && k < b.len() ==> a[k] != b[k],
    ensures
        first_difference(a, b, 0) == k,
{
    lemma_first_difference(a, b, 0);
}

/// Of two different byte sequences exactly one comes before the other; a
/// sequence does not come before itself.
pub proof fn lemma_bytes_before_total(a: Seq<u8>, b: Seq<u8>)
    ensures
        a == b ==> !bytes_before(a, b),
        a != b ==> (bytes_before(a, b) <==> !bytes_before(b, a)),
{
    lemma_first_difference(a, b, 0);
    lemma_first_difference(b, a, 0);
    let k = first_difference(a, b, 0);
    lemma_first_difference_is(b, a, k);
    if a != b && k == a.len() && k == b.len() {
        assert(a =~= b);
    }
}

/// The byte order is transitive.
pub proof fn lemma_bytes_before_transitive(a: Seq<u8>, b: Seq<u8>, c: Seq<u8>)
    requires
        bytes_before(a, b),
        bytes_before(b, c),
    ensures
        bytes_before(a, c),
{
    lemma_first_difference(a, b, 0);
    lemma_first_difference(b, c, 0);
    let i = first_difference(a, b, 0);
    let j = first_difference(b, c, 0);
    let k = if i < j {
        i
    } else {
        j
    };
    lemma_first_difference_is(a, c, k);
}

/// The order of user ids is a strict total order.
pub proof fn lemma_uid_order(a: Seq<char>, b: Seq<char>, c: Seq<char>)
    ensures
        !uid_before(a, a),
        a != b ==> (uid_before(a, b) <==> !uid_before(b, a)),
        uid_before(a, b) && uid_before(b, c) ==> uid_before(a, c),
{
    encode_utf8_decode_utf8(a);
    encode_utf8_decode_utf8(b);
    lemma_bytes_before_total(encode_utf8(a), encode_utf8(a));
    lemma_bytes_before_total(encode_utf8(a), encode_utf8(b));
    if uid_before(a, b) && uid_before(b, c) {
        lemma_bytes_before_transitive(encode_utf8(a), encode_utf8(b), encode_utf8(c));
    }
}

/// How one user id stands to another in the listing.
#[derive(Debug, Clone, Copy, PartialEq, Eq, Structural)]
pub enum Rank {
    Before,
    Same,
    After,
}

/// How `a` stands to `b`.
pub fn rank(a: &str, b: &str) -> (r: Rank)
    ensures
        r == Rank::Before <==> uid_before(a@, b@),
        r == Rank::Same <==> a@ == b@,
        r == Rank::After <==> uid_before(b@, a@),
{
    let x = a.as_bytes();
    let y = b.as_bytes();
    proof {
        lemma_uid_order(a@, b@, a@);
        lemma_uid_order(b@, a@, a@);
        encode_utf8_decode_utf8(a@);
        encode_utf8_decode_utf8(b@);
    }
    let mut i: usize = 0;
    while i < x.len() && i < y.len() && x[i] == y[i]
        invariant
            i <= x.len(),
            i <= y.len(),
            forall|j: int| 0 <= j < i ==> x@[j] == y@[j],
        decreases x.len() - i,
    {
        i += 1;
    }
    proof {
        lemma_first_difference_is(x@, y@, i as int);
        lemma_first_difference_is(y@, x@, i as int);
    }
    if i == x.len() && i == y.len() {
        assert(x@ =~= y@);
        Rank::Same
    } else if i == x.len() {
        Rank::Before
    } else if i == y.len() {
        Rank::After
    } else if x[i] < y[i] {
        Rank::Before
    } else {
        Rank::After
    }
}

} // verus!
