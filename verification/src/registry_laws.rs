//! What holds of the registry: one entry per user, and one listing per
//! set of users.

use vstd::prelude::*;
use crate::order::{lemma_uid_order, rising, uid_before};
use crate::server_state::Tx;

verus! {

/// Registry uniqueness: a user that logs in twice is online once, with the
/// queue of the second login; the first queue is out of the registry.
pub proof fn lemma_last_login_wins(users: Map<Seq<char>, Tx>, uid: Seq<char>, q1: Tx, q2: Tx)
    ensures
        users.insert(uid, q1).insert(uid, q2) == users.insert(uid, q2),
        users.insert(uid, q1).insert(uid, q2)[uid] == q2,
{
    assert(users.insert(uid, q1).insert(uid, q2) =~= users.insert(uid, q2));
}

/// A user that logs in and leaves is offline, whoever else is online.
pub proof fn lemma_leaving_undoes_login(users: Map<Seq<char>, Tx>, uid: Seq<char>, q: Tx)
    ensures
        !users.insert(uid, q).remove(uid).contains_key(uid),
        !users.contains_key(uid) ==> users.insert(uid, q).remove(uid) == users,
{
    if !users.contains_key(uid) {
        assert(users.insert(uid, q).remove(uid) =~= users);
    }
}

/// The first id of a rising list comes before every other id of the list.
proof fn lemma_first_is_least(uids: Seq<Seq<char>>, uid: Seq<char>)
    requires
        rising(uids),
        uids.len() > 0,
        uids.contains(uid),
    ensures
        uid == uids[0] || uid_before(uids[0], uid),
{
    let i = uids.index_of(uid);
    if i > 0 {
        assert(uid_before(uids[0], uids[i]));
    }
}

/// The listing is determined by who is online: two rising lists of the
/// same ids are the same list.
pub proof fn lemma_listing_determined(a: Seq<Seq<char>>, b: Seq<Seq<char>>)
    requires
        rising(a),
        rising(b),
        forall|uid: Seq<char>| a.contains(uid) <==> b.contains(uid),
    ensures
        a == b,
    decreases a.len(),
{
    if a.len() == 0 {
        if b.len() > 0 {
            assert(b.contains(b[0]));
        }
        assert(a =~= b);
    } else {
        assert(a.contains(a[0]));
        assert(b.contains(a[0]));
        assert(b.contains(b[0]));
        lemma_first_is_least(a, b[0]);
        lemma_first_is_least(b, a[0]);
        lemma_uid_order(a[0], b[0], a[0]);
        assert(a[0] == b[0]);
        let ta = a.drop_first();
        let tb = b.drop_first();
        assert forall|i: int, j: int| 0 <= i < j < ta.len() implies uid_before(
            #[trigger] ta[i],
            #[trigger] ta[j],
        ) by {
            assert(uid_before(a[i + 1], a[j + 1]));
        }
        assert forall|i: int, j: int| 0 <= i < j < tb.len() implies uid_before(
            #[trigger] tb[i],
            #[trigger] tb[j],
        ) by {
            assert(uid_before(b[i + 1], b[j + 1]));
        }
        assert forall|uid: Seq<char>| ta.contains(uid) <==> tb.contains(uid) by {
            lemma_tail_contains(a, uid);
            lemma_tail_contains(b, uid);
        }
        lemma_listing_determined(ta, tb);
        assert(a =~= seq![a[0]] + ta);
        assert(b =~= seq![b[0]] + tb);
    }
}

/// The ids behind the first of a rising list are the ids of the list but
/// the first.
proof fn lemma_tail_contains(uids: Seq<Seq<char>>, uid: Seq<char>)
    requires
        rising(uids),
        uids.len() > 0,
    ensures
        uids.drop_first().contains(uid) <==> uids.contains(uid) && uid != uids[0],
{
    let tail = uids.drop_first();
    if tail.contains(uid) {
        let i = tail.index_of(uid);
        assert(uids[i + 1] == uid);
        assert(uid_before(uids[0], uids[i + 1]));
        lemma_uid_order(uid, uid, uid);
    }
    if uids.contains(uid) && uid != uids[0] {
        let i = uids.index_of(uid);
        assert(tail[i - 1] == uid);
    }
}

} // verus!
