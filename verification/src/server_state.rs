//! The registry of the users that are online.

use tokio::sync::mpsc::error::SendError;
use tokio::sync::mpsc::UnboundedSender;
use vstd::prelude::*;
use vstd::string::*;
use vstd::utf8::*;
use crate::command::Command;
use crate::error::{ClientError, ErrorType, ExternalError, GlobalErrorView, GlobalResult};
use crate::message::{Frame, Message};
use crate::order::{lemma_uid_order, rank, rising, uid_before, Rank};

verus! {

/// `tokio::sync::mpsc::UnboundedSender`, the sending half of a user's
/// outbound queue. Verus sees nothing inside it.
#[verifier::external_type_specification]
#[verifier::external_body]
#[verifier::reject_recursive_types(T)]
pub struct ExUnboundedSender<T>(UnboundedSender<T>);

/// `tokio::sync::mpsc::error::SendError`, which a closed queue hands back.
#[verifier::external_type_specification]
#[verifier::external_body]
#[verifier::reject_recursive_types(T)]
pub struct ExSendError<T>(SendError<T>);

/// The sending half of a user's outbound queue.
pub type Tx = UnboundedSender<Message>;

/// `UnboundedSender::send`: puts `msg` on the queue without waiting, or
/// fails where the receiving half is closed or gone. Which of the two
/// depends on the other half, so the contract says nothing of the result.
#[verifier::external_body]
pub(crate) fn queue_send(tx: &Tx, msg: Message) -> (r: Result<(), SendError<Message>>) {
    tx.send(msg)
}

/// The `Display` of `SendError`: the fixed text `channel closed`.
#[verifier::external_body]
pub(crate) fn send_error_text(e: &SendError<Message>) -> (s: String)
    ensures
        s@ == "channel closed"@,
{
    format!("{}", e)
}

/// The error that a failed send is reported as.
pub open spec fn channel_closed() -> GlobalErrorView {
    GlobalErrorView {
        err: ErrorType::External(ExternalError::TokioChannel),
        info: Some("channel closed"@),
    }
}

/// The error that a frame for an unknown receiver is reported as. Its
/// context is the receiver that the frame itself names.
pub open spec fn receiver_not_exist(f: Frame) -> GlobalErrorView {
    GlobalErrorView {
        err: ErrorType::Client(ClientError::ReceiverNotExist),
        info: Some(f.receiver),
    }
}

/// What a send on a user's queue comes to.
pub fn sent(outcome: Result<(), SendError<Message>>) -> (r: GlobalResult<()>)
    ensures
        outcome is Ok ==> r is Ok,
        outcome is Err ==> r is Err && r->Err_0@ == channel_closed(),
{
    match outcome {
        Ok(()) => Ok(()),
        Err(e) => {
            let text = send_error_text(&e);
            Err(ExternalError::TokioChannel.info(text.as_str()))
        },
    }
}

/// The ids of a list of entries, in the order of the list.
pub open spec fn uids_of(list: Seq<(String, Tx)>) -> Seq<Seq<char>> {
    Seq::new(list.len(), |i: int| list[i].0@)
}

/// The ids, one per line.
pub open spec fn lines(uids: Seq<Seq<char>>) -> Seq<char>
    decreases uids.len(),
{
    if uids.len() == 0 {
        Seq::empty()
    } else if uids.len() == 1 {
        uids[0]
    } else {
        lines(uids.drop_last()) + seq!['\n'] + uids.last()
    }
}

/// The users that are online, each with the queue that feeds its
/// connection. A user id occurs at most once.
#[derive(Debug)]
pub struct OnlineUsers {
    list: Vec<(String, Tx)>,
}

impl View for OnlineUsers {
    type V = Map<Seq<char>, Tx>;

    /// From each user id to the queue of its connection.
    closed spec fn view(&self) -> Map<Seq<char>, Tx> {
        entries_map(self.list@)
    }
}

/// The map that a list of entries stands for.
spec fn entries_map(list: Seq<(String, Tx)>) -> Map<Seq<char>, Tx> {
    Map::new(
        |uid: Seq<char>| uids_of(list).contains(uid),
        |uid: Seq<char>| list[uids_of(list).index_of(uid)].1,
    )
}

/// In a list with rising ids each id leads to the queue beside it.
proof fn lemma_entry(list: Seq<(String, Tx)>, i: int)
    requires
        rising(uids_of(list)),
        0 <= i < list.len(),
    ensures
        entries_map(list).contains_key(list[i].0@),
        entries_map(list)[list[i].0@] == list[i].1,
{
    let uids = uids_of(list);
    assert(uids[i] == list[i].0@);
    let j = uids.index_of(uids[i]);
    if j != i {
        lemma_uid_order(uids[i], uids[j], uids[i]);
        if j < i {
            assert(uid_before(uids[j], uids[i]));
        } else {
            assert(uid_before(uids[i], uids[j]));
        }
    }
}

impl OnlineUsers {
    /// The ids are kept in rising order.
    #[verifier::type_invariant]
    spec fn well_formed(self) -> bool {
        rising(uids_of(self.list@))
    }

    /// The ids of the users that are online, in rising order.
    pub closed spec fn uids(&self) -> Seq<Seq<char>> {
        uids_of(self.list@)
    }

    /// A registry without users.
    pub fn new() -> (users: OnlineUsers)
        ensures
            users@ == Map::<Seq<char>, Tx>::empty(),
            users.uids() == Seq::<Seq<char>>::empty(),
    {
        let users = OnlineUsers { list: Vec::new() };
        assert(users@ =~= Map::<Seq<char>, Tx>::empty());
        assert(users.uids() =~= Seq::<Seq<char>>::empty());
        users
    }

    /// Where `uid` stands in the list, or would stand, and whether it is
    /// there.
    fn position(&self, uid: &str) -> (r: (usize, bool))
        ensures
            r.0 <= self.list.len(),
            r.1 ==> r.0 < self.list.len() && self.list[r.0 as int].0@ == uid@,
            !r.1 ==> !self@.contains_key(uid@),
            forall|i: int| 0 <= i < r.0 ==> uid_before(#[trigger] self.list[i].0@, uid@),
            forall|i: int|
                r.0 <= i < self.list.len() && !(r.1 && i == r.0) ==> uid_before(
                    uid@,
                    #[trigger] self.list[i].0@,
                ),
    {
        proof {
            use_type_invariant(self);
        }
        let ghost uids = uids_of(self.list@);
        let mut i: usize = 0;
        while i < self.list.len()
            invariant
                i <= self.list.len(),
                uids == uids_of(self.list@),
                rising(uids),
                forall|j: int| 0 <= j < i ==> uid_before(#[trigger] self.list[j].0@, uid@),
            decreases self.list.len() - i,
        {
            let r = rank(self.list[i].0.as_str(), uid);
            match r {
                Rank::Before => {},
                Rank::Same => {
                    assert forall|j: int| i < j < self.list.len() implies uid_before(
                        uid@,
                        #[trigger] self.list[j].0@,
                    ) by {
                        assert(uid_before(uids[i as int], uids[j]));
                    }
                    return (i, true);
                },
                Rank::After => {
                    assert forall|j: int| i <= j < self.list.len() implies uid_before(
                        uid@,
                        #[trigger] self.list[j].0@,
                    ) by {
                        if i < j {
                            assert(uid_before(uids[i as int], uids[j]));
                            lemma_uid_order(uid@, uids[i as int], uids[j]);
                        }
                    }
                    proof {
                        self.lemma_absent(uid@, i as int);
                    }
                    return (i, false);
                },
            }
            i += 1;
        }
        proof {
            self.lemma_absent(uid@, i as int);
        }
        (i, false)
    }

    /// An id that parts the list in two, the ids before it and the ids after
    /// it, is not in the list.
    proof fn lemma_absent(&self, uid: Seq<char>, at: int)
        requires
            0 <= at <= self.list.len(),
            forall|i: int| 0 <= i < at ==> uid_before(#[trigger] self.list[i].0@, uid),
            forall|i: int| at <= i < self.list.len() ==> uid_before(uid, #[trigger] self.list[i].0@),
        ensures
            !self@.contains_key(uid),
    {
        let uids = uids_of(self.list@);
        if uids.contains(uid) {
            let j = uids.index_of(uid);
            assert(self.list[j].0@ == uid);
            lemma_uid_order(uid, uid, uid);
        }
    }

    /// Puts `uid` online with the queue `tx`. Where `uid` is online already,
    /// the new queue takes the place of the old one.
    pub fn add_user(&mut self, uid: &str, tx: Tx)
        ensures
            final(self)@ == old(self)@.insert(uid@, tx),
    {
        proof {
            use_type_invariant(&*self);
        }
        let (at, found) = self.position(uid);
        let ghost before = self.list@;
        let mut list: Vec<(String, Tx)> = Vec::new();
        std::mem::swap(&mut self.list, &mut list);
        if found {
            list[at] = (uid.to_owned(), tx);
        } else {
            list.insert(at, (uid.to_owned(), tx));
        }
        proof {
            let after = list@;
            assert forall|i: int, j: int| 0 <= i < j < after.len() implies uid_before(
                #[trigger] uids_of(after)[i],
                #[trigger] uids_of(after)[j],
            ) by {
                lemma_rising_after_put(before, after, uid@, tx, at as int, found, i, j);
            }
            lemma_map_after_put(before, after, uid@, tx, at as int, found);
        }
        self.list = list;
    }

    /// The queue that a frame for `receiver` goes to, and the frame as it
    /// goes there: addressed to `receiver`. Where `receiver` is not online,
    /// the error names the receiver that the frame itself gave.
    pub fn addressed(&self, receiver: &str, msg: Message) -> (r: GlobalResult<(&Tx, Message)>)
        ensures
            match r {
                Ok((tx, out)) => {
                    &&& self@.contains_key(receiver@)
                    &&& *tx == self@[receiver@]
                    &&& out@ == (Frame { receiver: receiver@, ..msg@ })
                },
                Err(e) => !self@.contains_key(receiver@) && e@ == receiver_not_exist(msg@),
            },
    {
        proof {
            use_type_invariant(self);
        }
        let (at, found) = self.position(receiver);
        if !found {
            return Err(ClientError::ReceiverNotExist.info(msg.receiver.as_str()));
        }
        proof {
            lemma_entry(self.list@, at as int);
        }
        Ok((&self.list[at].1, msg.set_receiver(receiver)))
    }

    /// Sends `msg` to `receiver`: puts it, addressed to `receiver`, on the
    /// queue that `addressed` gives. Fails where `receiver` is not online,
    /// and where its queue is closed.
    pub fn send(&self, receiver: &str, msg: Message) -> (r: GlobalResult<()>)
        ensures
            !self@.contains_key(receiver@) ==> r is Err && r->Err_0@ == receiver_not_exist(msg@),
            self@.contains_key(receiver@) ==> r is Ok || r->Err_0@ == channel_closed(),
    {
        match self.addressed(receiver, msg) {
            Err(e) => Err(e),
            Ok((tx, out)) => sent(queue_send(tx, out)),
        }
    }

    /// The ids of the users that are online, in rising order.
    pub fn snapshot_uids(&self) -> (list: Vec<String>)
        ensures
            list.len() == self.uids().len(),
            forall|i: int| 0 <= i < list.len() ==> #[trigger] list[i]@ == self.uids()[i],
            rising(self.uids()),
            forall|uid: Seq<char>| self.uids().contains(uid) <==> self@.contains_key(uid),
    {
        proof {
            use_type_invariant(self);
        }
        let mut list: Vec<String> = Vec::new();
        let mut i: usize = 0;
        while i < self.list.len()
            invariant
                i <= self.list.len(),
                list.len() == i,
                forall|j: int| 0 <= j < i ==> #[trigger] list[j]@ == self.list[j].0@,
            decreases self.list.len() - i,
        {
            list.push(self.list[i].0.clone());
            i += 1;
        }
        list
    }

    /// The frame that lists the users that are online: their ids in rising
    /// order, one per line.
    pub fn to_msg(&self) -> (m: Message)
        ensures
            m@ == (Frame {
                sender: Seq::empty(),
                receiver: Seq::empty(),
                command: Command::OnlineList,
                content: encode_utf8(lines(self.uids())),
            }),
            rising(self.uids()),
            forall|uid: Seq<char>| self.uids().contains(uid) <==> self@.contains_key(uid),
    {
        proof {
            use_type_invariant(self);
        }
        let ghost uids = uids_of(self.list@);
        let mut text = String::new();
        let mut i: usize = 0;
        while i < self.list.len()
            invariant
                i <= self.list.len(),
                uids == uids_of(self.list@),
                text@ == lines(uids.take(i as int)),
            decreases self.list.len() - i,
        {
            if i > 0 {
                text.append("\n");
            }
            text.append(self.list[i].0.as_str());
            proof {
                reveal_strlit("\n");
                let next = uids.take(i + 1);
                assert(next.drop_last() =~= uids.take(i as int));
                assert(next.last() == uids[i as int]);
                assert(text@ =~= lines(next));
            }
            i += 1;
        }
        assert(uids.take(i as int) =~= uids);
        Message::online_list(text.as_str())
    }

    /// Takes `uid` offline, if it is online.
    pub fn remove_user(&mut self, uid: &str)
        ensures
            final(self)@ == old(self)@.remove(uid@),
    {
        proof {
            use_type_invariant(&*self);
        }
        let (at, found) = self.position(uid);
        let ghost before = self.list@;
        if found {
            let mut list: Vec<(String, Tx)> = Vec::new();
            std::mem::swap(&mut self.list, &mut list);
            list.remove(at);
            proof {
                let after = list@;
                assert forall|i: int, j: int| 0 <= i < j < after.len() implies uid_before(
                    #[trigger] uids_of(after)[i],
                    #[trigger] uids_of(after)[j],
                ) by {
                    let oi = if i < at { i } else { i + 1 };
                    let oj = if j < at { j } else { j + 1 };
                    assert(uids_of(after)[i] == uids_of(before)[oi]);
                    assert(uids_of(after)[j] == uids_of(before)[oj]);
                }
                lemma_map_after_take(before, after, uid@, at as int);
            }
            self.list = list;
        } else {
            assert(self@ =~= old(self)@.remove(uid@));
        }
    }
}

/// The list stays in rising order when an entry is put where it belongs.
proof fn lemma_rising_after_put(
    before: Seq<(String, Tx)>,
    after: Seq<(String, Tx)>,
    uid: Seq<char>,
    tx: Tx,
    at: int,
    found: bool,
    i: int,
    j: int,
)
    requires
        rising(uids_of(before)),
        put_at(before, after, uid, tx, at, found),
        0 <= i < j < after.len(),
    ensures
        uid_before(uids_of(after)[i], uids_of(after)[j]),
{
    let old_uids = uids_of(before);
    let step: int = if found { 0 } else { 1 };
    let oi = if i < at { i } else { i - step };
    let oj = if j < at { j } else { j - step };
    if i != at {
        assert(uids_of(after)[i] == old_uids[oi]);
    }
    if j != at {
        assert(uids_of(after)[j] == old_uids[oj]);
    }
    if i != at && j != at {
        assert(uid_before(old_uids[oi], old_uids[oj]));
    } else if i == at {
        assert(uid_before(uid, before[oj].0@));
    } else {
        assert(uid_before(before[oi].0@, uid));
    }
}

/// What `add_user` does to the list: the entry `(uid, tx)` stands at `at`,
/// in the place of the old entry of `uid` where `found`, and between the ids
/// before it and the ids after it otherwise.
spec fn put_at(
    before: Seq<(String, Tx)>,
    after: Seq<(String, Tx)>,
    uid: Seq<char>,
    tx: Tx,
    at: int,
    found: bool,
) -> bool {
    &&& 0 <= at <= before.len()
    &&& found ==> at < before.len() && before[at].0@ == uid
    &&& forall|i: int| 0 <= i < at ==> uid_before(#[trigger] before[i].0@, uid)
    &&& forall|i: int|
        at <= i < before.len() && !(found && i == at) ==> uid_before(uid, #[trigger] before[i].0@)
    &&& after.len() == before.len() + if found { 0int } else { 1int }
    &&& after[at].0@ == uid
    &&& after[at].1 == tx
    &&& forall|i: int| 0 <= i < at ==> after[i] == before[i]
    &&& forall|i: int| at < i < after.len() ==> after[i] == before[i - if found { 0int } else { 1int }]
}

/// The map after `add_user` is the map before it with `uid` led to `tx`.
proof fn lemma_map_after_put(
    before: Seq<(String, Tx)>,
    after: Seq<(String, Tx)>,
    uid: Seq<char>,
    tx: Tx,
    at: int,
    found: bool,
)
    requires
        rising(uids_of(before)),
        rising(uids_of(after)),
        put_at(before, after, uid, tx, at, found),
    ensures
        entries_map(after) == entries_map(before).insert(uid, tx),
{
    let step: int = if found { 0 } else { 1 };
    let m = entries_map(before).insert(uid, tx);
    assert forall|k: Seq<char>| #[trigger]
        entries_map(after).dom().contains(k) implies m.dom().contains(k) && m[k] == entries_map(
        after,
    )[k] by {
        let i = uids_of(after).index_of(k);
        lemma_entry(after, i);
        if i != at {
            let oi = if i < at { i } else { i - step };
            assert(after[i] == before[oi]);
            lemma_entry(before, oi);
            lemma_entry(after, at);
            lemma_uid_order(k, uid, k);
            assert(uids_of(after)[i] == k && uids_of(after)[at] == uid);
        }
    }
    assert forall|k: Seq<char>| #[trigger] m.dom().contains(k) implies entries_map(
        after,
    ).dom().contains(k) by {
        if k == uid {
            lemma_entry(after, at);
        } else {
            let oi = uids_of(before).index_of(k);
            assert(before[oi].0@ == k);
            let i = if oi < at { oi } else { oi + step };
            assert(after[i] == before[oi]);
            lemma_entry(after, i);
        }
    }
    assert(entries_map(after) =~= m);
}

/// The map after the entry at `at` is taken out is the map before it
/// without the id of that entry.
proof fn lemma_map_after_take(
    before: Seq<(String, Tx)>,
    after: Seq<(String, Tx)>,
    uid: Seq<char>,
    at: int,
)
    requires
        rising(uids_of(before)),
        rising(uids_of(after)),
        0 <= at < before.len(),
        before[at].0@ == uid,
        after == before.remove(at),
    ensures
        entries_map(after) == entries_map(before).remove(uid),
{
    let m = entries_map(before).remove(uid);
    assert forall|k: Seq<char>| #[trigger]
        entries_map(after).dom().contains(k) implies m.dom().contains(k) && m[k] == entries_map(
        after,
    )[k] by {
        let i = uids_of(after).index_of(k);
        lemma_entry(after, i);
        let oi = if i < at { i } else { i + 1 };
        assert(after[i] == before[oi]);
        lemma_entry(before, oi);
        lemma_entry(before, at);
        lemma_uid_order(k, uid, k);
        if oi < at {
            assert(uid_before(uids_of(before)[oi], uids_of(before)[at]));
        } else {
            assert(uid_before(uids_of(before)[at], uids_of(before)[oi]));
        }
    }
    assert forall|k: Seq<char>| #[trigger] m.dom().contains(k) implies entries_map(
        after,
    ).dom().contains(k) by {
        let oi = uids_of(before).index_of(k);
        assert(before[oi].0@ == k);
        let i = if oi < at { oi } else { oi - 1 };
        assert(after[i] == before[oi]);
        lemma_entry(after, i);
    }
    assert(entries_map(after) =~= m);
}

impl Default for OnlineUsers {
    fn default() -> (users: OnlineUsers)
        ensures
            users@ == Map::<Seq<char>, Tx>::empty(),
    {
        OnlineUsers::new()
    }
}

} // verus!
