use chat_core::command::Command;
use chat_core::error::{ClientError, ErrorType, ExternalError};
use chat_core::message::Message;
use chat_core::server_state::OnlineUsers;
use tokio::sync::mpsc::error::TryRecvError;
use tokio::sync::mpsc::unbounded_channel;

fn uids(users: &OnlineUsers) -> Vec<String> {
    users.snapshot_uids()
}

#[test]
fn a_new_registry_is_empty() {
    let users = OnlineUsers::new();
    assert!(uids(&users).is_empty());
    assert!(uids(&OnlineUsers::default()).is_empty());
    let list = users.to_msg();
    assert_eq!(list.command, Command::OnlineList);
    assert_eq!(list.sender, "");
    assert_eq!(list.receiver, "");
    assert!(list.content.is_empty());
}

#[test]
fn the_snapshot_is_sorted() {
    let mut users = OnlineUsers::new();
    for uid in ["dave", "bob", "alice", "carol", "al", "bobby", "Zed", "", "élan"] {
        let (tx, _rx) = unbounded_channel();
        users.add_user(uid, tx);
    }
    assert_eq!(uids(&users), vec!["", "Zed", "al", "alice", "bob", "bobby", "carol", "dave", "élan"]);
    let mut sorted = uids(&users);
    sorted.sort();
    assert_eq!(uids(&users), sorted);
}

#[test]
fn the_list_has_one_id_per_line() {
    let mut users = OnlineUsers::new();
    let (tx, _rx) = unbounded_channel();
    users.add_user("bob", tx);
    assert_eq!(users.to_msg().content, b"bob".to_vec());
    let (tx, _rx) = unbounded_channel();
    users.add_user("alice", tx);
    let list = users.to_msg();
    assert_eq!(list.content, b"alice\nbob".to_vec());
    assert_eq!(list.command, Command::OnlineList);
    assert_eq!(list.sender, "");
    assert_eq!(list.receiver, "");
    let (tx, _rx) = unbounded_channel();
    users.add_user("carol", tx);
    assert_eq!(users.to_msg().content, b"alice\nbob\ncarol".to_vec());
}

#[test]
fn remove_takes_a_user_offline() {
    let mut users = OnlineUsers::new();
    for uid in ["alice", "bob", "carol"] {
        let (tx, _rx) = unbounded_channel();
        users.add_user(uid, tx);
    }
    users.remove_user("bob");
    assert_eq!(uids(&users), vec!["alice", "carol"]);
    users.remove_user("bob");
    users.remove_user("ghost");
    assert_eq!(uids(&users), vec!["alice", "carol"]);
    users.remove_user("alice");
    users.remove_user("carol");
    assert!(uids(&users).is_empty());
}

#[test]
fn send_puts_the_frame_on_the_queue_of_the_receiver() {
    let mut users = OnlineUsers::new();
    let (tx_alice, mut rx_alice) = unbounded_channel();
    let (tx_bob, mut rx_bob) = unbounded_channel();
    users.add_user("alice", tx_alice);
    users.add_user("bob", tx_bob);
    let sent = users.send("bob", Message::send_text("bob", b"hello").set_sender("alice"));
    assert!(sent.is_ok());
    let got = rx_bob.try_recv().unwrap();
    assert_eq!(got, Message::send_text("bob", b"hello").set_sender("alice"));
    assert_eq!(rx_bob.try_recv(), Err(TryRecvError::Empty));
    assert_eq!(rx_alice.try_recv(), Err(TryRecvError::Empty));
}

#[test]
fn send_addresses_the_frame_to_the_receiver() {
    let mut users = OnlineUsers::new();
    let (tx, mut rx) = unbounded_channel();
    users.add_user("alice", tx);
    users.send("alice", Message::online_list("alice").set_sender("Server")).unwrap();
    let got = rx.try_recv().unwrap();
    assert_eq!(got.receiver, "alice");
    assert_eq!(got.sender, "Server");
    assert_eq!(got.command, Command::OnlineList);
    assert_eq!(got.content, b"alice".to_vec());
}

#[test]
fn addressed_gives_the_queue_and_the_frame() {
    let mut users = OnlineUsers::new();
    let (tx, mut rx) = unbounded_channel();
    users.add_user("bob", tx);
    let (queue, out) = users.addressed("bob", Message::send_text("", b"hi")).unwrap();
    assert_eq!(out.receiver, "bob");
    assert_eq!(out.content, b"hi".to_vec());
    queue.send(out).unwrap();
    assert_eq!(rx.try_recv().unwrap().receiver, "bob");
    let e = users.addressed("ghost", Message::send_text("spectre", b"hi")).unwrap_err();
    assert_eq!(e.err, ErrorType::Client(ClientError::ReceiverNotExist));
    assert_eq!(e.info.as_deref(), Some("spectre"));
}

#[test]
fn send_to_an_unknown_receiver_fails() {
    let mut users = OnlineUsers::new();
    let (tx, mut rx) = unbounded_channel();
    users.add_user("alice", tx);
    let e = users.send("ghost", Message::send_text("ghost", b"hi").set_sender("alice")).unwrap_err();
    assert_eq!(e.err, ErrorType::Client(ClientError::ReceiverNotExist));
    assert_eq!(e.info.as_deref(), Some("ghost"));
    assert_eq!(e.to_string(), "Client-ReceiverNotExist: ghost");
    assert_eq!(rx.try_recv(), Err(TryRecvError::Empty));
}

#[test]
fn send_on_a_closed_queue_fails() {
    let mut users = OnlineUsers::new();
    let (tx, rx) = unbounded_channel();
    users.add_user("bob", tx);
    drop(rx);
    let e = users.send("bob", Message::send_text("bob", b"hi")).unwrap_err();
    assert_eq!(e.err, ErrorType::External(ExternalError::TokioChannel));
    assert_eq!(e.info.as_deref(), Some("channel closed"));
    assert_eq!(uids(&users), vec!["bob"]);
}

#[test]
fn the_second_login_takes_the_place_of_the_first() {
    let mut users = OnlineUsers::new();
    let (q1, mut rx1) = unbounded_channel();
    let (q2, mut rx2) = unbounded_channel();
    users.add_user("alice", q1);
    users.add_user("alice", q2);
    assert_eq!(uids(&users), vec!["alice"]);
    users.send("alice", Message::send_text("alice", b"hi")).unwrap();
    assert_eq!(rx2.try_recv().unwrap().content, b"hi".to_vec());
    // The first queue has lost its only sender.
    assert_eq!(rx1.try_recv(), Err(TryRecvError::Disconnected));
}

#[test]
fn frames_reach_the_queue_in_the_order_they_were_sent() {
    let mut users = OnlineUsers::new();
    let (tx, mut rx) = unbounded_channel();
    users.add_user("bob", tx);
    for text in ["f1", "f2", "f3"] {
        users.send("bob", Message::send_text("bob", text.as_bytes()).set_sender("alice")).unwrap();
    }
    for text in ["f1", "f2", "f3"] {
        assert_eq!(rx.try_recv().unwrap().content, text.as_bytes().to_vec());
    }
    assert_eq!(rx.try_recv(), Err(TryRecvError::Empty));
}
