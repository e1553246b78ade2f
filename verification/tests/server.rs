use bytes::BytesMut;
use chat_core::command::Command;
use chat_core::config::ServerConfig;
use chat_core::error::{ClientError, ErrorType, ExternalError, GlobalError, ServerError};
use chat_core::handler::{authenticate, record};
use chat_core::message::Message;
use chat_core::msg_codec::MsgCodec;
use chat_core::process::{after_dispatch, close, dispatch, handle_incoming_msg, Dispatch, End, Next};
use chat_core::server_state::OnlineUsers;
use tokio::sync::mpsc::error::TryRecvError;
use tokio::sync::mpsc::{unbounded_channel, UnboundedReceiver};

fn online(users: &mut OnlineUsers, uid: &str) -> UnboundedReceiver<Message> {
    let (tx, rx) = unbounded_channel();
    users.add_user(uid, tx);
    rx
}

fn frames(bytes: &[u8]) -> Vec<Message> {
    let mut codec = MsgCodec::new();
    let mut buf = BytesMut::from(bytes);
    codec.decode_all(&mut buf).into_iter().map(|e| e.unwrap()).collect()
}

#[test]
fn happy_text() {
    let mut users = OnlineUsers::new();
    let mut rx_bob = online(&mut users, "bob");
    let mut inbound = frames(b"Login#0,alice,Server|$SendMsg#5,,bob|hello$").into_iter();

    let (tx_alice, mut rx_alice) = unbounded_channel();
    let uid = authenticate(&mut users, inbound.next(), tx_alice).unwrap();
    assert_eq!(uid, "alice");
    assert_eq!(users.snapshot_uids(), vec!["alice", "bob"]);

    let result = handle_incoming_msg(inbound.next().unwrap(), &uid, &users);
    assert!(result.is_ok());
    assert!(matches!(after_dispatch(result), Next::Continue));

    let forwarded = rx_bob.try_recv().unwrap();
    let mut out = BytesMut::new();
    MsgCodec::new().encode(forwarded, &mut out).unwrap();
    assert_eq!(&out[..], b"SendMsg#5,alice,bob|hello$");
    assert_eq!(rx_bob.try_recv(), Err(TryRecvError::Empty));
    assert_eq!(rx_alice.try_recv(), Err(TryRecvError::Empty));
}

#[test]
fn unknown_receiver() {
    let mut users = OnlineUsers::new();
    let mut rx_alice = online(&mut users, "alice");
    let frame = frames(b"SendMsg#2,,ghost|hi$").remove(0);
    let result = handle_incoming_msg(frame, "alice", &users);
    let next = after_dispatch(result);
    match next {
        Next::Report(e) => {
            assert_eq!(e.err, ErrorType::Client(ClientError::ReceiverNotExist));
            assert_eq!(e.info.as_deref(), Some("ghost"));
        }
        other => panic!("the connection should stay open, got {:?}", other),
    }
    assert_eq!(users.snapshot_uids(), vec!["alice"]);
    assert_eq!(rx_alice.try_recv(), Err(TryRecvError::Empty));
}

#[test]
fn online_list() {
    let mut users = OnlineUsers::new();
    let mut rx_bob = online(&mut users, "bob");
    let mut rx_alice = online(&mut users, "alice");
    let frame = frames(b"OnlineList#0,,|$").remove(0);
    handle_incoming_msg(frame, "alice", &users).unwrap();
    let reply = rx_alice.try_recv().unwrap();
    assert_eq!(reply.command, Command::OnlineList);
    assert_eq!(reply.sender, "Server");
    assert_eq!(reply.receiver, "alice");
    assert_eq!(reply.content, b"alice\nbob".to_vec());
    assert_eq!(rx_bob.try_recv(), Err(TryRecvError::Empty));
}

#[test]
fn every_id_of_the_list_is_online() {
    let mut users = OnlineUsers::new();
    let mut receivers = Vec::new();
    for uid in ["carol", "alice", "bob"] {
        receivers.push(online(&mut users, uid));
    }
    users.remove_user("bob");
    let list = String::from_utf8(users.to_msg().content).unwrap();
    let listed: Vec<&str> = list.split('\n').collect();
    assert_eq!(listed, vec!["alice", "carol"]);
    for uid in listed {
        assert!(users.send(uid, Message::send_text(uid, b"ping")).is_ok());
    }
}

#[test]
fn keys_are_forwarded_with_the_sender_stamped() {
    let mut users = OnlineUsers::new();
    let mut rx_bob = online(&mut users, "bob");
    let _rx_alice = online(&mut users, "alice");
    for bytes in [&b"GetPubKey#0,mallory,bob|$"[..], b"SendPubKey#3,mallory,bob|pem$", b"SendMsg#3,mallory,bob|\x00\x01\x02$"] {
        let frame = frames(bytes).remove(0);
        let command = frame.command;
        let content = frame.content.clone();
        handle_incoming_msg(frame, "alice", &users).unwrap();
        let got = rx_bob.try_recv().unwrap();
        assert_eq!(got.sender, "alice");
        assert_eq!(got.receiver, "bob");
        assert_eq!(got.command, command);
        assert_eq!(got.content, content);
    }
}

#[test]
fn a_call_for_help_is_answered_to_the_caller() {
    let mut users = OnlineUsers::new();
    let mut rx_alice = online(&mut users, "alice");
    let frame = frames(b"FooBar#0,,|$").remove(0);
    handle_incoming_msg(frame, "alice", &users).unwrap();
    let reply = rx_alice.try_recv().unwrap();
    assert_eq!(reply.sender, "Server");
    assert_eq!(reply.receiver, "alice");
    assert_eq!(reply.command, Command::SendMsg);
    assert!(reply.content.is_empty());
}

#[test]
fn a_second_login_ends_the_connection() {
    let mut users = OnlineUsers::new();
    let mut rx_alice = online(&mut users, "alice");
    let result = handle_incoming_msg(Message::login("alice"), "alice", &users);
    match after_dispatch(result) {
        Next::Terminate(e) => {
            assert_eq!(e.err, ErrorType::Server(ServerError::UnexpectedFrame));
            assert_eq!(e.info.as_deref(), Some("alice duplicated authentication request"));
        }
        other => panic!("the connection should end, got {:?}", other),
    }
    assert_eq!(rx_alice.try_recv(), Err(TryRecvError::Empty));
}

#[test]
fn a_remote_error_ends_the_connection() {
    let mut users = OnlineUsers::new();
    let _rx = online(&mut users, "alice");
    let frame = frames(b"RemoteError#4,,bob|oops$").remove(0);
    match after_dispatch(handle_incoming_msg(frame, "alice", &users)) {
        Next::Terminate(e) => {
            assert_eq!(e.err, ErrorType::Server(ServerError::Unknown));
            assert_eq!(e.info, None);
        }
        other => panic!("the connection should end, got {:?}", other),
    }
}

#[test]
fn a_closed_queue_is_reported_and_the_connection_stays() {
    let mut users = OnlineUsers::new();
    let rx_bob = online(&mut users, "bob");
    drop(rx_bob);
    let frame = frames(b"SendMsg#2,,bob|hi$").remove(0);
    match after_dispatch(handle_incoming_msg(frame, "alice", &users)) {
        Next::Report(e) => {
            assert_eq!(e.err, ErrorType::External(ExternalError::TokioChannel));
            assert_eq!(e.info.as_deref(), Some("channel closed"));
        }
        other => panic!("the connection should stay open, got {:?}", other),
    }
}

#[test]
fn dispatch_says_what_will_be_sent() {
    let mut users = OnlineUsers::new();
    let _rx = online(&mut users, "alice");
    match dispatch(Message::send_text("ghost", b"hi"), "alice", &users) {
        Dispatch::Send { to, msg } => {
            assert_eq!(to, "ghost");
            assert_eq!(msg, Message::send_text("ghost", b"hi").set_sender("alice"));
        }
        Dispatch::Refuse(e) => panic!("refused: {:?}", e),
    }
    match dispatch(Message::online_list(""), "alice", &users) {
        Dispatch::Send { to, msg } => {
            assert_eq!(to, "alice");
            assert_eq!(msg, Message::online_list("alice").set_sender("Server"));
        }
        Dispatch::Refuse(e) => panic!("refused: {:?}", e),
    }
    match dispatch(Message::login("alice"), "alice", &users) {
        Dispatch::Refuse(e) => assert_eq!(e.to_string(), "Server-UnexpectedFrame: alice duplicated authentication request"),
        Dispatch::Send { .. } => panic!("a second login was not refused"),
    }
}

#[test]
fn after_dispatch_goes_by_the_kind_of_error() {
    assert!(matches!(after_dispatch(Ok(())), Next::Continue));
    assert!(matches!(after_dispatch(Err(ClientError::ReceiverNotExist.info("x"))), Next::Report(_)));
    assert!(matches!(after_dispatch(Err(ExternalError::TokioChannel.into())), Next::Report(_)));
    assert!(matches!(after_dispatch(Err(ClientError::Unknown.into())), Next::Terminate(_)));
    assert!(matches!(after_dispatch(Err(ServerError::UnexpectedFrame.into())), Next::Terminate(_)));
    assert!(matches!(after_dispatch(Err(ServerError::UserDisconnect.info("x"))), Next::Terminate(_)));
    assert!(matches!(after_dispatch(Err(ExternalError::IO.info("x"))), Next::Terminate(_)));
}

#[test]
fn authentication_needs_a_login() {
    let mut users = OnlineUsers::new();
    let (tx, _rx) = unbounded_channel();
    let e = authenticate(&mut users, Some(Message::send_text("bob", b"hi").set_sender("alice")), tx).unwrap_err();
    assert_eq!(e.err, ErrorType::Server(ServerError::UnexpectedFrame));
    assert_eq!(e.info, None);
    assert!(users.snapshot_uids().is_empty());

    let (tx, _rx) = unbounded_channel();
    let e = authenticate(&mut users, None, tx).unwrap_err();
    assert_eq!(e.err, ErrorType::External(ExternalError::DeserializeFrame));
    assert_eq!(e.info, None);
    assert!(users.snapshot_uids().is_empty());
}

#[test]
fn authentication_puts_the_sender_online() {
    let mut users = OnlineUsers::new();
    let (tx, mut rx) = unbounded_channel();
    let uid = authenticate(&mut users, Some(Message::login("alice")), tx).unwrap();
    assert_eq!(uid, "alice");
    assert_eq!(users.snapshot_uids(), vec!["alice"]);
    users.send("alice", Command::help()).unwrap();
    assert_eq!(rx.try_recv().unwrap().receiver, "alice");
}

#[test]
fn a_user_whose_stream_ended_is_offline() {
    let mut users = OnlineUsers::new();
    let _rx_alice = online(&mut users, "alice");
    let _rx_bob = online(&mut users, "bob");
    let e = close(&mut users, "alice", End::StreamEnded);
    assert_eq!(e.err, ErrorType::Server(ServerError::UserDisconnect));
    assert_eq!(e.info.as_deref(), Some("alice"));
    assert_eq!(users.snapshot_uids(), vec!["bob"]);
    let e = users.send("alice", Message::send_text("alice", b"hi")).unwrap_err();
    assert_eq!(e.err, ErrorType::Client(ClientError::ReceiverNotExist));
}

#[test]
fn a_fault_takes_the_user_offline_and_is_the_error() {
    let mut users = OnlineUsers::new();
    let _rx_alice = online(&mut users, "alice");
    let fault = ServerError::UnexpectedFrame.info("alice duplicated authentication request");
    let e = close(&mut users, "alice", End::Faulted(fault));
    assert_eq!(e.to_string(), "Server-UnexpectedFrame: alice duplicated authentication request");
    assert!(users.snapshot_uids().is_empty());
}

#[test]
fn a_failed_write_takes_the_user_offline() {
    let mut users = OnlineUsers::new();
    let _rx_alice = online(&mut users, "alice");
    let e = close(&mut users, "alice", End::WriteFailed("broken pipe".to_string()));
    assert_eq!(e.err, ErrorType::External(ExternalError::TokioChannel));
    assert_eq!(e.info.as_deref(), Some("broken pipe"));
    assert!(users.snapshot_uids().is_empty());
}

#[test]
fn a_closed_queue_leaves_the_later_login_online() {
    let mut users = OnlineUsers::new();
    let mut first = online(&mut users, "alice");
    let mut second = online(&mut users, "alice");
    // The first connection finds its queue closed and ends.
    assert_eq!(first.try_recv(), Err(TryRecvError::Disconnected));
    let e = close(&mut users, "alice", End::QueueClosed);
    assert_eq!(e.err, ErrorType::External(ExternalError::TokioChannel));
    assert_eq!(e.info.as_deref(), Some("alice's transmitter is dropped"));
    assert_eq!(users.snapshot_uids(), vec!["alice"]);
    users.send("alice", Message::send_text("alice", b"hi")).unwrap();
    assert_eq!(second.try_recv().unwrap().content, b"hi".to_vec());
}

#[test]
fn the_record_names_server_and_external_errors() {
    assert_eq!(record(&Ok(())), None);
    assert_eq!(record(&Err(ClientError::ReceiverNotExist.info("ghost"))), None);
    assert_eq!(
        record(&Err(ServerError::UserDisconnect.info("alice"))),
        Some("recover() dropped connection due to UserDisconnect".to_string())
    );
    assert_eq!(
        record(&Err(GlobalError::from(ExternalError::DeserializeFrame))),
        Some("recover() dropped connection due to DeserializeFrame".to_string())
    );
}

#[test]
fn the_server_listens_on_every_interface_by_default() {
    let config = ServerConfig::default();
    assert_eq!(config.ip, "0.0.0.0");
    assert_eq!(config.port, "2333");
    assert_eq!(config.addr(), "0.0.0.0:2333");
    let config = ServerConfig { ip: "127.0.0.1".to_string(), port: "8080".to_string() };
    assert_eq!(config.addr(), "127.0.0.1:8080");
}
