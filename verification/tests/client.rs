use chat_core::client::{pem_text, plaintext, react, read_request, request, Reaction, Request};
use chat_core::command::Command;
use chat_core::error::{ClientError, ErrorType};
use chat_core::message::Message;

fn tokens(words: &[&str]) -> Vec<String> {
    words.iter().map(|w| w.to_string()).collect()
}

#[test]
fn requests_are_named_by_their_first_word() {
    assert_eq!(read_request("list"), Request::List);
    assert_eq!(read_request("  list  \n"), Request::List);
    assert_eq!(read_request("list me all"), Request::List);
    assert_eq!(read_request("exit\n"), Request::Exit);
    assert_eq!(
        read_request("send bob hello\n"),
        Request::Send { receiver: "bob".to_string(), text: "hello".to_string() }
    );
    assert_eq!(
        read_request("\tsend\u{a0}bob   hello   world"),
        Request::Send { receiver: "bob".to_string(), text: "hello".to_string() }
    );
}

#[test]
fn other_lines_ask_for_nothing() {
    assert_eq!(read_request(""), Request::Nothing);
    assert_eq!(read_request("   \n"), Request::Nothing);
    assert_eq!(read_request("List"), Request::Nothing);
    assert_eq!(read_request("quit"), Request::Nothing);
    assert_eq!(read_request("send"), Request::Nothing);
    assert_eq!(read_request("send bob"), Request::Nothing);
    assert_eq!(read_request("sendbob hello there"), Request::Nothing);
}

#[test]
fn request_reads_words() {
    assert_eq!(request(&tokens(&[])), Request::Nothing);
    assert_eq!(request(&tokens(&["list"])), Request::List);
    assert_eq!(request(&tokens(&["exit", "now"])), Request::Exit);
    assert_eq!(
        request(&tokens(&["send", "bob", "hi", "there"])),
        Request::Send { receiver: "bob".to_string(), text: "hi".to_string() }
    );
    assert_eq!(request(&tokens(&["send", "bob"])), Request::Nothing);
    assert_eq!(request(&tokens(&["", "list"])), Request::Nothing);
}

#[test]
fn a_message_is_to_be_decrypted() {
    let msg = Message::send_text("alice", &[1, 2, 3]).set_sender("bob");
    assert_eq!(react(msg), Reaction::Decrypt { from: "bob".to_string(), ciphertext: vec![1, 2, 3] });
}

#[test]
fn a_request_for_the_key_is_answered_to_its_sender() {
    let msg = Message::get_pub_key("alice").set_sender("bob");
    assert_eq!(react(msg), Reaction::OfferKey { to: "bob".to_string() });
}

#[test]
fn a_key_is_kept_under_the_name_of_its_sender() {
    let msg = Message::send_pub_key("alice", b"pem").set_sender("bob");
    assert_eq!(react(msg), Reaction::KeepKey { of: "bob".to_string(), pem: b"pem".to_vec() });
}

#[test]
fn the_list_is_shown_as_text() {
    let msg = Message::online_list("alice\nbob").set_sender("Server");
    assert_eq!(react(msg), Reaction::ShowList { text: "alice\nbob".to_string() });
    let mut msg = Message::online_list("");
    msg.content = b"al\xffice".to_vec();
    assert_eq!(react(msg), Reaction::ShowList { text: "al\u{fffd}ice".to_string() });
}

#[test]
fn other_frames_are_shown_as_they_are() {
    for command in [Command::Help, Command::Login, Command::RemoteError] {
        let msg = Message {
            sender: "Server".to_string(),
            receiver: "alice".to_string(),
            command,
            content: b"x".to_vec(),
        };
        assert_eq!(react(msg.clone()), Reaction::Show { msg });
    }
}

#[test]
fn decrypted_bytes_must_be_text() {
    assert_eq!(plaintext("grüße".as_bytes().to_vec()).unwrap(), "grüße");
    assert_eq!(plaintext(Vec::new()).unwrap(), "");
    let e = plaintext(vec![b'a', 0xff]).unwrap_err();
    assert_eq!(e.err, ErrorType::Client(ClientError::Decryption));
    assert_eq!(e.info.as_deref(), Some("ciphertext not utf8"));
}

#[test]
fn a_pem_must_be_text() {
    assert_eq!(pem_text(b"-----BEGIN PUBLIC KEY-----".to_vec()).unwrap(), "-----BEGIN PUBLIC KEY-----");
    let e = pem_text(vec![0xc3, 0x28]).unwrap_err();
    assert_eq!(e.err, ErrorType::Client(ClientError::EncryptKeyPersistence));
    assert_eq!(e.info.as_deref(), Some("pem not utf8"));
}
