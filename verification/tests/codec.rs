use bytes::BytesMut;
use chat_core::command::Command;
use chat_core::message::Message;
use chat_core::msg_codec::{MsgCodec, MsgCodecError, MsgCodecStatus};

fn buffer(bytes: &[u8]) -> BytesMut {
    BytesMut::from(bytes)
}

fn frame(command: Command, sender: &str, receiver: &str, content: &[u8]) -> Message {
    Message {
        sender: sender.to_string(),
        receiver: receiver.to_string(),
        command,
        content: content.to_vec(),
    }
}

/// Feeds the chunks one after another into one decoder and one buffer.
fn feed_chunks(chunks: &[&[u8]]) -> (Vec<Result<Message, MsgCodecError>>, MsgCodecStatus, Vec<u8>) {
    let mut codec = MsgCodec::new();
    let mut buf = BytesMut::new();
    let mut events = Vec::new();
    for chunk in chunks {
        buf.extend_from_slice(chunk);
        events.extend(codec.decode_all(&mut buf));
    }
    (events, codec.status(), buf.to_vec())
}

/// Cuts `input` at every position that `cuts` names.
fn cut<'a>(input: &'a [u8], cuts: &[usize]) -> Vec<&'a [u8]> {
    let mut chunks = Vec::new();
    let mut from = 0;
    for &at in cuts {
        chunks.push(&input[from..at]);
        from = at;
    }
    chunks.push(&input[from..]);
    chunks
}

#[test]
fn decodes_a_whole_frame() {
    let mut codec = MsgCodec::new();
    let mut buf = buffer(b"SendMsg#5,,bob|hello$");
    let got = codec.decode(&mut buf).unwrap().unwrap();
    assert_eq!(got, frame(Command::SendMsg, "", "bob", b"hello"));
    assert!(buf.is_empty());
    assert_eq!(codec.status(), MsgCodecStatus::Command);
    assert_eq!(codec.decode(&mut buf), Ok(None));
}

#[test]
fn a_fresh_decoder_waits_on_an_empty_buffer() {
    let mut codec = MsgCodec::new();
    let mut buf = BytesMut::new();
    assert_eq!(codec.status(), MsgCodecStatus::Command);
    assert_eq!(codec.max_header_bytes(), 256);
    assert_eq!(codec.decode(&mut buf), Ok(None));
    assert_eq!(codec.status(), MsgCodecStatus::Command);
}

#[test]
fn unknown_command_reads_as_help() {
    let mut codec = MsgCodec::new();
    let mut buf = buffer(b"FooBar#0,,|$");
    let got = codec.decode(&mut buf).unwrap().unwrap();
    assert_eq!(got, frame(Command::Help, "", "", b""));
}

#[test]
fn tags_are_case_sensitive() {
    let mut codec = MsgCodec::new();
    let mut buf = buffer(b"login#0,alice,Server|$LOGIN#0,alice,Server|$Login#0,alice,Server|$");
    let events = codec.decode_all(&mut buf);
    assert_eq!(
        events,
        vec![
            Ok(frame(Command::Help, "alice", "Server", b"")),
            Ok(frame(Command::Help, "alice", "Server", b"")),
            Ok(frame(Command::Login, "alice", "Server", b"")),
        ]
    );
}

#[test]
fn every_tag_is_read() {
    let tags: [(&[u8], Command); 7] = [
        (b"Help#0,,|$", Command::Help),
        (b"Login#0,,|$", Command::Login),
        (b"OnlineList#0,,|$", Command::OnlineList),
        (b"SendMsg#0,,|$", Command::SendMsg),
        (b"GetPubKey#0,,|$", Command::GetPubKey),
        (b"SendPubKey#0,,|$", Command::SendPubKey),
        (b"RemoteError#0,,|$", Command::RemoteError),
    ];
    for (bytes, command) in tags {
        let mut codec = MsgCodec::new();
        let mut buf = buffer(bytes);
        assert_eq!(codec.decode(&mut buf), Ok(Some(frame(command, "", "", b""))));
    }
}

#[test]
fn whitespace_before_the_tag_is_trimmed() {
    let mut codec = MsgCodec::new();
    let mut buf = buffer(b"\r\n \t\x0c \n Login#0,alice,Server|$");
    let got = codec.decode(&mut buf).unwrap().unwrap();
    assert_eq!(got, frame(Command::Login, "alice", "Server", b""));
}

#[test]
fn whitespace_is_trimmed_only_at_the_front_of_the_tag() {
    let mut codec = MsgCodec::new();
    let mut buf = buffer(b"Login #0,alice,Server|$");
    let got = codec.decode(&mut buf).unwrap().unwrap();
    assert_eq!(got.command, Command::Help);

    let mut buf = buffer(b"Login#0, alice ,Server |$");
    let got = codec.decode(&mut buf).unwrap().unwrap();
    assert_eq!(got, frame(Command::Login, " alice ", "Server ", b""));
}

#[test]
fn only_ascii_whitespace_is_trimmed() {
    // A vertical tab and a no-break space are no ASCII white space.
    for input in [&b"\x0bLogin#0,alice,Server|$"[..], "\u{a0}Login#0,alice,Server|$".as_bytes(), b"\x00Login#0,alice,Server|$"] {
        let mut codec = MsgCodec::new();
        let mut buf = buffer(input);
        let got = codec.decode(&mut buf).unwrap().unwrap();
        assert_eq!(got.command, Command::Help);
    }
}

#[test]
fn zero_length_content() {
    let mut codec = MsgCodec::new();
    let mut buf = buffer(b"GetPubKey#0,,bob|$");
    let got = codec.decode(&mut buf).unwrap().unwrap();
    assert_eq!(got, frame(Command::GetPubKey, "", "bob", b""));
    assert!(buf.is_empty());
}

#[test]
fn zero_length_content_without_trailer_is_a_fault() {
    let mut codec = MsgCodec::new();
    let mut buf = buffer(b"GetPubKey#0,,bob|x$");
    assert_eq!(codec.decode(&mut buf), Err(MsgCodecError::InvalidContent));
    assert_eq!(codec.status(), MsgCodecStatus::Discarding);
    assert_eq!(&buf[..], b"x$");
}

#[test]
fn content_waits_for_its_trailer() {
    let mut codec = MsgCodec::new();
    let mut buf = buffer(b"SendMsg#5,,bob|hello");
    assert_eq!(codec.decode(&mut buf), Ok(None));
    assert_eq!(codec.status(), MsgCodecStatus::Content);
    assert_eq!(&buf[..], b"hello");
    buf.extend_from_slice(b"$");
    assert_eq!(codec.decode(&mut buf), Ok(Some(frame(Command::SendMsg, "", "bob", b"hello"))));
    assert_eq!(codec.status(), MsgCodecStatus::Command);
}

#[test]
fn a_dollar_inside_the_content_is_data() {
    let mut codec = MsgCodec::new();
    let mut buf = buffer(b"SendMsg#11,,bob|hello$world$");
    let got = codec.decode(&mut buf).unwrap().unwrap();
    assert_eq!(got, frame(Command::SendMsg, "", "bob", b"hello$world"));
    assert!(buf.is_empty());
}

#[test]
fn delimiters_inside_the_content_are_data() {
    let mut codec = MsgCodec::new();
    let mut buf = buffer(b"SendMsg#8,,bob|#|,$$|,#$");
    let got = codec.decode(&mut buf).unwrap().unwrap();
    assert_eq!(got.content, b"#|,$$|,#".to_vec());
}

#[test]
fn chunked_delivery_in_two_chunks_at_every_position() {
    let input = b"SendMsg#11,,bob|hello$world$";
    for at in 0..=input.len() {
        let (events, status, rest) = feed_chunks(&cut(input, &[at]));
        assert_eq!(events, vec![Ok(frame(Command::SendMsg, "", "bob", b"hello$world"))], "cut at {}", at);
        assert_eq!(status, MsgCodecStatus::Command);
        assert!(rest.is_empty());
    }
}

#[test]
fn chunked_delivery_in_three_chunks_at_every_position() {
    let input = b"SendMsg#11,,bob|hello$world$";
    for a in 0..=input.len() {
        for b in a..=input.len() {
            let (events, _, rest) = feed_chunks(&cut(input, &[a, b]));
            assert_eq!(events, vec![Ok(frame(Command::SendMsg, "", "bob", b"hello$world"))]);
            assert!(rest.is_empty());
        }
    }
}

#[test]
fn chunked_delivery_byte_by_byte() {
    let input = b"SendMsg#11,,bob|hello$world$";
    let cuts: Vec<usize> = (1..input.len()).collect();
    let (events, status, rest) = feed_chunks(&cut(input, &cuts));
    assert_eq!(events, vec![Ok(frame(Command::SendMsg, "", "bob", b"hello$world"))]);
    assert_eq!(status, MsgCodecStatus::Command);
    assert!(rest.is_empty());
}

#[test]
fn chunk_ends_exactly_at_each_delimiter() {
    let (events, _, _) = feed_chunks(&[b"SendMsg#", b"5,alice,bob|", b"hello", b"$"]);
    assert_eq!(events, vec![Ok(frame(Command::SendMsg, "alice", "bob", b"hello"))]);
    let (events, _, _) = feed_chunks(&[b"SendMsg", b"#5,alice,bob", b"|hello$"]);
    assert_eq!(events, vec![Ok(frame(Command::SendMsg, "alice", "bob", b"hello"))]);
}

#[test]
fn chunk_invariance_on_a_stream_with_faults() {
    let mut input = Vec::new();
    input.extend_from_slice(b"Login#0,alice,Server|$");
    input.extend_from_slice(b"SendMsg#3,,bob|abcd$");
    input.extend_from_slice(b"OnlineList#0,,|$");
    input.extend_from_slice(b"SendMsg#x,,bob|hello$");
    input.extend_from_slice(b"\nSendMsg#2,,bob|hi$Get");
    let (whole, whole_status, whole_rest) = feed_chunks(&[&input]);
    assert_eq!(
        whole,
        vec![
            Ok(frame(Command::Login, "alice", "Server", b"")),
            Err(MsgCodecError::InvalidContent),
            Ok(frame(Command::OnlineList, "", "", b"")),
            Err(MsgCodecError::InvalidArguments),
            Ok(frame(Command::SendMsg, "", "bob", b"hi")),
        ]
    );
    assert_eq!(whole_status, MsgCodecStatus::Command);
    assert_eq!(whole_rest, b"Get".to_vec());
    for a in 0..=input.len() {
        let (events, status, rest) = feed_chunks(&cut(&input, &[a]));
        assert_eq!(events, whole, "cut at {}", a);
        assert_eq!(status, whole_status);
        assert_eq!(rest, whole_rest);
    }
    for size in 1..7 {
        let cuts: Vec<usize> = (1..input.len()).filter(|i| i % size == 0).collect();
        let (events, status, rest) = feed_chunks(&cut(&input, &cuts));
        assert_eq!(events, whole, "chunks of {}", size);
        assert_eq!(status, whole_status);
        assert_eq!(rest, whole_rest);
    }
}

#[test]
fn malformed_header_recovery() {
    let mut codec = MsgCodec::new();
    let mut buf = buffer(&[b'a'; 300]);
    assert_eq!(codec.decode(&mut buf), Err(MsgCodecError::InvalidCommand));
    assert_eq!(codec.status(), MsgCodecStatus::Discarding);
    assert_eq!(buf.len(), 300);
    assert_eq!(codec.decode(&mut buf), Ok(None));
    assert_eq!(codec.status(), MsgCodecStatus::Discarding);
    assert!(buf.is_empty());
    buf.extend_from_slice(b"more junk, still no trailer");
    assert_eq!(codec.decode(&mut buf), Ok(None));
    assert!(buf.is_empty());
    buf.extend_from_slice(b"tail$Login#0,alice,Server|$");
    assert_eq!(codec.decode(&mut buf), Ok(Some(frame(Command::Login, "alice", "Server", b""))));
    assert_eq!(codec.status(), MsgCodecStatus::Command);
    assert!(buf.is_empty());
}

#[test]
fn a_command_section_may_fill_the_bound_but_not_pass_it() {
    // `#` at offset 255 is the last place within a bound of 256.
    let mut input = vec![b'a'; 255];
    input.extend_from_slice(b"#0,,|$");
    let mut codec = MsgCodec::new();
    let mut buf = buffer(&input);
    assert_eq!(codec.decode(&mut buf), Ok(Some(frame(Command::Help, "", "", b""))));

    let mut input = vec![b'a'; 256];
    input.extend_from_slice(b"#0,,|$");
    let mut codec = MsgCodec::new();
    let mut buf = buffer(&input);
    assert_eq!(codec.decode(&mut buf), Err(MsgCodecError::InvalidCommand));
    assert_eq!(codec.status(), MsgCodecStatus::Discarding);
}

#[test]
fn a_buffer_that_fills_the_bound_without_delimiter_waits() {
    let mut codec = MsgCodec::new();
    let mut buf = buffer(&[b'a'; 256]);
    assert_eq!(codec.decode(&mut buf), Ok(None));
    assert_eq!(codec.status(), MsgCodecStatus::Command);
    buf.extend_from_slice(b"#");
    assert_eq!(codec.decode(&mut buf), Err(MsgCodecError::InvalidCommand));
}

#[test]
fn an_argument_section_past_the_bound_is_a_fault() {
    let mut input = b"SendMsg#5,".to_vec();
    input.extend_from_slice(&[b'a'; 300]);
    input.extend_from_slice(b",bob|hello$Help#0,,|$");
    let mut codec = MsgCodec::new();
    let mut buf = buffer(&input);
    assert_eq!(codec.decode(&mut buf), Err(MsgCodecError::InvalidArguments));
    assert_eq!(codec.status(), MsgCodecStatus::Discarding);
    assert_eq!(codec.decode(&mut buf), Ok(Some(frame(Command::Help, "", "", b""))));
}

#[test]
fn a_larger_bound_admits_a_longer_header() {
    let mut input = b"SendMsg#5,".to_vec();
    input.extend_from_slice(&[b'a'; 300]);
    input.extend_from_slice(b",bob|hello$");
    let mut codec = MsgCodec::with_max_header_bytes(512);
    assert_eq!(codec.max_header_bytes(), 512);
    let mut buf = buffer(&input);
    let got = codec.decode(&mut buf).unwrap().unwrap();
    assert_eq!(got.sender.len(), 300);
    assert_eq!(got.receiver, "bob");
    assert_eq!(got.content, b"hello".to_vec());
}

#[test]
fn wrong_number_of_arguments_is_a_fault() {
    for input in [&b"SendMsg#5,bob|hello$"[..], b"SendMsg#5,a,b,c|hello$", b"SendMsg#|hello$", b"SendMsg#5|hello$"] {
        let mut codec = MsgCodec::new();
        let mut buf = buffer(input);
        assert_eq!(codec.decode(&mut buf), Err(MsgCodecError::InvalidArguments));
        assert_eq!(codec.status(), MsgCodecStatus::Discarding);
        assert_eq!(&buf[..], b"hello$");
    }
}

#[test]
fn a_length_that_is_no_number_is_a_fault() {
    for input in [
        &b"SendMsg#,a,b|hello$"[..],
        b"SendMsg#five,a,b|hello$",
        b"SendMsg#-5,a,b|hello$",
        b"SendMsg# 5,a,b|hello$",
        b"SendMsg#5 ,a,b|hello$",
        b"SendMsg#+,a,b|hello$",
        b"SendMsg#++5,a,b|hello$",
        b"SendMsg#0x5,a,b|hello$",
        b"SendMsg#18446744073709551616,a,b|hello$",
        b"SendMsg#99999999999999999999999,a,b|hello$",
    ] {
        let mut codec = MsgCodec::new();
        let mut buf = buffer(input);
        assert_eq!(codec.decode(&mut buf), Err(MsgCodecError::InvalidArguments));
        assert_eq!(&buf[..], b"hello$");
    }
}

#[test]
fn a_length_may_have_a_sign_and_leading_zeros() {
    for input in [&b"SendMsg#+5,a,b|hello$"[..], b"SendMsg#005,a,b|hello$", b"SendMsg#+0005,a,b|hello$"] {
        let mut codec = MsgCodec::new();
        let mut buf = buffer(input);
        assert_eq!(codec.decode(&mut buf), Ok(Some(frame(Command::SendMsg, "a", "b", b"hello"))));
    }
}

#[test]
fn the_largest_length_waits_for_its_content() {
    let mut codec = MsgCodec::new();
    let mut buf = buffer(b"SendMsg#18446744073709551615,a,b|hello$");
    assert_eq!(codec.decode(&mut buf), Ok(None));
    assert_eq!(codec.status(), MsgCodecStatus::Content);
}

#[test]
fn bad_trailer_is_a_fault_and_the_content_is_dropped() {
    let mut codec = MsgCodec::new();
    let mut buf = buffer(b"SendMsg#2,,bob|hello$Login#0,alice,Server|$");
    assert_eq!(codec.decode(&mut buf), Err(MsgCodecError::InvalidContent));
    assert_eq!(codec.status(), MsgCodecStatus::Discarding);
    assert_eq!(&buf[..], b"llo$Login#0,alice,Server|$");
    assert_eq!(codec.decode(&mut buf), Ok(Some(frame(Command::Login, "alice", "Server", b""))));
}

#[test]
fn ill_formed_utf8_in_the_arguments_is_replaced() {
    let mut codec = MsgCodec::new();
    let mut buf = buffer(b"SendMsg#2,a\xffb,\xe2\x82|hi$");
    let got = codec.decode(&mut buf).unwrap().unwrap();
    assert_eq!(got.sender, "a\u{fffd}b");
    assert_eq!(got.receiver, "\u{fffd}");
    assert_eq!(got.content, b"hi".to_vec());
}

#[test]
fn names_outside_ascii_come_through() {
    let mut codec = MsgCodec::new();
    let msg = frame(Command::SendMsg, "zoë", "李雷", "grüße".as_bytes());
    let mut buf = BytesMut::new();
    codec.encode(msg.clone(), &mut buf).unwrap();
    assert_eq!(&buf[..], "SendMsg#7,zoë,李雷|grüße$".as_bytes());
    assert_eq!(codec.decode(&mut buf), Ok(Some(msg)));
}

#[test]
fn encode_then_decode() {
    let mut codec = MsgCodec::new();
    let mut buf = BytesMut::new();
    let msg = Message::send_text("bob", b"hi $ there").set_sender("alice");
    codec.encode(msg.clone(), &mut buf).unwrap();
    assert_eq!(&buf[..], b"SendMsg#10,alice,bob|hi $ there$");
    assert_eq!(codec.decode(&mut buf), Ok(Some(msg)));
    assert!(buf.is_empty());
}

#[test]
fn encode_appends_to_what_the_buffer_holds() {
    let mut codec = MsgCodec::new();
    let mut buf = buffer(b"Help#0,,|$");
    codec.encode(Message::login("alice"), &mut buf).unwrap();
    codec.encode(Message::get_pub_key("bob"), &mut buf).unwrap();
    assert_eq!(&buf[..], b"Help#0,,|$Login#0,alice,Server|$GetPubKey#0,,bob|$");
    assert_eq!(codec.status(), MsgCodecStatus::Command);
}

#[test]
fn round_trip_of_every_command() {
    for command in [
        Command::Help,
        Command::Login,
        Command::OnlineList,
        Command::SendMsg,
        Command::GetPubKey,
        Command::SendPubKey,
        Command::RemoteError,
    ] {
        let content: Vec<u8> = (0u8..=255).collect();
        let msg = frame(command, "alice", "bob", &content);
        let mut codec = MsgCodec::new();
        let mut buf = BytesMut::new();
        codec.encode(msg.clone(), &mut buf).unwrap();
        assert_eq!(codec.decode(&mut buf), Ok(Some(msg)));
        assert!(buf.is_empty());
    }
}

#[test]
fn frames_come_out_in_the_order_they_went_in() {
    let frames = vec![
        frame(Command::SendMsg, "alice", "bob", b"one"),
        frame(Command::SendMsg, "alice", "bob", b"two$"),
        frame(Command::GetPubKey, "alice", "bob", b""),
        frame(Command::SendMsg, "alice", "bob", b"three"),
    ];
    let mut codec = MsgCodec::new();
    let mut buf = BytesMut::new();
    for f in &frames {
        codec.encode(f.clone(), &mut buf).unwrap();
    }
    let events = codec.decode_all(&mut buf);
    let expected: Vec<Result<Message, MsgCodecError>> = frames.into_iter().map(Ok).collect();
    assert_eq!(events, expected);
    assert!(buf.is_empty());
}

#[test]
fn status_follows_the_sections() {
    let mut codec = MsgCodec::new();
    let mut buf = buffer(b"Send");
    assert_eq!(codec.decode(&mut buf), Ok(None));
    assert_eq!(codec.status(), MsgCodecStatus::Command);
    buf.extend_from_slice(b"Msg#5,al");
    assert_eq!(codec.decode(&mut buf), Ok(None));
    assert_eq!(codec.status(), MsgCodecStatus::Args);
    assert_eq!(&buf[..], b"5,al");
    buf.extend_from_slice(b"ice,bob|he");
    assert_eq!(codec.decode(&mut buf), Ok(None));
    assert_eq!(codec.status(), MsgCodecStatus::Content);
    buf.extend_from_slice(b"llo$");
    assert_eq!(codec.decode(&mut buf), Ok(Some(frame(Command::SendMsg, "alice", "bob", b"hello"))));
    assert_eq!(codec.status(), MsgCodecStatus::Command);
}

#[test]
fn init_goes_back_to_the_start_of_a_frame_and_keeps_the_bound() {
    let mut codec = MsgCodec::with_max_header_bytes(300);
    let mut buf = buffer(b"SendMsg#5,alice,bob|he");
    assert_eq!(codec.decode(&mut buf), Ok(None));
    assert_eq!(codec.status(), MsgCodecStatus::Content);
    codec.init();
    assert_eq!(codec.status(), MsgCodecStatus::Command);
    assert_eq!(codec.max_header_bytes(), 300);
    let mut buf = buffer(b"Login#0,alice,Server|$");
    assert_eq!(codec.decode(&mut buf), Ok(Some(frame(Command::Login, "alice", "Server", b""))));
}

#[test]
fn reset_leaves_discarding_and_restores_the_default_bound() {
    let mut codec = MsgCodec::with_max_header_bytes(8);
    let mut buf = buffer(b"OnlineList#0,,|$");
    assert_eq!(codec.decode(&mut buf), Err(MsgCodecError::InvalidCommand));
    assert_eq!(codec.status(), MsgCodecStatus::Discarding);
    codec.reset();
    assert_eq!(codec.status(), MsgCodecStatus::Command);
    assert_eq!(codec.max_header_bytes(), 256);
    assert_eq!(codec.decode(&mut buf), Ok(Some(frame(Command::OnlineList, "", "", b""))));
}

#[test]
fn a_clone_decodes_as_the_decoder_it_was_made_of() {
    let mut codec = MsgCodec::new();
    let mut buf = buffer(b"SendMsg#5,alice,bob|he");
    assert_eq!(codec.decode(&mut buf), Ok(None));
    let mut twin = codec.clone();
    let mut twin_buf = buf.clone();
    buf.extend_from_slice(b"llo$");
    twin_buf.extend_from_slice(b"llo$");
    assert_eq!(codec.decode(&mut buf), twin.decode(&mut twin_buf));
}

#[test]
fn an_adapter_may_answer_faults_with_the_help_frame() {
    let mut codec = MsgCodec::new();
    let mut buf = buffer(b"SendMsg#2,,bob|hello$Login#0,alice,Server|$Get");
    assert_eq!(codec.decode_or_help(&mut buf), Some(Command::help()));
    assert_eq!(codec.status(), MsgCodecStatus::Discarding);
    assert_eq!(codec.decode_or_help(&mut buf), Some(frame(Command::Login, "alice", "Server", b"")));
    assert_eq!(codec.decode_or_help(&mut buf), None);
    assert_eq!(&buf[..], b"Get");
}

#[test]
fn fault_names() {
    assert_eq!(MsgCodecError::InvalidCommand.to_string(), "InvalidCommand");
    assert_eq!(MsgCodecError::InvalidArguments.to_string(), "InvalidArguments");
    assert_eq!(MsgCodecError::InvalidContent.to_string(), "InvalidContent");
}
