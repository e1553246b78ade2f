//! Frames and their form on the wire.

use bytes::BytesMut;
use vstd::prelude::*;
use vstd::slice::slice_to_vec;
use vstd::string::*;
use vstd::utf8::*;
use crate::buffer::{buf_new, buf_put_slice, buf_reserve, buffered};
use crate::command::Command;
use crate::text::{decimal, push_decimal};

verus! {

/// The byte that ends the command section.
pub const COMMAND_END: u8 = 35;

/// The byte that ends the argument section.
pub const ARGS_END: u8 = 124;

/// The byte that separates the arguments.
pub const ARGS_SEPARATOR: u8 = 44;

/// The byte that ends a frame.
pub const FRAME_END: u8 = 36;

/// One frame: who sent it, whom it is for, what it asks, and its payload.
/// The payload is opaque to the codec.
#[derive(Debug, PartialEq, Eq)]
pub struct Message {
    pub sender: String,
    pub receiver: String,
    pub command: Command,
    pub content: Vec<u8>,
}

/// What a `Message` holds.
pub struct Frame {
    pub sender: Seq<char>,
    pub receiver: Seq<char>,
    pub command: Command,
    pub content: Seq<u8>,
}

impl View for Message {
    type V = Frame;

    open spec fn view(&self) -> Frame {
        Frame {
            sender: self.sender@,
            receiver: self.receiver@,
            command: self.command,
            content: self.content@,
        }
    }
}

impl Clone for Message {
    fn clone(&self) -> (m: Message)
        ensures
            m@ == self@,
    {
        Message {
            sender: self.sender.clone(),
            receiver: self.receiver.clone(),
            command: self.command,
            content: self.content.clone(),
        }
    }
}

/// The name under which the server sends and receives frames of its own.
pub open spec fn server_name() -> Seq<char> {
    "Server"@
}

/// The text of the argument section: content length, sender and receiver,
/// separated by commas.
pub open spec fn args_text(f: Frame) -> Seq<char> {
    decimal(f.content.len()) + seq![','] + f.sender + seq![','] + f.receiver
}

/// A frame on the wire: tag, `#`, arguments, `|`, content, `$`.
pub open spec fn wire(f: Frame) -> Seq<u8> {
    f.command.tag_bytes() + seq![COMMAND_END] + encode_utf8(args_text(f)) + seq![ARGS_END]
        + f.content + seq![FRAME_END]
}

/// Whether `c` is one of the four characters that structure a frame.
pub open spec fn is_delimiter(c: char) -> bool {
    c == '#' || c == '|' || c == ',' || c == '$'
}

/// Whether `s` holds none of the four delimiters.
pub open spec fn no_delimiter(s: Seq<char>) -> bool {
    forall|i: int| 0 <= i < s.len() ==> !is_delimiter(#[trigger] s[i])
}

/// Whether a frame can go over a connection whose decoder bounds the header
/// sections by `max_header_bytes`: sender and receiver hold no delimiter, the
/// tag and the argument section each end within the bound, and the content
/// length fits in 64 bits.
pub open spec fn lawful(f: Frame, max_header_bytes: nat) -> bool {
    &&& no_delimiter(f.sender)
    &&& no_delimiter(f.receiver)
    &&& f.command.tag_bytes().len() < max_header_bytes
    &&& encode_utf8(args_text(f)).len() < max_header_bytes
    &&& f.content.len() <= u64::MAX
}

impl Message {
    fn args_string(&self) -> (s: String)
        ensures
            s@ == args_text(self@),
    {
        proof {
            reveal_strlit(",");
        }
        let mut s = String::new();
        push_decimal(&mut s, self.content.len());
        s.append(",");
        s.append(self.sender.as_str());
        s.append(",");
        s.append(self.receiver.as_str());
        assert(s@ =~= args_text(self@));
        s
    }

    /// The frame as it goes on the wire.
    pub fn to_bytes(&self) -> (bytes: BytesMut)
        ensures
            buffered(&bytes) == wire(self@),
    {
        let args = self.args_string();
        let tag = self.command.as_ref().as_bytes();
        let args_bytes = args.as_str().as_bytes();
        let mut frame: Vec<u8> = Vec::new();
        frame.extend_from_slice(tag);
        frame.push(COMMAND_END);
        frame.extend_from_slice(args_bytes);
        frame.push(ARGS_END);
        frame.extend_from_slice(self.content.as_slice());
        frame.push(FRAME_END);
        assert(frame@ =~= wire(self@));
        let mut bytes = buf_new();
        buf_reserve(&mut bytes, frame.len());
        buf_put_slice(&mut bytes, frame.as_slice());
        bytes
    }

    /// The frame by which `uid` asks to be logged in.
    pub fn login(uid: &str) -> (m: Message)
        ensures
            m@ == (Frame {
                sender: uid@,
                receiver: server_name(),
                command: Command::Login,
                content: Seq::empty(),
            }),
    {
        Message {
            sender: uid.to_owned(),
            receiver: "Server".to_owned(),
            command: Command::Login,
            content: Vec::new(),
        }
    }

    /// The frame that asks `to` for its public key.
    pub fn get_pub_key(to: &str) -> (m: Message)
        ensures
            m@ == (Frame {
                sender: Seq::empty(),
                receiver: to@,
                command: Command::GetPubKey,
                content: Seq::empty(),
            }),
    {
        Message {
            sender: String::new(),
            receiver: to.to_owned(),
            command: Command::GetPubKey,
            content: Vec::new(),
        }
    }

    /// The frame that carries a public key to `to`.
    pub fn send_pub_key(to: &str, rsa: &[u8]) -> (m: Message)
        ensures
            m@ == (Frame {
                sender: Seq::empty(),
                receiver: to@,
                command: Command::SendPubKey,
                content: rsa@,
            }),
    {
        Message {
            sender: String::new(),
            receiver: to.to_owned(),
            command: Command::SendPubKey,
            content: slice_to_vec(rsa),
        }
    }

    /// The frame that carries a payload to `to`.
    pub fn send_text(to: &str, content: &[u8]) -> (m: Message)
        ensures
            m@ == (Frame {
                sender: Seq::empty(),
                receiver: to@,
                command: Command::SendMsg,
                content: content@,
            }),
    {
        Message {
            sender: String::new(),
            receiver: to.to_owned(),
            command: Command::SendMsg,
            content: slice_to_vec(content),
        }
    }

    /// The frame that asks for the list of users, or carries it.
    pub fn online_list(content: &str) -> (m: Message)
        ensures
            m@ == (Frame {
                sender: Seq::empty(),
                receiver: Seq::empty(),
                command: Command::OnlineList,
                content: encode_utf8(content@),
            }),
    {
        Message {
            sender: String::new(),
            receiver: String::new(),
            command: Command::OnlineList,
            content: slice_to_vec(content.as_bytes()),
        }
    }

    /// The same frame, from `sender`.
    pub fn set_sender(self, sender: &str) -> (m: Message)
        ensures
            m@ == (Frame { sender: sender@, ..self@ }),
    {
        Message {
            sender: sender.to_owned(),
            receiver: self.receiver,
            command: self.command,
            content: self.content,
        }
    }

    /// The same frame, for `receiver`.
    pub fn set_receiver(self, receiver: &str) -> (m: Message)
        ensures
            m@ == (Frame { receiver: receiver@, ..self@ }),
    {
        Message {
            sender: self.sender,
            receiver: receiver.to_owned(),
            command: self.command,
            content: self.content,
        }
    }

    /// Whom the frame is for.
    pub fn get_receiver(&self) -> (r: String)
        ensures
            r@ == self@.receiver,
    {
        self.receiver.clone()
    }
}

/// The frame with which the server answers a call for help: an empty text
/// from the server.
pub open spec fn help_frame() -> Frame {
    Frame {
        sender: server_name(),
        receiver: Seq::empty(),
        command: Command::SendMsg,
        content: Seq::empty(),
    }
}

impl Command {
    /// The frame with which the server answers a call for help.
    pub fn help() -> (m: Message)
        ensures
            m@ == help_frame(),
    {
        Message {
            sender: "Server".to_owned(),
            receiver: String::new(),
            command: Command::SendMsg,
            content: Vec::new(),
        }
    }
}

} // verus!
