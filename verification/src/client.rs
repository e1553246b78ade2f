//! What a client decides: how a line of input and a frame from the server
//! are to be acted on.

use vstd::prelude::*;
use vstd::string::*;
use vstd::utf8::*;
use crate::command::Command;
use crate::error::{str_eq, ClientError, ErrorType, GlobalErrorView, GlobalResult};
use crate::message::{Frame, Message};
use crate::text::{from_utf8, from_utf8_lossy, lossy_text, split_whitespace, texts, words};

verus! {

/// What the user of a client asks for on one line of input.
#[derive(Debug, PartialEq, Eq)]
pub enum Request {
    /// `list`: ask the server who is online.
    List,
    /// `send <uid> <text>`: send a text to a user.
    Send { receiver: String, text: String },
    /// `exit`: leave.
    Exit,
    /// Anything else: nothing.
    Nothing,
}

/// What a `Request` holds.
pub enum RequestView {
    List,
    Send { receiver: Seq<char>, text: Seq<char> },
    Exit,
    Nothing,
}

impl View for Request {
    type V = RequestView;

    open spec fn view(&self) -> RequestView {
        match self {
            Request::List => RequestView::List,
            Request::Send { receiver, text } => RequestView::Send {
                receiver: receiver@,
                text: text@,
            },
            Request::Exit => RequestView::Exit,
            Request::Nothing => RequestView::Nothing,
        }
    }
}

/// The request that the words of a line make. The first word names the
/// request; `send` takes the next two words as receiver and text, and is
/// nothing without them. Words behind those are not looked at.
pub open spec fn request_of(tokens: Seq<Seq<char>>) -> RequestView {
    if tokens.len() == 0 {
        RequestView::Nothing
    } else if tokens[0] == "list"@ {
        RequestView::List
    } else if tokens[0] == "send"@ {
        if tokens.len() >= 3 {
            RequestView::Send { receiver: tokens[1], text: tokens[2] }
        } else {
            RequestView::Nothing
        }
    } else if tokens[0] == "exit"@ {
        RequestView::Exit
    } else {
        RequestView::Nothing
    }
}

/// Reads the request that the words `tokens` make.
pub fn request(tokens: &Vec<String>) -> (r: Request)
    ensures
        r@ == request_of(texts(tokens@)),
{
    if tokens.len() == 0 {
        Request::Nothing
    } else if str_eq(tokens[0].as_str(), "list") {
        Request::List
    } else if str_eq(tokens[0].as_str(), "send") {
        if tokens.len() >= 3 {
            Request::Send { receiver: tokens[1].clone(), text: tokens[2].clone() }
        } else {
            Request::Nothing
        }
    } else if str_eq(tokens[0].as_str(), "exit") {
        Request::Exit
    } else {
        Request::Nothing
    }
}

/// Reads the request on one line of input.
pub fn read_request(line: &str) -> (r: Request)
    ensures
        r@ == request_of(words(line@)),
{
    let tokens = split_whitespace(line);
    request(&tokens)
}

/// What a client does with a frame that the server hands it.
#[derive(Debug, PartialEq, Eq)]
pub enum Reaction {
    /// A message: decrypt it and show it as coming from `from`.
    Decrypt { from: String, ciphertext: Vec<u8> },
    /// A request for this client's public key: send it to `to`.
    OfferKey { to: String },
    /// The public key of `of`: keep it.
    KeepKey { of: String, pem: Vec<u8> },
    /// The list of users: show it.
    ShowList { text: String },
    /// Any other frame: show it as it is.
    Show { msg: Message },
}

/// What a `Reaction` holds.
pub enum ReactionView {
    Decrypt { from: Seq<char>, ciphertext: Seq<u8> },
    OfferKey { to: Seq<char> },
    KeepKey { of: Seq<char>, pem: Seq<u8> },
    ShowList { text: Seq<char> },
    Show { msg: Frame },
}

impl View for Reaction {
    type V = ReactionView;

    open spec fn view(&self) -> ReactionView {
        match self {
            Reaction::Decrypt { from, ciphertext } => ReactionView::Decrypt {
                from: from@,
                ciphertext: ciphertext@,
            },
            Reaction::OfferKey { to } => ReactionView::OfferKey { to: to@ },
            Reaction::KeepKey { of, pem } => ReactionView::KeepKey { of: of@, pem: pem@ },
            Reaction::ShowList { text } => ReactionView::ShowList { text: text@ },
            Reaction::Show { msg } => ReactionView::Show { msg: msg@ },
        }
    }
}

/// What a client does with the frame `f`. The list is shown as text, bytes
/// that are no UTF-8 replaced.
pub open spec fn reaction_to(f: Frame) -> ReactionView {
    match f.command {
        Command::SendMsg => ReactionView::Decrypt { from: f.sender, ciphertext: f.content },
        Command::GetPubKey => ReactionView::OfferKey { to: f.sender },
        Command::SendPubKey => ReactionView::KeepKey { of: f.sender, pem: f.content },
        Command::OnlineList => ReactionView::ShowList { text: lossy_text(f.content) },
        _ => ReactionView::Show { msg: f },
    }
}

/// Decides what to do with a frame from the server.
pub fn react(msg: Message) -> (r: Reaction)
    ensures
        r@ == reaction_to(msg@),
{
    match msg.command {
        Command::SendMsg => Reaction::Decrypt { from: msg.sender, ciphertext: msg.content },
        Command::GetPubKey => Reaction::OfferKey { to: msg.sender },
        Command::SendPubKey => Reaction::KeepKey { of: msg.sender, pem: msg.content },
        Command::OnlineList => Reaction::ShowList {
            text: from_utf8_lossy(msg.content.as_slice()),
        },
        _ => Reaction::Show { msg },
    }
}

/// The error for decrypted bytes that are no text.
pub open spec fn not_a_text() -> GlobalErrorView {
    GlobalErrorView {
        err: ErrorType::Client(ClientError::Decryption),
        info: Some("ciphertext not utf8"@),
    }
}

/// The error for a key file that is no text.
pub open spec fn not_a_pem() -> GlobalErrorView {
    GlobalErrorView {
        err: ErrorType::Client(ClientError::EncryptKeyPersistence),
        info: Some("pem not utf8"@),
    }
}

/// The text that decrypted bytes spell. They must be valid UTF-8.
pub fn plaintext(bytes: Vec<u8>) -> (r: GlobalResult<String>)
    ensures
        valid_utf8(bytes@) ==> r is Ok && r->Ok_0@ == decode_utf8(bytes@),
        !valid_utf8(bytes@) ==> r is Err && r->Err_0@ == not_a_text(),
{
    match from_utf8(bytes) {
        Some(text) => Ok(text),
        None => Err(ClientError::Decryption.info("ciphertext not utf8")),
    }
}

/// The text of a key in PEM form. The bytes must be valid UTF-8.
pub fn pem_text(bytes: Vec<u8>) -> (r: GlobalResult<String>)
    ensures
        valid_utf8(bytes@) ==> r is Ok && r->Ok_0@ == decode_utf8(bytes@),
        !valid_utf8(bytes@) ==> r is Err && r->Err_0@ == not_a_pem(),
{
    match from_utf8(bytes) {
        Some(text) => Ok(text),
        None => Err(ClientError::EncryptKeyPersistence.info("pem not utf8")),
    }
}

} // verus!
