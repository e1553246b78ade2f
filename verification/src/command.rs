//! The tags of frames and their spelling.

use vstd::prelude::*;
use vstd::string::*;
use vstd::utf8::*;
use crate::scan::bytes_eq;

verus! {

/// The closed set of frame tags.
#[derive(Debug, Clone, Copy, PartialEq, Eq, PartialOrd, Ord, Hash, Structural)]
pub enum Command {
    Help,
    Login,
    OnlineList,
    SendMsg,
    GetPubKey,
    SendPubKey,
    RemoteError,
}

impl Command {
    /// The spelling of a tag. Tags are case-sensitive.
    pub open spec fn tag(self) -> Seq<char> {
        match self {
            Command::Help => "Help"@,
            Command::Login => "Login"@,
            Command::OnlineList => "OnlineList"@,
            Command::SendMsg => "SendMsg"@,
            Command::GetPubKey => "GetPubKey"@,
            Command::SendPubKey => "SendPubKey"@,
            Command::RemoteError => "RemoteError"@,
        }
    }

    /// The bytes of a tag on the wire.
    pub open spec fn tag_bytes(self) -> Seq<u8> {
        encode_utf8(self.tag())
    }

    /// The command that a raw tag stands for: the one spelled exactly so, and
    /// `Help` for every other spelling.
    pub open spec fn of_tag(raw: Seq<u8>) -> Command {
        if raw == Command::Login.tag_bytes() {
            Command::Login
        } else if raw == Command::OnlineList.tag_bytes() {
            Command::OnlineList
        } else if raw == Command::SendMsg.tag_bytes() {
            Command::SendMsg
        } else if raw == Command::GetPubKey.tag_bytes() {
            Command::GetPubKey
        } else if raw == Command::SendPubKey.tag_bytes() {
            Command::SendPubKey
        } else if raw == Command::RemoteError.tag_bytes() {
            Command::RemoteError
        } else {
            Command::Help
        }
    }

    /// The spelling of this tag.
    pub fn as_ref(&self) -> (s: &'static str)
        ensures
            s@ == self.tag(),
    {
        match self {
            Command::Help => "Help",
            Command::Login => "Login",
            Command::OnlineList => "OnlineList",
            Command::SendMsg => "SendMsg",
            Command::GetPubKey => "GetPubKey",
            Command::SendPubKey => "SendPubKey",
            Command::RemoteError => "RemoteError",
        }
    }

    /// Whether `raw` spells this tag.
    fn spelled_by(&self, raw: &[u8]) -> (r: bool)
        ensures
            r == (raw@ == self.tag_bytes()),
    {
        bytes_eq(raw, self.as_ref().as_bytes())
    }

    /// Reads a raw tag; an unknown tag reads as `Help`.
    pub fn from_bytes(raw: &[u8]) -> (c: Command)
        ensures
            c == Command::of_tag(raw@),
    {
        if Command::Login.spelled_by(raw) {
            Command::Login
        } else if Command::OnlineList.spelled_by(raw) {
            Command::OnlineList
        } else if Command::SendMsg.spelled_by(raw) {
            Command::SendMsg
        } else if Command::GetPubKey.spelled_by(raw) {
            Command::GetPubKey
        } else if Command::SendPubKey.spelled_by(raw) {
            Command::SendPubKey
        } else if Command::RemoteError.spelled_by(raw) {
            Command::RemoteError
        } else {
            Command::Help
        }
    }
}

/// Tags are made of Latin letters, so each byte of a tag on the wire is one
/// of its letters.
pub proof fn lemma_tag_bytes(c: Command)
    ensures
        c.tag_bytes().len() == c.tag().len(),
        4 <= c.tag().len() <= 11,
        forall|i: int| 0 <= i < c.tag().len() ==> #[trigger] c.tag_bytes()[i] == c.tag()[i] as u8,
        forall|i: int|
            0 <= i < c.tag().len() ==> {
                let b = #[trigger] c.tag_bytes()[i];
                (65 <= b <= 90) || (97 <= b <= 122)
            },
{
    reveal_strlit("Help");
    reveal_strlit("Login");
    reveal_strlit("OnlineList");
    reveal_strlit("SendMsg");
    reveal_strlit("GetPubKey");
    reveal_strlit("SendPubKey");
    reveal_strlit("RemoteError");
    assert(is_ascii_chars(c.tag()));
    is_ascii_chars_encode_utf8(c.tag());
}

/// Every tag reads back as its own command.
pub proof fn lemma_tag_reads_back(c: Command)
    ensures
        Command::of_tag(c.tag_bytes()) == c,
{
    lemma_tag_bytes(Command::Help);
    lemma_tag_bytes(Command::Login);
    lemma_tag_bytes(Command::OnlineList);
    lemma_tag_bytes(Command::SendMsg);
    lemma_tag_bytes(Command::GetPubKey);
    lemma_tag_bytes(Command::SendPubKey);
    lemma_tag_bytes(Command::RemoteError);
    reveal_strlit("Help");
    reveal_strlit("Login");
    reveal_strlit("OnlineList");
    reveal_strlit("SendMsg");
    reveal_strlit("GetPubKey");
    reveal_strlit("SendPubKey");
    reveal_strlit("RemoteError");
    // The two tags of one length differ in their first letter.
    assert(Command::OnlineList.tag_bytes()[0] != Command::SendPubKey.tag_bytes()[0]);
}

} // verus!
