//! Errors of the three layers, and their text on the wire.

use vstd::prelude::*;
use vstd::std_specs::convert::FromSpecImpl;
use vstd::string::*;
use vstd::utf8::*;
use crate::scan::{bytes_eq, find_from};
use crate::text::{chars_of, find_char};

verus! {

/// Whether two texts are the same.
pub fn str_eq(a: &str, b: &str) -> (r: bool)
    ensures
        r == (a@ == b@),
{
    proof {
        encode_utf8_decode_utf8(a@);
        encode_utf8_decode_utf8(b@);
    }
    bytes_eq(a.as_bytes(), b.as_bytes())
}

/// An error of any layer, with an optional word on what happened.
#[derive(Debug)]
pub struct GlobalError {
    pub err: ErrorType,
    pub info: Option<String>,
}

/// What a `GlobalError` holds.
pub struct GlobalErrorView {
    pub err: ErrorType,
    pub info: Option<Seq<char>>,
}

impl View for GlobalError {
    type V = GlobalErrorView;

    open spec fn view(&self) -> GlobalErrorView {
        GlobalErrorView {
            err: self.err,
            info: match self.info {
                Some(i) => Some(i@),
                None => None,
            },
        }
    }
}

pub type GlobalResult<T> = Result<T, GlobalError>;

/// The layer an error comes from, and its kind.
#[derive(Debug, Clone, Copy, PartialEq, Eq, Structural)]
pub enum ErrorType {
    Client(ClientError),
    Server(ServerError),
    External(ExternalError),
}

/// What can go wrong on a client, or on its behalf.
#[derive(Debug, Clone, Copy, PartialEq, Eq, Structural)]
pub enum ClientError {
    ReceiverNotExist,
    EncryptKeyGeneration,
    EncryptKeyPersistence,
    Encryption,
    Decryption,
    CannotEstablishConnection,
    AuthenticationFailed,
    ServerDisconnected,
    Unknown,
}

impl ClientError {
    /// The name of the kind, as it is written on the wire.
    pub open spec fn name(self) -> Seq<char> {
        match self {
            ClientError::ReceiverNotExist => "ReceiverNotExist"@,
            ClientError::EncryptKeyGeneration => "EncryptKeyGeneration"@,
            ClientError::EncryptKeyPersistence => "EncryptKeyPersistence"@,
            ClientError::Encryption => "Encryption"@,
            ClientError::Decryption => "Decryption"@,
            ClientError::CannotEstablishConnection => "CannotEstablishConnection"@,
            ClientError::AuthenticationFailed => "AuthenticationFailed"@,
            ClientError::ServerDisconnected => "ServerDisconnected"@,
            ClientError::Unknown => "Unknown"@,
        }
    }

    /// The kind that `name` names, if any.
    pub open spec fn of_name(name: Seq<char>) -> Option<ClientError> {
        if name == "ReceiverNotExist"@ {
            Some(ClientError::ReceiverNotExist)
        } else if name == "EncryptKeyGeneration"@ {
            Some(ClientError::EncryptKeyGeneration)
        } else if name == "EncryptKeyPersistence"@ {
            Some(ClientError::EncryptKeyPersistence)
        } else if name == "Encryption"@ {
            Some(ClientError::Encryption)
        } else if name == "Decryption"@ {
            Some(ClientError::Decryption)
        } else if name == "CannotEstablishConnection"@ {
            Some(ClientError::CannotEstablishConnection)
        } else if name == "AuthenticationFailed"@ {
            Some(ClientError::AuthenticationFailed)
        } else if name == "ServerDisconnected"@ {
            Some(ClientError::ServerDisconnected)
        } else if name == "Unknown"@ {
            Some(ClientError::Unknown)
        } else {
            None
        }
    }

    /// The name of the kind.
    pub fn as_ref(&self) -> (s: &'static str)
        ensures
            s@ == self.name(),
    {
        match self {
            ClientError::ReceiverNotExist => "ReceiverNotExist",
            ClientError::EncryptKeyGeneration => "EncryptKeyGeneration",
            ClientError::EncryptKeyPersistence => "EncryptKeyPersistence",
            ClientError::Encryption => "Encryption",
            ClientError::Decryption => "Decryption",
            ClientError::CannotEstablishConnection => "CannotEstablishConnection",
            ClientError::AuthenticationFailed => "AuthenticationFailed",
            ClientError::ServerDisconnected => "ServerDisconnected",
            ClientError::Unknown => "Unknown",
        }
    }

    /// Reads the name of a kind; names are case-sensitive.
    pub fn from_str(name: &str) -> (r: Option<ClientError>)
        ensures
            r == ClientError::of_name(name@),
    {
        if str_eq(name, "ReceiverNotExist") {
            Some(ClientError::ReceiverNotExist)
        } else if str_eq(name, "EncryptKeyGeneration") {
            Some(ClientError::EncryptKeyGeneration)
        } else if str_eq(name, "EncryptKeyPersistence") {
            Some(ClientError::EncryptKeyPersistence)
        } else if str_eq(name, "Encryption") {
            Some(ClientError::Encryption)
        } else if str_eq(name, "Decryption") {
            Some(ClientError::Decryption)
        } else if str_eq(name, "CannotEstablishConnection") {
            Some(ClientError::CannotEstablishConnection)
        } else if str_eq(name, "AuthenticationFailed") {
            Some(ClientError::AuthenticationFailed)
        } else if str_eq(name, "ServerDisconnected") {
            Some(ClientError::ServerDisconnected)
        } else if str_eq(name, "Unknown") {
            Some(ClientError::Unknown)
        } else {
            None
        }
    }

    /// This kind of error, with a word on what happened.
    pub fn info(self, i: &str) -> (e: GlobalError)
        ensures
            e@ == (GlobalErrorView { err: ErrorType::Client(self), info: Some(i@) }),
    {
        GlobalError { err: ErrorType::Client(self), info: Some(i.to_owned()) }
    }
}

impl From<ClientError> for GlobalError {
    fn from(value: ClientError) -> (e: GlobalError) {
        GlobalError { err: ErrorType::Client(value), info: None }
    }
}

impl FromSpecImpl<ClientError> for GlobalError {
    open spec fn obeys_from_spec() -> bool {
        true
    }

    open spec fn from_spec(value: ClientError) -> GlobalError {
        GlobalError { err: ErrorType::Client(value), info: None }
    }
}

/// What can go wrong in a session on the server.
#[derive(Debug, Clone, Copy, PartialEq, Eq, Structural)]
pub enum ServerError {
    UserDisconnect,
    DuplicatedAuth,
    UnexpectedFrame,
    Unknown,
}

impl ServerError {
    /// The name of the kind, as it is written on the wire.
    pub open spec fn name(self) -> Seq<char> {
        match self {
            ServerError::UserDisconnect => "UserDisconnect"@,
            ServerError::DuplicatedAuth => "DuplicatedAuth"@,
            ServerError::UnexpectedFrame => "UnexpectedFrame"@,
            ServerError::Unknown => "Unknown"@,
        }
    }

    /// The kind that `name` names, if any.
    pub open spec fn of_name(name: Seq<char>) -> Option<ServerError> {
        if name == "UserDisconnect"@ {
            Some(ServerError::UserDisconnect)
        } else if name == "DuplicatedAuth"@ {
            Some(ServerError::DuplicatedAuth)
        } else if name == "UnexpectedFrame"@ {
            Some(ServerError::UnexpectedFrame)
        } else if name == "Unknown"@ {
            Some(ServerError::Unknown)
        } else {
            None
        }
    }

    /// The name of the kind.
    pub fn as_ref(&self) -> (s: &'static str)
        ensures
            s@ == self.name(),
    {
        match self {
            ServerError::UserDisconnect => "UserDisconnect",
            ServerError::DuplicatedAuth => "DuplicatedAuth",
            ServerError::UnexpectedFrame => "UnexpectedFrame",
            ServerError::Unknown => "Unknown",
        }
    }

    /// Reads the name of a kind; names are case-sensitive.
    pub fn from_str(name: &str) -> (r: Option<ServerError>)
        ensures
            r == ServerError::of_name(name@),
    {
        if str_eq(name, "UserDisconnect") {
            Some(ServerError::UserDisconnect)
        } else if str_eq(name, "DuplicatedAuth") {
            Some(ServerError::DuplicatedAuth)
        } else if str_eq(name, "UnexpectedFrame") {
            Some(ServerError::UnexpectedFrame)
        } else if str_eq(name, "Unknown") {
            Some(ServerError::Unknown)
        } else {
            None
        }
    }

    /// This kind of error, with a word on what happened.
    pub fn info(self, i: &str) -> (e: GlobalError)
        ensures
            e@ == (GlobalErrorView { err: ErrorType::Server(self), info: Some(i@) }),
    {
        GlobalError { err: ErrorType::Server(self), info: Some(i.to_owned()) }
    }
}

impl From<ServerError> for GlobalError {
    fn from(value: ServerError) -> (e: GlobalError) {
        GlobalError { err: ErrorType::Server(value), info: None }
    }
}

impl FromSpecImpl<ServerError> for GlobalError {
    open spec fn obeys_from_spec() -> bool {
        true
    }

    open spec fn from_spec(value: ServerError) -> GlobalError {
        GlobalError { err: ErrorType::Server(value), info: None }
    }
}

/// What can go wrong around the program: its files, sockets and channels.
#[derive(Debug, Clone, Copy, PartialEq, Eq, Structural)]
pub enum ExternalError {
    Initialize,
    ListenPort,
    IO,
    Concurrent,
    DeserializeToml,
    SerializeToml,
    DeserializeFrame,
    SerializeFrame,
    TokioChannel,
    Unknown,
}

impl ExternalError {
    /// The name of the kind, as it is written on the wire.
    pub open spec fn name(self) -> Seq<char> {
        match self {
            ExternalError::Initialize => "Initialize"@,
            ExternalError::ListenPort => "ListenPort"@,
            ExternalError::IO => "IO"@,
            ExternalError::Concurrent => "Concurrent"@,
            ExternalError::DeserializeToml => "DeserializeToml"@,
            ExternalError::SerializeToml => "SerializeToml"@,
            ExternalError::DeserializeFrame => "DeserializeFrame"@,
            ExternalError::SerializeFrame => "SerializeFrame"@,
            ExternalError::TokioChannel => "TokioChannel"@,
            ExternalError::Unknown => "Unknown"@,
        }
    }

    /// The kind that `name` names, if any.
    pub open spec fn of_name(name: Seq<char>) -> Option<ExternalError> {
        if name == "Initialize"@ {
            Some(ExternalError::Initialize)
        } else if name == "ListenPort"@ {
            Some(ExternalError::ListenPort)
        } else if name == "IO"@ {
            Some(ExternalError::IO)
        } else if name == "Concurrent"@ {
            Some(ExternalError::Concurrent)
        } else if name == "DeserializeToml"@ {
            Some(ExternalError::DeserializeToml)
        } else if name == "SerializeToml"@ {
            Some(ExternalError::SerializeToml)
        } else if name == "DeserializeFrame"@ {
            Some(ExternalError::DeserializeFrame)
        } else if name == "SerializeFrame"@ {
            Some(ExternalError::SerializeFrame)
        } else if name == "TokioChannel"@ {
            Some(ExternalError::TokioChannel)
        } else if name == "Unknown"@ {
            Some(ExternalError::Unknown)
        } else {
            None
        }
    }

    /// The name of the kind.
    pub fn as_ref(&self) -> (s: &'static str)
        ensures
            s@ == self.name(),
    {
        match self {
            ExternalError::Initialize => "Initialize",
            ExternalError::ListenPort => "ListenPort",
            ExternalError::IO => "IO",
            ExternalError::Concurrent => "Concurrent",
            ExternalError::DeserializeToml => "DeserializeToml",
            ExternalError::SerializeToml => "SerializeToml",
            ExternalError::DeserializeFrame => "DeserializeFrame",
            ExternalError::SerializeFrame => "SerializeFrame",
            ExternalError::TokioChannel => "TokioChannel",
            ExternalError::Unknown => "Unknown",
        }
    }

    /// Reads the name of a kind; names are case-sensitive.
    pub fn from_str(name: &str) -> (r: Option<ExternalError>)
        ensures
            r == ExternalError::of_name(name@),
    {
        if str_eq(name, "Initialize") {
            Some(ExternalError::Initialize)
        } else if str_eq(name, "ListenPort") {
            Some(ExternalError::ListenPort)
        } else if str_eq(name, "IO") {
            Some(ExternalError::IO)
        } else if str_eq(name, "Concurrent") {
            Some(ExternalError::Concurrent)
        } else if str_eq(name, "DeserializeToml") {
            Some(ExternalError::DeserializeToml)
        } else if str_eq(name, "SerializeToml") {
            Some(ExternalError::SerializeToml)
        } else if str_eq(name, "DeserializeFrame") {
            Some(ExternalError::DeserializeFrame)
        } else if str_eq(name, "SerializeFrame") {
            Some(ExternalError::SerializeFrame)
        } else if str_eq(name, "TokioChannel") {
            Some(ExternalError::TokioChannel)
        } else if str_eq(name, "Unknown") {
            Some(ExternalError::Unknown)
        } else {
            None
        }
    }

    /// This kind of error, with a word on what happened.
    pub fn info(self, i: &str) -> (e: GlobalError)
        ensures
            e@ == (GlobalErrorView { err: ErrorType::External(self), info: Some(i@) }),
    {
        GlobalError { err: ErrorType::External(self), info: Some(i.to_owned()) }
    }
}

impl From<ExternalError> for GlobalError {
    fn from(value: ExternalError) -> (e: GlobalError) {
        GlobalError { err: ErrorType::External(value), info: None }
    }
}

impl FromSpecImpl<ExternalError> for GlobalError {
    open spec fn obeys_from_spec() -> bool {
        true
    }

    open spec fn from_spec(value: ExternalError) -> GlobalError {
        GlobalError { err: ErrorType::External(value), info: None }
    }
}

/// Whether `s` holds `a` at `i` and `b` right behind it.
pub open spec fn pair_at(s: Seq<char>, a: char, b: char, i: int) -> bool {
    0 <= i && i + 1 < s.len() && s[i] == a && s[i + 1] == b
}

/// The first position at or after `from` at which `s` holds `a` and, right
/// behind it, `b`; `s.len()` when there is none.
pub open spec fn find_pair(s: Seq<char>, a: char, b: char, from: int) -> int
    decreases s.len() - from,
{
    if from < 0 || from + 1 >= s.len() {
        s.len() as int
    } else if pair_at(s, a, b, from) {
        from
    } else {
        find_pair(s, a, b, from + 1)
    }
}

/// `find_pair` returns the least position that holds the pair.
pub proof fn lemma_find_pair(s: Seq<char>, a: char, b: char, from: int)
    requires
        0 <= from <= s.len(),
    ensures
        ({
            let k = find_pair(s, a, b, from);
            &&& from <= k <= s.len()
            &&& k < s.len() ==> pair_at(s, a, b, k)
            &&& forall|i: int| from <= i < k ==> !pair_at(s, a, b, i)
        }),
    decreases s.len() - from,
{
    if from + 1 < s.len() && !pair_at(s, a, b, from) {
        lemma_find_pair(s, a, b, from + 1);
    }
}

/// A position that holds the pair, with none before it, is the one
/// `find_pair` returns; so is the end, where there is no pair at all.
pub proof fn lemma_find_pair_is(s: Seq<char>, a: char, b: char, from: int, k: int)
    requires
        0 <= from <= k <= s.len(),
        k < s.len() ==> pair_at(s, a, b, k),
        forall|i: int| from <= i < k ==> !pair_at(s, a, b, i),
    ensures
        find_pair(s, a, b, from) == k,
{
    lemma_find_pair(s, a, b, from);
}

fn find_pair_in(s: &[char], a: char, b: char) -> (k: usize)
    ensures
        k == find_pair(s@, a, b, 0),
{
    let mut i: usize = 0;
    while i < s.len() && i + 1 < s.len()
        invariant
            i <= s.len(),
            forall|j: int| 0 <= j < i ==> !pair_at(s@, a, b, j),
        decreases s.len() - i,
    {
        if s[i] == a && s[i + 1] == b {
            proof {
                lemma_find_pair_is(s@, a, b, 0, i as int);
            }
            return i;
        }
        i += 1;
    }
    proof {
        lemma_find_pair_is(s@, a, b, 0, s.len() as int);
    }
    s.len()
}

impl ErrorType {
    /// The name of the layer, as it is written on the wire.
    pub open spec fn source(self) -> Seq<char> {
        match self {
            ErrorType::Client(_) => "Client"@,
            ErrorType::Server(_) => "Server"@,
            ErrorType::External(_) => "External"@,
        }
    }

    /// The name of the kind, as it is written on the wire.
    pub open spec fn kind(self) -> Seq<char> {
        match self {
            ErrorType::Client(e) => e.name(),
            ErrorType::Server(e) => e.name(),
            ErrorType::External(e) => e.name(),
        }
    }

    /// The error that the two names stand for. A layer other than `Server` or
    /// `External` is read as `Client`; a kind that the layer does not have,
    /// as its `Unknown`.
    pub open spec fn of_names(source: Seq<char>, kind: Seq<char>) -> ErrorType {
        if source == "Server"@ {
            ErrorType::Server(
                match ServerError::of_name(kind) {
                    Some(e) => e,
                    None => ServerError::Unknown,
                },
            )
        } else if source == "External"@ {
            ErrorType::External(
                match ExternalError::of_name(kind) {
                    Some(e) => e,
                    None => ExternalError::Unknown,
                },
            )
        } else {
            ErrorType::Client(
                match ClientError::of_name(kind) {
                    Some(e) => e,
                    None => ClientError::Unknown,
                },
            )
        }
    }

    fn read(source: &str, kind: &str) -> (e: ErrorType)
        ensures
            e == ErrorType::of_names(source@, kind@),
    {
        if str_eq(source, "Server") {
            ErrorType::Server(
                match ServerError::from_str(kind) {
                    Some(e) => e,
                    None => ServerError::Unknown,
                },
            )
        } else if str_eq(source, "External") {
            ErrorType::External(
                match ExternalError::from_str(kind) {
                    Some(e) => e,
                    None => ExternalError::Unknown,
                },
            )
        } else {
            ErrorType::Client(
                match ClientError::from_str(kind) {
                    Some(e) => e,
                    None => ClientError::Unknown,
                },
            )
        }
    }
}

/// An error as text: `<Source>-<Kind>`, and `: <context>` behind it where
/// there is a context.
pub open spec fn error_text(e: GlobalErrorView) -> Seq<char> {
    e.err.source() + "-"@ + e.err.kind() + match e.info {
        Some(i) => ": "@ + i,
        None => Seq::empty(),
    }
}

/// The error that a text stands for. The layer is what stands before the
/// first `-`, the kind what follows up to the first `: `, the context what
/// follows that. A text without `-` stands for an unknown client error.
pub open spec fn error_of_text(text: Seq<char>) -> GlobalErrorView {
    let dash = find_from(text, '-', 0);
    if dash >= text.len() {
        GlobalErrorView {
            err: ErrorType::Client(ClientError::Unknown),
            info: Some("cannot deserialize this error"@),
        }
    } else {
        let rest = text.skip(dash + 1);
        let colon = find_pair(rest, ':', ' ', 0);
        if colon < rest.len() {
            GlobalErrorView {
                err: ErrorType::of_names(text.take(dash), rest.take(colon)),
                info: Some(rest.skip(colon + 2)),
            }
        } else {
            GlobalErrorView { err: ErrorType::of_names(text.take(dash), rest), info: None }
        }
    }
}

impl GlobalError {
    /// The error as it is written on the wire.
    pub fn to_string(&self) -> (s: String)
        ensures
            s@ == error_text(self@),
    {
        let mut s = String::new();
        match self.err {
            ErrorType::Client(e) => {
                s.append("Client");
                s.append("-");
                s.append(e.as_ref());
            },
            ErrorType::Server(e) => {
                s.append("Server");
                s.append("-");
                s.append(e.as_ref());
            },
            ErrorType::External(e) => {
                s.append("External");
                s.append("-");
                s.append(e.as_ref());
            },
        }
        match &self.info {
            Some(i) => {
                s.append(": ");
                s.append(i.as_str());
                assert(s@ =~= error_text(self@));
            },
            None => {
                assert(s@ =~= error_text(self@));
            },
        }
        s
    }

    /// Reads an error from its text on the wire.
    pub fn parse(text: &str) -> (e: GlobalError)
        ensures
            e@ == error_of_text(text@),
    {
        let chars = chars_of(text);
        let len = chars.len();
        let dash = find_char(chars.as_slice(), '-', 0);
        if dash >= len {
            return ClientError::Unknown.info("cannot deserialize this error");
        }
        proof {
            crate::scan::lemma_find_from(text@, '-', 0);
        }
        let source = text.substring_char(0, dash);
        let rest = vstd::slice::slice_subrange(chars.as_slice(), dash + 1, len);
        let colon = find_pair_in(rest, ':', ' ');
        proof {
            lemma_find_pair(rest@, ':', ' ', 0);
            assert(text@.subrange(0, dash as int) =~= text@.take(dash as int));
            assert(rest@ =~= text@.skip(dash + 1));
        }
        if colon < rest.len() {
            let kind = text.substring_char(dash + 1, dash + 1 + colon);
            let info = text.substring_char(dash + 1 + colon + 2, len);
            assert(kind@ =~= rest@.take(colon as int));
            assert(info@ =~= rest@.skip(colon + 2));
            GlobalError { err: ErrorType::read(source, kind), info: Some(info.to_owned()) }
        } else {
            let kind = text.substring_char(dash + 1, len);
            assert(kind@ =~= rest@);
            GlobalError { err: ErrorType::read(source, kind), info: None }
        }
    }
}

} // verus!
