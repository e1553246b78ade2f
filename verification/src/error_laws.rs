//! What holds of errors on the wire: every error reads back from its text.

use vstd::prelude::*;
use crate::error::{
    error_of_text, error_text, lemma_find_pair_is, pair_at, ClientError, ErrorType,
    ExternalError, GlobalErrorView, ServerError,
};
use crate::scan::lemma_find_from_is;

verus! {

/// Whether every character of `s` is a Latin letter.
pub open spec fn all_letters(s: Seq<char>) -> bool {
    forall|i: int| 0 <= i < s.len() ==> ('a' <= #[trigger] s[i] <= 'z' || 'A' <= s[i] <= 'Z')
}

/// The names of the client kinds are made of letters, and each names its own kind.
pub proof fn lemma_client_names(e: ClientError)
    ensures
        all_letters(e.name()),
        ClientError::of_name(e.name()) == Some(e),
{
    reveal_strlit("ReceiverNotExist");
    reveal_strlit("EncryptKeyGeneration");
    reveal_strlit("EncryptKeyPersistence");
    reveal_strlit("Encryption");
    reveal_strlit("Decryption");
    reveal_strlit("CannotEstablishConnection");
    reveal_strlit("AuthenticationFailed");
    reveal_strlit("ServerDisconnected");
    reveal_strlit("Unknown");
    assert("ReceiverNotExist"@.len() == 16);
    assert("EncryptKeyGeneration"@.len() == 20);
    assert("EncryptKeyPersistence"@.len() == 21);
    assert("Encryption"@.len() == 10);
    assert("Decryption"@.len() == 10);
    assert("CannotEstablishConnection"@.len() == 25);
    assert("AuthenticationFailed"@.len() == 20);
    assert("ServerDisconnected"@.len() == 18);
    assert("Unknown"@.len() == 7);
    assert("EncryptKeyGeneration"@[0] != "AuthenticationFailed"@[0]);
    assert("Encryption"@[0] != "Decryption"@[0]);
}

/// The names of the server kinds are made of letters, and each names its own kind.
pub proof fn lemma_server_names(e: ServerError)
    ensures
        all_letters(e.name()),
        ServerError::of_name(e.name()) == Some(e),
{
    reveal_strlit("UserDisconnect");
    reveal_strlit("DuplicatedAuth");
    reveal_strlit("UnexpectedFrame");
    reveal_strlit("Unknown");
    assert("UserDisconnect"@.len() == 14);
    assert("DuplicatedAuth"@.len() == 14);
    assert("UnexpectedFrame"@.len() == 15);
    assert("Unknown"@.len() == 7);
    assert("UserDisconnect"@[0] != "DuplicatedAuth"@[0]);
}

/// The names of the external kinds are made of letters, and each names its own kind.
pub proof fn lemma_external_names(e: ExternalError)
    ensures
        all_letters(e.name()),
        ExternalError::of_name(e.name()) == Some(e),
{
    reveal_strlit("Initialize");
    reveal_strlit("ListenPort");
    reveal_strlit("IO");
    reveal_strlit("Concurrent");
    reveal_strlit("DeserializeToml");
    reveal_strlit("SerializeToml");
    reveal_strlit("DeserializeFrame");
    reveal_strlit("SerializeFrame");
    reveal_strlit("TokioChannel");
    reveal_strlit("Unknown");
    assert("Initialize"@.len() == 10);
    assert("ListenPort"@.len() == 10);
    assert("IO"@.len() == 2);
    assert("Concurrent"@.len() == 10);
    assert("DeserializeToml"@.len() == 15);
    assert("SerializeToml"@.len() == 13);
    assert("DeserializeFrame"@.len() == 16);
    assert("SerializeFrame"@.len() == 14);
    assert("TokioChannel"@.len() == 12);
    assert("Unknown"@.len() == 7);
    assert("Initialize"@[0] != "ListenPort"@[0]);
    assert("Initialize"@[0] != "Concurrent"@[0]);
    assert("ListenPort"@[0] != "Concurrent"@[0]);
}

/// The names of the layers and kinds are made of letters, and the two names
/// of an error stand for that error.
pub proof fn lemma_names_read_back(err: ErrorType)
    ensures
        all_letters(err.source()),
        all_letters(err.kind()),
        ErrorType::of_names(err.source(), err.kind()) == err,
{
    reveal_strlit("Client");
    reveal_strlit("Server");
    reveal_strlit("External");
    assert("Client"@[0] != "Server"@[0]);
    assert("Client"@.len() != "External"@.len());
    assert("Server"@.len() != "External"@.len());
    match err {
        ErrorType::Client(e) => lemma_client_names(e),
        ErrorType::Server(e) => lemma_server_names(e),
        ErrorType::External(e) => lemma_external_names(e),
    }
}

/// Errors keep their layer, kind and context over the wire: the text of an
/// error reads back as that error.
pub proof fn lemma_error_round_trip(e: GlobalErrorView)
    ensures
        error_of_text(error_text(e)) == e,
{
    reveal_strlit("-");
    reveal_strlit(": ");
    lemma_names_read_back(e.err);
    let source = e.err.source();
    let kind = e.err.kind();
    let text = error_text(e);
    let dash = source.len() as int;
    assert forall|i: int| 0 <= i < dash implies text[i] != '-' by {
        assert(text[i] == source[i]);
    }
    assert(text[dash] == '-');
    lemma_find_from_is(text, '-', 0, dash);
    assert(text.take(dash) =~= source);
    let rest = text.skip(dash + 1);
    let colon = kind.len() as int;
    assert forall|i: int| 0 <= i < colon implies !pair_at(rest, ':', ' ', i) by {
        assert(rest[i] == kind[i]);
    }
    match e.info {
        Some(i) => {
            assert(rest =~= kind + ": "@ + i);
            assert(rest[colon] == ':');
            assert(rest[colon + 1] == ' ');
            lemma_find_pair_is(rest, ':', ' ', 0, colon);
            assert(rest.take(colon) =~= kind);
            assert(rest.skip(colon + 2) =~= i);
        },
        None => {
            assert(rest =~= kind);
            lemma_find_pair_is(rest, ':', ' ', 0, colon);
        },
    }
}

} // verus!
