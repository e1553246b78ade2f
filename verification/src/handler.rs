//! The first frame of a connection, and the record of its end.

use vstd::prelude::*;
use vstd::string::*;
use crate::command::Command;
use crate::error::{
    ErrorType, ExternalError, GlobalError, GlobalErrorView, GlobalResult, ServerError,
};
use crate::message::Message;
use crate::server_state::{OnlineUsers, Tx};

verus! {

/// The error for a first frame that is no login.
pub open spec fn unexpected_frame() -> GlobalErrorView {
    GlobalErrorView { err: ErrorType::Server(ServerError::UnexpectedFrame), info: None }
}

/// The error for a connection that yields no first frame.
pub open spec fn no_frame() -> GlobalErrorView {
    GlobalErrorView { err: ErrorType::External(ExternalError::DeserializeFrame), info: None }
}

/// Admits a connection on its first frame. `first` is that frame, or `None`
/// where the connection ended or its bytes could not be read as a frame.
///
/// A `Login` frame puts its sender online with the queue `tx` and returns
/// the sender as the user id of the connection. Anything else leaves the
/// registry as it is and fails: another frame with `UnexpectedFrame`, no
/// frame with `DeserializeFrame`.
pub fn authenticate(online_users: &mut OnlineUsers, first: Option<Message>, tx: Tx) -> (r:
    GlobalResult<String>)
    ensures
        match first {
            Some(msg) => if msg@.command == Command::Login {
                &&& r is Ok
                &&& r->Ok_0@ == msg@.sender
                &&& final(online_users)@ == old(online_users)@.insert(msg@.sender, tx)
            } else {
                &&& r is Err
                &&& r->Err_0@ == unexpected_frame()
                &&& final(online_users)@ == old(online_users)@
            },
            None => {
                &&& r is Err
                &&& r->Err_0@ == no_frame()
                &&& final(online_users)@ == old(online_users)@
            },
        },
{
    match first {
        Some(msg) => match msg.command {
            Command::Login => {
                let uid = msg.sender;
                online_users.add_user(uid.as_str(), tx);
                Ok(uid)
            },
            _ => Err(GlobalError::from(ServerError::UnexpectedFrame)),
        },
        None => Err(GlobalError::from(ExternalError::DeserializeFrame)),
    }
}

/// The words with which the end of a connection is put on record.
pub open spec fn record_text(kind: Seq<char>) -> Seq<char> {
    "recover() dropped connection due to "@ + kind
}

/// The line that goes on record when a connection has ended with `result`:
/// none for a connection that ended well or with a client error, and the
/// kind of the error for a server or external one.
pub fn record(result: &GlobalResult<()>) -> (line: Option<String>)
    ensures
        match result {
            Ok(_) => line is None,
            Err(e) => match e.err {
                ErrorType::Client(_) => line is None,
                ErrorType::Server(kind) => line is Some && line->Some_0@ == record_text(
                    kind.name(),
                ),
                ErrorType::External(kind) => line is Some && line->Some_0@ == record_text(
                    kind.name(),
                ),
            },
        },
{
    match result {
        Ok(_) => None,
        Err(e) => match e.err {
            ErrorType::Client(_) => None,
            ErrorType::Server(kind) => {
                let mut line = "recover() dropped connection due to ".to_owned();
                line.append(kind.as_ref());
                Some(line)
            },
            ErrorType::External(kind) => {
                let mut line = "recover() dropped connection due to ".to_owned();
                line.append(kind.as_ref());
                Some(line)
            },
        },
    }
}

} // verus!
