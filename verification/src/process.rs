//! What the server does with a frame, and how a connection goes on and
//! ends.

use vstd::prelude::*;
use vstd::string::*;
use vstd::utf8::*;
use crate::command::Command;
use crate::error::{
    ClientError, ErrorType, ExternalError, GlobalError, GlobalErrorView, GlobalResult, ServerError,
};
use crate::message::{help_frame, server_name, Frame, Message};
use crate::server_state::{channel_closed, lines, receiver_not_exist, OnlineUsers};

verus! {

/// What the server does with a frame from a user: it sends a frame to a
/// user, or it refuses the frame.
pub enum Dispatch {
    Send { to: String, msg: Message },
    Refuse(GlobalError),
}

/// What a `Dispatch` holds.
pub enum Plan {
    Send { to: Seq<char>, frame: Frame },
    Refuse(GlobalErrorView),
}

impl View for Dispatch {
    type V = Plan;

    open spec fn view(&self) -> Plan {
        match self {
            Dispatch::Send { to, msg } => Plan::Send { to: to@, frame: msg@ },
            Dispatch::Refuse(e) => Plan::Refuse(e@),
        }
    }
}

/// The error for a second login on one connection.
pub open spec fn duplicated_login(uid: Seq<char>) -> GlobalErrorView {
    GlobalErrorView {
        err: ErrorType::Server(ServerError::UnexpectedFrame),
        info: Some(uid + " duplicated authentication request"@),
    }
}

/// The error for a frame that only a server sends.
pub open spec fn unknown_frame() -> GlobalErrorView {
    GlobalErrorView { err: ErrorType::Server(ServerError::Unknown), info: None }
}

/// What the server does with the frame `f` from the user `uid`, while the
/// users `uids` are online.
///
/// A request for the list is answered to `uid` with the list, from the
/// server. A message, a request for a key and a key go to the receiver that
/// the frame names, stamped with `uid` as their sender. A call for help is
/// answered to `uid` with the help frame. A login is refused: the connection
/// has one already. A remote error is refused: no client sends one.
pub open spec fn plan(f: Frame, uid: Seq<char>, uids: Seq<Seq<char>>) -> Plan {
    match f.command {
        Command::OnlineList => Plan::Send {
            to: uid,
            frame: Frame {
                sender: server_name(),
                receiver: Seq::empty(),
                command: Command::OnlineList,
                content: encode_utf8(lines(uids)),
            },
        },
        Command::SendMsg | Command::GetPubKey | Command::SendPubKey => Plan::Send {
            to: f.receiver,
            frame: Frame { sender: uid, ..f },
        },
        Command::Help => Plan::Send { to: uid, frame: help_frame() },
        Command::Login => Plan::Refuse(duplicated_login(uid)),
        Command::RemoteError => Plan::Refuse(unknown_frame()),
    }
}

/// Decides what to do with the frame `msg` from the user `uid`.
pub fn dispatch(msg: Message, uid: &str, online_users: &OnlineUsers) -> (d: Dispatch)
    ensures
        d@ == plan(msg@, uid@, online_users.uids()),
{
    match msg.command {
        Command::OnlineList => {
            let list = online_users.to_msg().set_sender("Server");
            Dispatch::Send { to: uid.to_owned(), msg: list }
        },
        Command::SendMsg | Command::GetPubKey | Command::SendPubKey => {
            let to = msg.get_receiver();
            Dispatch::Send { to, msg: msg.set_sender(uid) }
        },
        Command::Help => Dispatch::Send { to: uid.to_owned(), msg: Command::help() },
        Command::Login => {
            let mut info = uid.to_owned();
            info.append(" duplicated authentication request");
            Dispatch::Refuse(ServerError::UnexpectedFrame.info(info.as_str()))
        },
        Command::RemoteError => Dispatch::Refuse(GlobalError::from(ServerError::Unknown)),
    }
}

/// Handles the frame `msg` from the user `uid`: decides as `plan` says, and
/// sends what is to be sent. A refused frame fails with the error of the
/// refusal; a frame for a user that is not online, with `ReceiverNotExist`;
/// a send on a closed queue, with `TokioChannel`.
pub fn handle_incoming_msg(msg: Message, uid: &str, online_users: &OnlineUsers) -> (r:
    GlobalResult<()>)
    ensures
        match plan(msg@, uid@, online_users.uids()) {
            Plan::Refuse(e) => r is Err && r->Err_0@ == e,
            Plan::Send { to, frame } => if online_users@.contains_key(to) {
                r is Ok || r->Err_0@ == channel_closed()
            } else {
                r is Err && r->Err_0@ == receiver_not_exist(frame)
            },
        },
{
    match dispatch(msg, uid, online_users) {
        Dispatch::Refuse(e) => Err(e),
        Dispatch::Send { to, msg } => online_users.send(to.as_str(), msg),
    }
}

/// Whether an error that came of handling a frame leaves the connection
/// open: an unknown receiver and a closed queue do, every other error ends
/// the connection.
pub open spec fn is_swallowed(e: GlobalErrorView) -> bool {
    e.err == ErrorType::Client(ClientError::ReceiverNotExist) || e.err == ErrorType::External(
        ExternalError::TokioChannel,
    )
}

/// How the inbound half of a connection goes on after a frame was handled.
#[derive(Debug)]
pub enum Next {
    /// The frame was handled.
    Continue,
    /// The frame failed in a way that is put on record; the connection
    /// stays open.
    Report(GlobalError),
    /// The connection ends with this error.
    Terminate(GlobalError),
}

/// Decides how a connection goes on after `handle_incoming_msg` returned
/// `result`.
pub fn after_dispatch(result: GlobalResult<()>) -> (next: Next)
    ensures
        match result {
            Ok(_) => next is Continue,
            Err(e) => if is_swallowed(e@) {
                next is Report && next->Report_0 == e
            } else {
                next is Terminate && next->Terminate_0 == e
            },
        },
{
    match result {
        Ok(_) => Next::Continue,
        Err(e) => match e.err {
            ErrorType::Client(ClientError::ReceiverNotExist) => Next::Report(e),
            ErrorType::External(ExternalError::TokioChannel) => Next::Report(e),
            _ => Next::Terminate(e),
        },
    }
}

/// Why a connection ends.
#[derive(Debug)]
pub enum End {
    /// The user's stream has no more frames.
    StreamEnded,
    /// Handling a frame failed with an error that ends the connection.
    Faulted(GlobalError),
    /// A frame could not be written to the user; the words say why.
    WriteFailed(String),
    /// The user's queue is closed: the registry holds it no more.
    QueueClosed,
}

/// What an `End` holds.
pub enum EndView {
    StreamEnded,
    Faulted(GlobalErrorView),
    WriteFailed(Seq<char>),
    QueueClosed,
}

impl View for End {
    type V = EndView;

    open spec fn view(&self) -> EndView {
        match self {
            End::StreamEnded => EndView::StreamEnded,
            End::Faulted(e) => EndView::Faulted(e@),
            End::WriteFailed(why) => EndView::WriteFailed(why@),
            End::QueueClosed => EndView::QueueClosed,
        }
    }
}

/// The error that a connection of `uid` ends with.
pub open spec fn end_error(uid: Seq<char>, end: EndView) -> GlobalErrorView {
    match end {
        EndView::StreamEnded => GlobalErrorView {
            err: ErrorType::Server(ServerError::UserDisconnect),
            info: Some(uid),
        },
        EndView::Faulted(e) => e,
        EndView::WriteFailed(why) => GlobalErrorView {
            err: ErrorType::External(ExternalError::TokioChannel),
            info: Some(why),
        },
        EndView::QueueClosed => GlobalErrorView {
            err: ErrorType::External(ExternalError::TokioChannel),
            info: Some(uid + "'s transmitter is dropped"@),
        },
    }
}

/// Ends the connection of `uid`: takes the user offline and returns the
/// error that the connection ends with. A connection whose queue is closed
/// leaves the registry as it is: its entry is gone already, or belongs to a
/// later login of the same user.
pub fn close(online_users: &mut OnlineUsers, uid: &str, end: End) -> (e: GlobalError)
    ensures
        e@ == end_error(uid@, end@),
        final(online_users)@ == if end is QueueClosed {
            old(online_users)@
        } else {
            old(online_users)@.remove(uid@)
        },
{
    match end {
        End::StreamEnded => {
            online_users.remove_user(uid);
            ServerError::UserDisconnect.info(uid)
        },
        End::Faulted(e) => {
            online_users.remove_user(uid);
            e
        },
        End::WriteFailed(why) => {
            online_users.remove_user(uid);
            ExternalError::TokioChannel.info(why.as_str())
        },
        End::QueueClosed => {
            let mut info = uid.to_owned();
            info.append("'s transmitter is dropped");
            ExternalError::TokioChannel.info(info.as_str())
        },
    }
}

} // verus!
