//! The core of a chat service: the wire format of its frames and a
//! resumable decoder for it, the registry of the users that are online, and
//! the decisions of a connection. Reading and writing sockets is left to the
//! program around it.

pub mod buffer;
pub mod client;
pub mod codec_laws;
pub mod codec_model;
pub mod command;
pub mod config;
pub mod error;
pub mod error_laws;
pub mod handler;
pub mod message;
pub mod msg_codec;
pub mod order;
pub mod process;
pub mod registry_laws;
pub mod scan;
pub mod server_state;
pub mod stream;
pub mod text;
