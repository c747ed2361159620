//! A TCP chat relay, verified: the length-prefixed wire protocol, the
//! authentication flow, the broadcast hub that fans events out between
//! connections, and the decisions of the per-connection actor.
//!
//! Everything in this crate is plain computation on values. Sockets, the
//! database and the scheduler live with the program that embeds it.

pub mod actor;
pub mod auth;
pub mod client;
pub mod frame;
pub mod hub;
pub mod laws;
pub mod message;
pub mod store;
pub mod ui;
pub mod varint;
pub mod wire;

pub use frame::{decode_header, encode_bytes, encode_bytes_to_buf, MSG_SIZE_BYTES};
pub use message::{LoginMsg, MsgDataType, MsgType, ServerMsg, ServerRes, TokenMsg, UserMsg};
pub use wire::{decode_msg, decode_msg_type, encode_msg_type, ProtocolError};
