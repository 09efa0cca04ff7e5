//! Command framing and file-transfer logic for a point-to-point serial link
//! between a controller and an embedded payload.
//!
//! A command travels as a self-delimiting frame: the command's tag and data
//! are byte-stuffed so that no zero byte is left in them, and a single zero
//! byte ends the frame. Files move over the same byte stream with a
//! handshake of plain-text tokens and a SHA-256 digest of the body.
//!
//! Everything here works on plain values. Reading and writing the stream
//! is left to the caller, who feeds what was read to the state machines in
//! [`transport`] and [`transfer`] and carries out what they ask for.

mod bytes;
pub mod command;
pub mod digest;
pub mod error;
pub mod filename;
pub mod framing;
pub mod stuffing;
pub mod text;
pub mod timestamp;
pub mod transfer;
pub mod transport;

pub use crate::command::{Command, CommandType};
pub use crate::error::DecodeError;
pub use crate::timestamp::{bytes_to_datetime, datetime_to_bytes, Timestamp};
