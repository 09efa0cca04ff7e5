//! The ways in which received bytes can fail to be a command.

use vstd::prelude::*;

verus! {

/// Why a byte sequence could not be decoded.
///
/// Every one of these is an expected condition on an unreliable link: the
/// caller drops the bytes and polls again.
#[derive(Copy, Clone, PartialEq, Eq, Debug, Structural)]
pub enum DecodeError {
    /// No terminator was found: the frame is not complete.
    Truncated,
    /// The bytes before the terminator are not a valid stuffing of a
    /// payload, or the payload has no room for a tag.
    Malformed,
    /// The tag byte is none of the known command types.
    UnknownType,
    /// A timestamp field is shorter than eight bytes.
    InvalidTimestamp,
}

} // verus!
