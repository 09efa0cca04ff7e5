//! Frames: a stuffed payload followed by one terminator byte.
//!
//! Stuffing removes every zero byte from the payload, so the terminator is
//! the only zero byte of a frame and a reader on a bare byte stream can tell
//! where the frame ends.

use vstd::prelude::*;
use vstd::slice::slice_subrange;
use crate::error::DecodeError;
use crate::stuffing::{cobs_decoded, cobs_encoded};

verus! {

/// The byte that ends a frame.
pub const TERMINATOR: u8 = 0;

/// `i` is the position of the first terminator byte in `bytes`.
pub open spec fn is_terminator_at(bytes: Seq<u8>, i: int) -> bool {
    &&& 0 <= i < bytes.len()
    &&& bytes[i] == TERMINATOR
    &&& forall|j: int| 0 <= j < i ==> bytes[j] != TERMINATOR
}

/// The position of the first terminator byte in `bytes`, where there is one.
pub open spec fn terminator_index(bytes: Seq<u8>) -> int {
    choose|i: int| is_terminator_at(bytes, i)
}

/// `bytes` holds exactly one terminator byte, and it is the last byte.
pub open spec fn ends_in_sole_terminator(bytes: Seq<u8>) -> bool {
    &&& bytes.len() >= 1
    &&& forall|i: int| 0 <= i < bytes.len() ==> (bytes[i] == TERMINATOR <==> i == bytes.len() - 1)
}

/// The frame that carries `payload`.
pub open spec fn spec_frame(payload: Seq<u8>) -> Seq<u8> {
    cobs_encoded(payload).push(TERMINATOR)
}

/// The payload carried by the first frame in `bytes`.
///
/// Without a terminator there is no complete frame (`Truncated`); where the
/// bytes before the terminator cannot be unstuffed the frame is `Malformed`.
/// Bytes after the first terminator are not looked at.
pub open spec fn spec_unframe(bytes: Seq<u8>) -> Result<Seq<u8>, DecodeError> {
    if !bytes.contains(TERMINATOR) {
        Err(DecodeError::Truncated)
    } else {
        match cobs_decoded(bytes.take(terminator_index(bytes))) {
            Some(payload) => Ok(payload),
            None => Err(DecodeError::Malformed),
        }
    }
}

/// Finds the first terminator byte.
pub fn find_terminator(bytes: &[u8]) -> (found: Option<usize>)
    ensures
        match found {
            Some(i) => is_terminator_at(bytes@, i as int) && i as int == terminator_index(bytes@),
            None => !bytes@.contains(TERMINATOR),
        },
{
    let mut i: usize = 0;
    while i < bytes.len()
        invariant
            i <= bytes@.len(),
            forall|j: int| 0 <= j < i ==> bytes@[j] != TERMINATOR,
        decreases bytes@.len() - i,
    {
        if bytes[i] == TERMINATOR {
            proof {
                lemma_terminator_index_unique(bytes@, i as int);
            }
            return Some(i);
        }
        i += 1;
    }
    None
}

/// Builds the frame for `payload`: the stuffed payload, then the terminator.
///
/// The frame's only zero byte is its last byte, and a frame built from a
/// payload that is not empty gives that payload back when it is unframed.
pub fn frame(payload: &[u8]) -> (framed: Vec<u8>)
    ensures
        framed@ == spec_frame(payload@),
        ends_in_sole_terminator(framed@),
        payload@.len() > 0 ==> spec_unframe(framed@) == Ok::<Seq<u8>, DecodeError>(payload@),
{
    let mut framed = cobs::encode_vec(payload);
    let ghost stuffed = framed@;
    framed.push(TERMINATOR);
    proof {
        lemma_terminator_index_unique(framed@, stuffed.len() as int);
        assert(framed@.take(stuffed.len() as int) =~= stuffed);
    }
    framed
}

/// Takes the payload out of the first frame in `bytes`.
pub fn unframe(bytes: &[u8]) -> (payload: Result<Vec<u8>, DecodeError>)
    ensures
        match payload {
            Ok(p) => spec_unframe(bytes@) == Ok::<Seq<u8>, DecodeError>(p@),
            Err(e) => spec_unframe(bytes@) == Err::<Seq<u8>, DecodeError>(e),
        },
        payload == Err::<Vec<u8>, DecodeError>(DecodeError::Truncated) <==> !bytes@.contains(TERMINATOR),
{
    match find_terminator(bytes) {
        None => Err(DecodeError::Truncated),
        Some(end) => {
            let stuffed = slice_subrange(bytes, 0, end);
            assert(stuffed@ =~= bytes@.take(end as int));
            match cobs::decode_vec(stuffed) {
                Ok(decoded) => Ok(decoded),
                Err(_) => Err(DecodeError::Malformed),
            }
        },
    }
}

/// The first terminator byte of a sequence is where a scan from the front
/// first meets one, and nowhere else.
pub proof fn lemma_terminator_index_unique(bytes: Seq<u8>, i: int)
    requires
        is_terminator_at(bytes, i),
    ensures
        bytes.contains(TERMINATOR),
        terminator_index(bytes) == i,
{
    let k = terminator_index(bytes);
    assert(is_terminator_at(bytes, k));
    if k < i {
        assert(bytes[k] != TERMINATOR);
    } else if i < k {
        assert(bytes[i] != TERMINATOR);
    }
}

/// Among bytes that hold a terminator one terminator is the first.
pub proof fn lemma_terminator_index_exists(bytes: Seq<u8>)
    requires
        bytes.contains(TERMINATOR),
    ensures
        is_terminator_at(bytes, terminator_index(bytes)),
{
    lemma_terminator_from(bytes, 0);
}

/// Where no terminator stands before `from` and one stands somewhere, one
/// is the first.
proof fn lemma_terminator_from(bytes: Seq<u8>, from: int)
    requires
        0 <= from <= bytes.len(),
        forall|j: int| 0 <= j < from ==> bytes[j] != TERMINATOR,
        bytes.contains(TERMINATOR),
    ensures
        exists|i: int| is_terminator_at(bytes, i),
    decreases bytes.len() - from,
{
    if from == bytes.len() {
        let i = choose|i: int| 0 <= i < bytes.len() && bytes[i] == TERMINATOR;
        assert(bytes[i] != TERMINATOR);
    } else if bytes[from] == TERMINATOR {
        assert(is_terminator_at(bytes, from));
    } else {
        lemma_terminator_from(bytes, from + 1);
    }
}

/// What follows the first terminator plays no part in unframing: bytes that
/// hold a frame are unframed alike whatever comes after them.
pub proof fn lemma_unframe_stops_at_terminator(bytes: Seq<u8>, rest: Seq<u8>)
    requires
        bytes.contains(TERMINATOR),
    ensures
        (bytes + rest).contains(TERMINATOR),
        terminator_index(bytes + rest) == terminator_index(bytes),
        spec_unframe(bytes + rest) == spec_unframe(bytes),
{
    let end = terminator_index(bytes);
    lemma_terminator_index_exists(bytes);
    let all = bytes + rest;
    assert(forall|j: int| 0 <= j <= end ==> all[j] == bytes[j]);
    assert(is_terminator_at(all, end));
    lemma_terminator_index_unique(all, end);
    assert(all.take(end) =~= bytes.take(end));
}

} // verus!
