//! Byte stuffing, as done by the `cobs` crate.
//!
//! The functions of that crate are called as they are. What they return is
//! not defined here: it is named, and the few facts that the rest of the
//! library relies on are stated with the names. None of this is proved.

use vstd::prelude::*;

verus! {

/// The bytes that `cobs::encode_vec` returns for `source`.
pub uninterp spec fn cobs_encoded(source: Seq<u8>) -> Seq<u8>;

/// What `cobs::decode_vec` makes of `source`: the bytes it decodes to, or
/// `None` where it reports an error.
pub uninterp spec fn cobs_decoded(source: Seq<u8>) -> Option<Seq<u8>>;

/// `cobs::encode_vec` stuffs `source` so that the zero byte no longer
/// occurs. For a `source` that is not empty, `cobs::decode_vec` turns the
/// stuffed bytes back into `source`. (An empty `source` is stuffed to no
/// bytes at all, which the decoder rejects.)
pub assume_specification[ cobs::encode_vec ](source: &[u8]) -> (stuffed: Vec<u8>)
    ensures
        stuffed@ == cobs_encoded(source@),
        forall|i: int| 0 <= i < stuffed@.len() ==> stuffed@[i] != 0,
        source@.len() > 0 ==> cobs_decoded(stuffed@) == Some(source@),
;

/// `cobs::decode_vec` either decodes `source` or reports an error; which of
/// the two, and the decoded bytes, depend on `source` alone.
pub assume_specification[ cobs::decode_vec ](source: &[u8]) -> (decoded: Result<Vec<u8>, ()>)
    ensures
        match decoded {
            Ok(bytes) => cobs_decoded(source@) == Some(bytes@),
            Err(_) => cobs_decoded(source@) is None,
        },
;

} // verus!
