//! Small helpers on byte vectors.

use vstd::prelude::*;

verus! {

/// Appends `tail` to `bytes`.
pub(crate) fn append_bytes(bytes: &mut Vec<u8>, tail: &[u8])
    ensures
        final(bytes)@ == old(bytes)@ + tail@,
{
    bytes.extend_from_slice(tail);
    assert(bytes@ =~= old(bytes)@ + tail@);
}

/// Copies the bytes of `source` from position `from` on.
pub(crate) fn copy_from(source: &[u8], from: usize) -> (copy: Vec<u8>)
    requires
        from <= source@.len(),
    ensures
        copy@ == source@.skip(from as int),
{
    let mut copy: Vec<u8> = Vec::new();
    let mut i: usize = from;
    while i < source.len()
        invariant
            from <= i <= source@.len(),
            copy@ == source@.subrange(from as int, i as int),
        decreases source@.len() - i,
    {
        copy.push(source[i]);
        assert(copy@ =~= source@.subrange(from as int, i + 1));
        i += 1;
    }
    assert(copy@ =~= source@.skip(from as int));
    copy
}

/// Whether two byte strings are the same.
pub(crate) fn same_bytes(left: &[u8], right: &[u8]) -> (same: bool)
    ensures
        same == (left@ == right@),
{
    if left.len() != right.len() {
        return false;
    }
    let mut i: usize = 0;
    while i < left.len()
        invariant
            left@.len() == right@.len(),
            i <= left@.len(),
            left@.take(i as int) == right@.take(i as int),
        decreases left@.len() - i,
    {
        if left[i] != right[i] {
            return false;
        }
        assert(left@.take(i + 1) =~= left@.take(i as int).push(left@[i as int]));
        assert(right@.take(i + 1) =~= right@.take(i as int).push(right@[i as int]));
        i += 1;
    }
    assert(left@ =~= left@.take(i as int));
    assert(right@ =~= right@.take(i as int));
    true
}

} // verus!
