//! File names as they arrive in a transfer: padded with NUL characters and
//! possibly with directories in front.

use vstd::prelude::*;
use vstd::string::{StrSliceExecFns, StringExecFns};

verus! {

/// The character that pads a name.
pub const PADDING: char = '\0';

/// The character that separates the segments of a path.
pub const SEPARATOR: char = '/';

/// `name` without the padding at its end.
pub open spec fn without_padding(name: Seq<char>) -> Seq<char>
    decreases name.len(),
{
    if name.len() > 0 && name.last() == PADDING {
        without_padding(name.drop_last())
    } else {
        name
    }
}

/// What follows the last separator in `path`; all of `path` where it has
/// none.
pub open spec fn last_segment(path: Seq<char>) -> Seq<char>
    decreases path.len(),
{
    if path.len() == 0 {
        path
    } else if path.last() == SEPARATOR {
        Seq::empty()
    } else {
        last_segment(path.drop_last()).push(path.last())
    }
}

/// The name under which a file sent as `name` is stored: the padding at the
/// end is dropped, and of a path only the last segment is kept.
pub open spec fn sanitized(name: Seq<char>) -> Seq<char> {
    last_segment(without_padding(name))
}

/// Where the padding of `name` begins: everything from `end` on is padding,
/// and the character before `end` is not.
pub open spec fn padding_starts_at(name: Seq<char>, end: int) -> bool {
    &&& 0 <= end <= name.len()
    &&& forall|i: int| end <= i < name.len() ==> name[i] == PADDING
    &&& end > 0 ==> name[end - 1] != PADDING
}

/// Where the last segment of `path` begins: no separator from `start` on,
/// and a separator, or nothing, before `start`.
pub open spec fn segment_starts_at(path: Seq<char>, start: int) -> bool {
    &&& 0 <= start <= path.len()
    &&& forall|i: int| start <= i < path.len() ==> path[i] != SEPARATOR
    &&& start > 0 ==> path[start - 1] == SEPARATOR
}

/// Makes the name under which a received file is stored.
pub fn sanitize(name: &str) -> (stored: String)
    ensures
        stored@ == sanitized(name@),
{
    let mut start: usize = 0;
    let mut end: usize = 0;
    let mut seen: usize = 0;
    let length = name.unicode_len();
    for c in it: name.chars()
        invariant
            it.seq() == name@,
            seen == it.index(),
            length == name@.len(),
            0 <= start <= end <= seen <= length,
            padding_starts_at(name@.take(seen as int), end as int),
            segment_starts_at(name@.take(end as int), start as int),
    {
        let ghost before = name@.take(seen as int);
        let ghost after = name@.take(seen + 1);
        assert(forall|i: int| 0 <= i < seen ==> after[i] == before[i]);
        assert(after[seen as int] == c);
        if c != PADDING {
            if c == SEPARATOR {
                start = seen + 1;
            } else {
                assert(forall|i: int|
                    0 <= i < end ==> name@.take(end as int)[i] == after[i]);
                assert forall|i: int| start <= i < seen + 1 implies after[i] != SEPARATOR by {
                    if i < end {
                        assert(name@.take(end as int)[i] != SEPARATOR);
                    } else if i < seen {
                        assert(before[i] == PADDING);
                    }
                }
            }
            end = seen + 1;
        }
        seen += 1;
    }
    assert(name@.take(seen as int) =~= name@);
    proof {
        lemma_without_padding(name@, end as int);
        lemma_last_segment(name@.take(end as int), start as int);
        assert(name@.take(end as int).skip(start as int) =~= name@.subrange(
            start as int,
            end as int,
        ));
    }
    String::from_str(name.substring_char(start, end))
}

/// Dropping the padding cuts the name where the padding begins.
pub proof fn lemma_without_padding(name: Seq<char>, end: int)
    requires
        padding_starts_at(name, end),
    ensures
        without_padding(name) == name.take(end),
    decreases name.len(),
{
    if name.len() > 0 && name.last() == PADDING {
        let shorter = name.drop_last();
        assert(end < name.len());
        lemma_without_padding(shorter, end);
        assert(shorter.take(end) =~= name.take(end));
    } else {
        assert(end == name.len());
        assert(name.take(end) =~= name);
    }
}

/// The last segment is what stands from its beginning on.
pub proof fn lemma_last_segment(path: Seq<char>, start: int)
    requires
        segment_starts_at(path, start),
    ensures
        last_segment(path) == path.skip(start),
    decreases path.len(),
{
    if path.len() == 0 {
        assert(path.skip(start) =~= path);
    } else if path.last() == SEPARATOR {
        assert(start == path.len());
        assert(path.skip(start) =~= Seq::<char>::empty());
    } else {
        let shorter = path.drop_last();
        assert(start < path.len());
        lemma_last_segment(shorter, start);
        assert(shorter.skip(start).push(path.last()) =~= path.skip(start));
    }
}

/// The stored name holds no separator and does not end in padding.
pub proof fn lemma_sanitized_is_plain(name: Seq<char>)
    ensures
        !sanitized(name).contains(SEPARATOR),
        sanitized(name).len() > 0 ==> sanitized(name).last() != PADDING,
        sanitized(name).len() <= name.len(),
{
    lemma_padding_is_cut(name);
    lemma_segment_is_plain(without_padding(name));
}

/// Without its padding a name is no longer and does not end in padding.
proof fn lemma_padding_is_cut(name: Seq<char>)
    ensures
        without_padding(name).len() <= name.len(),
        without_padding(name).len() > 0 ==> without_padding(name).last() != PADDING,
    decreases name.len(),
{
    if name.len() > 0 && name.last() == PADDING {
        lemma_padding_is_cut(name.drop_last());
    }
}

/// The last segment holds no separator, is no longer than the path, and
/// ends as the path does.
proof fn lemma_segment_is_plain(path: Seq<char>)
    ensures
        !last_segment(path).contains(SEPARATOR),
        last_segment(path).len() <= path.len(),
        last_segment(path).len() > 0 ==> last_segment(path).last() == path.last(),
    decreases path.len(),
{
    if path.len() > 0 && path.last() != SEPARATOR {
        lemma_segment_is_plain(path.drop_last());
        let head = last_segment(path.drop_last());
        assert forall|i: int| 0 <= i < head.push(path.last()).len() implies head.push(
            path.last(),
        )[i] != SEPARATOR by {
            if i < head.len() {
                assert(head.contains(head[i]));
            }
        }
    }
}

} // verus!
