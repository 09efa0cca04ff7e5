//! Receiving from the byte stream, one byte at a time.
//!
//! A frame carries no length, so the reader cannot know that it is complete
//! before it has seen the terminator. It therefore reads single bytes, each
//! read bounded by a short timeout of the stream, until the terminator has
//! come or the time allowed for the whole frame is over.
//!
//! [`Receiver`] makes the decisions of that loop and keeps the bytes. The
//! caller asks [`Receiver::poll`] whether to go on, reads one byte, and hands
//! over what the read brought. Nothing is read after the terminator, so
//! what follows it stays in the stream for the next frame.

use vstd::prelude::*;
use crate::command::{
    lemma_from_bytes_stops_at_terminator, spec_from_bytes, Command, CommandView,
};
use crate::error::DecodeError;
use crate::framing::{
    ends_in_sole_terminator, is_terminator_at, lemma_terminator_index_exists,
    lemma_terminator_index_unique, terminator_index, TERMINATOR,
};

verus! {

/// What the caller is to do next.
#[derive(Copy, Clone, PartialEq, Eq, Debug, Structural)]
pub enum Poll {
    /// Read one byte from the stream and hand over what the read brought.
    Read,
    /// Stop reading: the frame is complete, or the time is over.
    Stop,
}

/// The bytes received so far, and what governs the reading.
#[derive(Debug)]
pub struct Receiver {
    data: Vec<u8>,
    timeout: u128,
    framed: bool,
    complete: bool,
}

/// A receiver as a mathematical value.
pub struct ReceiverView {
    /// The bytes received, in the order in which they came.
    pub data: Seq<u8>,
    /// The time allowed for the whole reading, in nanoseconds.
    pub timeout: u128,
    /// Whether a frame is read, so that the terminator ends the reading.
    pub framed: bool,
    /// Whether the terminator has come.
    pub complete: bool,
}

/// What holds of every receiver: once complete, its bytes end in the only
/// terminator among them; while it reads a frame that is not complete, there
/// is no terminator among them.
pub open spec fn well_formed(receiver: ReceiverView) -> bool {
    &&& receiver.complete ==> receiver.framed && ends_in_sole_terminator(receiver.data)
    &&& receiver.framed && !receiver.complete ==> !receiver.data.contains(TERMINATOR)
}

/// Whether to read on when `elapsed` nanoseconds have gone by.
pub open spec fn spec_poll(receiver: ReceiverView, elapsed: u128) -> Poll {
    if receiver.complete || elapsed > receiver.timeout {
        Poll::Stop
    } else {
        Poll::Read
    }
}

/// The receiver after a read: a byte that came is put at the end, and if a
/// frame is read and the byte is the terminator, the frame is complete. A
/// read that brought nothing changes nothing, and neither does anything that
/// comes after the frame is complete.
pub open spec fn spec_accept(receiver: ReceiverView, read: Option<u8>) -> ReceiverView {
    match read {
        Some(byte) if !receiver.complete => ReceiverView {
            data: receiver.data.push(byte),
            timeout: receiver.timeout,
            framed: receiver.framed,
            complete: receiver.framed && byte == TERMINATOR,
        },
        _ => receiver,
    }
}

/// The command that the first frame in `bytes` carries, if it carries one.
pub open spec fn spec_command_in(bytes: Seq<u8>) -> Option<CommandView> {
    match spec_from_bytes(bytes) {
        Ok(command) => Some(command),
        Err(_) => None,
    }
}

/// The command that a receiver has received, if it has received one.
pub open spec fn spec_finish(receiver: ReceiverView) -> Option<CommandView> {
    spec_command_in(receiver.data)
}

/// A receiver that has not read anything yet.
pub open spec fn spec_start(timeout: u128, framed: bool) -> ReceiverView {
    ReceiverView { data: Seq::empty(), timeout, framed, complete: false }
}

/// The receiver after a run of reads, the first of them first.
pub open spec fn spec_accept_all(receiver: ReceiverView, reads: Seq<Option<u8>>) -> ReceiverView
    decreases reads.len(),
{
    if reads.len() == 0 {
        receiver
    } else {
        spec_accept(spec_accept_all(receiver, reads.drop_last()), reads.last())
    }
}

/// The bytes that a run of reads brought, in the order in which they came.
pub open spec fn bytes_read(reads: Seq<Option<u8>>) -> Seq<u8>
    decreases reads.len(),
{
    if reads.len() == 0 {
        Seq::empty()
    } else {
        match reads.last() {
            Some(byte) => bytes_read(reads.drop_last()).push(byte),
            None => bytes_read(reads.drop_last()),
        }
    }
}

/// `bytes` up to its first terminator, the terminator included; all of
/// `bytes` where it holds none.
pub open spec fn first_frame(bytes: Seq<u8>) -> Seq<u8> {
    if bytes.contains(TERMINATOR) {
        bytes.take(terminator_index(bytes) + 1)
    } else {
        bytes
    }
}

impl View for Receiver {
    type V = ReceiverView;

    closed spec fn view(&self) -> ReceiverView {
        ReceiverView {
            data: self.data@,
            timeout: self.timeout,
            framed: self.framed,
            complete: self.complete,
        }
    }
}

impl Receiver {
    #[verifier::type_invariant]
    spec fn holds_together(self) -> bool {
        well_formed(self@)
    }

    /// A receiver for one frame, with `timeout` nanoseconds for all of it.
    pub fn framed(timeout: u128) -> (receiver: Receiver)
        ensures
            receiver@ == spec_start(timeout, true),
            well_formed(receiver@),
    {
        Receiver { data: Vec::new(), timeout, framed: true, complete: false }
    }

    /// A receiver for whatever comes within `timeout` nanoseconds, the
    /// terminator being a byte like any other.
    pub fn unframed(timeout: u128) -> (receiver: Receiver)
        ensures
            receiver@ == spec_start(timeout, false),
            well_formed(receiver@),
    {
        Receiver { data: Vec::new(), timeout, framed: false, complete: false }
    }

    /// Whether to read another byte, `elapsed` nanoseconds after the
    /// reading began.
    pub fn poll(&self, elapsed: u128) -> (poll: Poll)
        ensures
            poll == spec_poll(self@, elapsed),
    {
        if self.complete || elapsed > self.timeout {
            Poll::Stop
        } else {
            Poll::Read
        }
    }

    /// Takes what a read of one byte brought: the byte, or `None` where the
    /// read timed out or failed.
    pub fn accept(self, read: Option<u8>) -> (next: Receiver)
        ensures
            next@ == spec_accept(self@, read),
            well_formed(next@),
    {
        proof {
            use_type_invariant(&self);
            lemma_accept_keeps_well_formed(self@, read);
        }
        match read {
            Some(byte) if !self.complete => {
                let mut data = self.data;
                data.push(byte);
                Receiver {
                    data,
                    timeout: self.timeout,
                    framed: self.framed,
                    complete: self.framed && byte == TERMINATOR,
                }
            },
            _ => self,
        }
    }

    /// Whether the terminator has come.
    pub fn is_complete(&self) -> (complete: bool)
        ensures
            complete == self@.complete,
            well_formed(self@),
    {
        proof {
            use_type_invariant(self);
        }
        self.complete
    }

    /// The bytes received so far.
    pub fn received(&self) -> (data: &[u8])
        ensures
            data@ == self@.data,
            well_formed(self@),
    {
        proof {
            use_type_invariant(self);
        }
        self.data.as_slice()
    }

    /// Ends the reading and gives the bytes received.
    pub fn into_bytes(self) -> (data: Vec<u8>)
        ensures
            data@ == self@.data,
            well_formed(self@),
    {
        proof {
            use_type_invariant(&self);
        }
        self.data
    }

    /// Ends the reading and decodes what was received. Bytes that are no
    /// command give `None`: no command was received, and the caller may poll
    /// again. That is so whenever the time ran out on a frame.
    pub fn finish(self) -> (command: Option<Command>)
        ensures
            match command {
                Some(c) => spec_finish(self@) == Some(c@),
                None => spec_finish(self@) is None,
            },
            self@.framed && !self@.complete ==> command is None,
    {
        proof {
            use_type_invariant(&self);
            if self@.framed && !self@.complete {
                lemma_incomplete_frame_is_truncated(self@);
            }
        }
        match Command::from_bytes(self.data) {
            Ok(command) => Some(command),
            Err(_) => None,
        }
    }
}

/// A read keeps a receiver well formed.
pub proof fn lemma_accept_keeps_well_formed(receiver: ReceiverView, read: Option<u8>)
    requires
        well_formed(receiver),
    ensures
        well_formed(spec_accept(receiver, read)),
{
    let next = spec_accept(receiver, read);
    if let Some(byte) = read {
        if !receiver.complete && receiver.framed {
            assert forall|i: int| 0 <= i < receiver.data.len() implies receiver.data[i]
                != TERMINATOR by {
                assert(receiver.data.contains(receiver.data[i]));
            }
            if byte != TERMINATOR {
                assert forall|i: int| 0 <= i < next.data.len() implies next.data[i]
                    != TERMINATOR by {}
            }
        }
    }
}

/// A frame on which the time ran out holds no command: without the
/// terminator it is `Truncated`.
pub proof fn lemma_incomplete_frame_is_truncated(receiver: ReceiverView)
    requires
        well_formed(receiver),
        receiver.framed,
        !receiver.complete,
    ensures
        spec_from_bytes(receiver.data) == Err::<CommandView, DecodeError>(DecodeError::Truncated),
        spec_finish(receiver) is None,
{
}

/// Reading stops for good once the frame is complete or the time is over,
/// and goes on until then.
pub proof fn lemma_poll_stops(receiver: ReceiverView, elapsed: u128, later: u128)
    requires
        elapsed <= later,
    ensures
        spec_poll(receiver, elapsed) == Poll::Stop ==> spec_poll(receiver, later) == Poll::Stop,
        spec_poll(receiver, elapsed) == Poll::Read <==> !receiver.complete && elapsed
            <= receiver.timeout,
{
}

/// Whatever the reads bring, a receiver for a frame holds the bytes that
/// came up to the first terminator, that terminator included, and nothing
/// of what came after it. It is complete exactly when a terminator came.
pub proof fn lemma_framed_receiver_stops_at_terminator(timeout: u128, reads: Seq<Option<u8>>)
    ensures
        well_formed(spec_accept_all(spec_start(timeout, true), reads)),
        spec_accept_all(spec_start(timeout, true), reads).data == first_frame(bytes_read(reads)),
        spec_accept_all(spec_start(timeout, true), reads).complete == bytes_read(reads).contains(
            TERMINATOR,
        ),
        spec_accept_all(spec_start(timeout, true), reads).timeout == timeout,
        spec_accept_all(spec_start(timeout, true), reads).framed,
    decreases reads.len(),
{
    let start = spec_start(timeout, true);
    if reads.len() == 0 {
        assert(!start.data.contains(TERMINATOR));
    } else {
        let earlier = reads.drop_last();
        lemma_framed_receiver_stops_at_terminator(timeout, earlier);
        let before = spec_accept_all(start, earlier);
        lemma_accept_keeps_well_formed(before, reads.last());
        let came = bytes_read(earlier);
        if let Some(byte) = reads.last() {
            let all = came.push(byte);
            if came.contains(TERMINATOR) {
                let end = terminator_index(came);
                lemma_terminator_index_exists(came);
                assert(is_terminator_at(all, end));
                lemma_terminator_index_unique(all, end);
                assert(all.take(end + 1) =~= came.take(end + 1));
            } else {
                assert forall|i: int| 0 <= i < came.len() implies came[i] != TERMINATOR by {
                    assert(came.contains(came[i]));
                }
                if byte == TERMINATOR {
                    assert(is_terminator_at(all, came.len() as int));
                    lemma_terminator_index_unique(all, came.len() as int);
                    assert(all.take(came.len() as int + 1) =~= all);
                } else {
                    assert forall|i: int| 0 <= i < all.len() implies all[i] != TERMINATOR by {}
                }
            }
        }
    }
}

/// A receiver for a frame receives the command that the first frame among
/// the bytes that came carries, and none where there is no such command.
pub proof fn lemma_framed_receiver_decodes_stream(timeout: u128, reads: Seq<Option<u8>>)
    ensures
        spec_finish(spec_accept_all(spec_start(timeout, true), reads)) == spec_command_in(
            bytes_read(reads),
        ),
{
    lemma_framed_receiver_stops_at_terminator(timeout, reads);
    let came = bytes_read(reads);
    if came.contains(TERMINATOR) {
        let end = terminator_index(came);
        lemma_terminator_index_exists(came);
        let frame = came.take(end + 1);
        assert(frame[end] == TERMINATOR);
        assert(frame.contains(TERMINATOR));
        assert(frame + came.skip(end + 1) =~= came);
        lemma_from_bytes_stops_at_terminator(frame, came.skip(end + 1));
    }
}

/// Whatever the reads bring, a receiver that reads no frame holds all the
/// bytes that came and is never complete.
pub proof fn lemma_unframed_receiver_keeps_all(timeout: u128, reads: Seq<Option<u8>>)
    ensures
        spec_accept_all(spec_start(timeout, false), reads) == (ReceiverView {
            data: bytes_read(reads),
            timeout,
            framed: false,
            complete: false,
        }),
    decreases reads.len(),
{
    if reads.len() > 0 {
        lemma_unframed_receiver_keeps_all(timeout, reads.drop_last());
    }
}

} // verus!
