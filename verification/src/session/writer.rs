//! The write side of one stream: a message is serialised into a buffer,
//! and the buffer is drained by as many writes as the transport needs.

use crate::coding::{
    buffer_advance, buffer_chunk, buffer_clear, buffer_is_empty, buffer_len, buffer_new,
    buffered, encode_remaining, buffer_extend, remaining_check, Encode, EncodeError,
};
use crate::session::error::SessionError;
use vstd::prelude::*;

verus! {

/// Where the write loop stands after a write.
#[derive(Clone, Copy, Debug, PartialEq, Eq, Structural)]
pub enum Progress {
    /// Every byte has been written.
    Done,
    /// This many bytes are still to be written.
    Remaining(usize),
}

/// The rule of the write loop, on the bytes still to be written and the
/// number of bytes that a successful write accepted: no progress is an
/// error that names what remains; otherwise the accepted bytes leave.
pub open spec fn progress(pending: Seq<u8>, written: usize) -> Result<Seq<u8>, EncodeError> {
    if pending.len() == 0 {
        Ok(pending)
    } else if written == 0 {
        Err(EncodeError::More(pending.len() as usize))
    } else {
        Ok(pending.skip(written as int))
    }
}

/// How what remains reads as progress.
pub open spec fn progress_of(pending: Seq<u8>) -> Progress {
    if pending.len() == 0 {
        Progress::Done
    } else {
        Progress::Remaining(pending.len() as usize)
    }
}

/// What remains after a run of successful writes of the given sizes, or
/// the error at the first write that made no progress. Writes after the
/// last byte has left are not made.
pub open spec fn drain(pending: Seq<u8>, sizes: Seq<usize>) -> Result<Seq<u8>, EncodeError>
    decreases sizes.len(),
{
    if sizes.len() == 0 || pending.len() == 0 {
        Ok(pending)
    } else {
        match progress(pending, sizes[0]) {
            Ok(rest) => drain(rest, sizes.drop_first()),
            Err(e) => Err(e),
        }
    }
}

/// The sum of the sizes.
pub open spec fn total(sizes: Seq<usize>) -> int
    decreases sizes.len(),
{
    if sizes.len() == 0 {
        0
    } else {
        sizes[0] + total(sizes.drop_first())
    }
}

/// The buffer of one outbound stream.
pub struct Writer {
    buffer: bytes::BytesMut,
}

impl Writer {
    /// The bytes that are still to be written, first to last.
    pub closed spec fn pending(&self) -> Seq<u8> {
        buffered(self.buffer)
    }

    /// A writer with nothing to write.
    pub fn new() -> (w: Writer)
        ensures
            w.pending() == Seq::<u8>::empty(),
    {
        Writer { buffer: buffer_new() }
    }

    /// Serialises `msg` into the buffer, which is emptied first: on success
    /// exactly the message's bytes are to be written, whatever was there
    /// before. Whether the message can be serialised is the message's own
    /// matter.
    pub fn encode<T: Encode>(&mut self, msg: &T) -> (r: Result<(), SessionError>)
        ensures
            match msg.fits(0) {
                Ok(()) => r is Ok && final(self).pending() == msg.wire(),
                Err(e) => r == Err::<(), SessionError>(SessionError::Encode(e)),
            },
    {
        buffer_clear(&mut self.buffer);
        match msg.encode(&mut self.buffer) {
            Ok(()) => {
                assert(self.pending() =~= msg.wire());
                Ok(())
            },
            Err(e) => Err(SessionError::Encode(e)),
        }
    }

    /// Takes `buf` as it is for writing, in place of whatever was there.
    pub fn write(&mut self, buf: &[u8]) -> (r: Result<(), SessionError>)
        ensures
            match remaining_check(0, buf.len()) {
                Ok(()) => r is Ok && final(self).pending() == buf@,
                Err(e) => r == Err::<(), SessionError>(SessionError::Encode(e)),
            },
    {
        buffer_clear(&mut self.buffer);
        match encode_remaining(&self.buffer, buf.len()) {
            Ok(()) => {
                buffer_extend(&mut self.buffer, buf);
                assert(self.pending() =~= buf@);
                Ok(())
            },
            Err(e) => Err(SessionError::Encode(e)),
        }
    }

    /// Whether nothing is left to write.
    pub fn is_empty(&self) -> (e: bool)
        ensures
            e == (self.pending().len() == 0),
    {
        buffer_is_empty(&self.buffer)
    }

    /// The number of bytes still to be written.
    pub fn remaining(&self) -> (n: usize)
        ensures
            n == self.pending().len(),
    {
        buffer_len(&self.buffer)
    }

    /// The bytes to hand to the transport's next write.
    pub fn chunk(&self) -> (s: &[u8])
        ensures
            s@ == self.pending(),
    {
        buffer_chunk(&self.buffer)
    }

    /// Takes the outcome of the transport's write of `chunk()`: a transport
    /// error is passed on and leaves the buffer as it was; a write that
    /// accepted nothing while bytes remain is an error that names how
    /// many; otherwise the accepted bytes leave the buffer.
    pub fn advance(&mut self, outcome: Result<usize, web_transport::WriteError>) -> (r: Result<
        Progress,
        SessionError,
    >)
        requires
            outcome matches Ok(n) ==> n <= old(self).pending().len(),
        ensures
            match outcome {
                Err(e) => r == Err::<Progress, SessionError>(SessionError::Write(e))
                    && final(self).pending() == old(self).pending(),
                Ok(n) => match progress(old(self).pending(), n) {
                    Ok(rest) => final(self).pending() == rest && r == Ok::<Progress, SessionError>(
                        progress_of(rest),
                    ),
                    Err(e) => r == Err::<Progress, SessionError>(SessionError::Encode(e))
                        && final(self).pending() == old(self).pending(),
                },
            },
    {
        match outcome {
            Err(e) => Err(SessionError::Write(e)),
            Ok(n) => {
                let left = buffer_len(&self.buffer);
                if left == 0 {
                    Ok(Progress::Done)
                } else if n == 0 {
                    Err(SessionError::Encode(EncodeError::More(left)))
                } else {
                    buffer_advance(&mut self.buffer, n);
                    if left - n == 0 {
                        Ok(Progress::Done)
                    } else {
                        Ok(Progress::Remaining(left - n))
                    }
                }
            },
        }
    }
}

/// Writes that each accept at least one byte, and together as many as are
/// pending, drain the buffer: nothing remains and no error arises.
pub proof fn lemma_partial_writes_drain(pending: Seq<u8>, sizes: Seq<usize>)
    requires
        forall|i: int| 0 <= i < sizes.len() ==> #[trigger] sizes[i] > 0,
        total(sizes) == pending.len(),
    ensures
        drain(pending, sizes) == Ok::<Seq<u8>, EncodeError>(Seq::empty()),
    decreases sizes.len(),
{
    if sizes.len() == 0 {
        assert(pending =~= Seq::empty());
    } else {
        let rest = sizes.drop_first();
        lemma_total_nonnegative(rest);
        if pending.len() == 0 {
            assert(sizes[0] > 0);
        } else {
            assert(sizes[0] <= pending.len());
            assert forall|i: int| 0 <= i < rest.len() implies #[trigger] rest[i] > 0 by {
                assert(rest[i] == sizes[i + 1]);
            }
            lemma_partial_writes_drain(pending.skip(sizes[0] as int), rest);
        }
    }
}

/// A sum of sizes is not negative.
pub proof fn lemma_total_nonnegative(sizes: Seq<usize>)
    ensures
        total(sizes) >= 0,
    decreases sizes.len(),
{
    if sizes.len() > 0 {
        lemma_total_nonnegative(sizes.drop_first());
    }
}

/// A write that accepts nothing while bytes remain ends the loop with an
/// error that names what remains, however the writes before it went.
pub proof fn lemma_zero_write_fails(pending: Seq<u8>, sizes: Seq<usize>, at: int)
    requires
        0 <= at < sizes.len(),
        sizes[at] == 0,
        forall|i: int| 0 <= i < at ==> #[trigger] sizes[i] > 0,
        total(sizes.take(at)) < pending.len() <= usize::MAX,
    ensures
        drain(pending, sizes) == Err::<Seq<u8>, EncodeError>(
            EncodeError::More((pending.len() - total(sizes.take(at))) as usize),
        ),
    decreases at,
{
    if at == 0 {
        assert(sizes.take(0) =~= Seq::empty());
    } else {
        let rest = sizes.drop_first();
        assert(sizes.take(at).drop_first() =~= rest.take(at - 1));
        assert(sizes.take(at)[0] == sizes[0]);
        lemma_total_nonnegative(rest.take(at - 1));
        assert forall|i: int| 0 <= i < at - 1 implies #[trigger] rest[i] > 0 by {
            assert(rest[i] == sizes[i + 1]);
        }
        lemma_zero_write_fails(pending.skip(sizes[0] as int), rest, at - 1);
    }
}

} // verus!
