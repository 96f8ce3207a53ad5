//! The buffer that messages are serialised into, and the contract that a
//! message type meets to be written to a stream.

use bytes::Buf;
use bytes::BufMut;
use vstd::prelude::*;

verus! {

/// `bytes::BytesMut`, of which only the bytes it holds are spoken of.
#[verifier::external_type_specification]
#[verifier::external_body]
pub struct ExBytesMut(bytes::BytesMut);

/// The bytes that a buffer holds, first to last.
pub uninterp spec fn buffered(b: bytes::BytesMut) -> Seq<u8>;

/// The largest number of bytes a buffer can hold.
pub open spec fn buffer_limit() -> int {
    isize::MAX as int
}

/// Why a message could not be serialised.
#[derive(Clone, Copy, Debug, PartialEq, Eq, Structural)]
pub enum EncodeError {
    /// The buffer is short by this many bytes.
    More(usize),
    /// A number does not fit the encoding.
    BoundsExceeded,
    /// A field holds a value that has no encoding.
    InvalidValue,
}

/// `bytes::BytesMut::new`: the new buffer holds nothing.
#[verifier::external_body]
pub(crate) fn buffer_new() -> (b: bytes::BytesMut)
    ensures
        buffered(b) == Seq::<u8>::empty(),
{
    bytes::BytesMut::new()
}

/// `bytes::BytesMut::clear`: afterwards the buffer holds nothing.
#[verifier::external_body]
pub(crate) fn buffer_clear(b: &mut bytes::BytesMut)
    ensures
        buffered(*final(b)) == Seq::<u8>::empty(),
{
    b.clear()
}

/// `bytes::BytesMut::len`: the number of bytes held.
#[verifier::external_body]
pub(crate) fn buffer_len(b: &bytes::BytesMut) -> (n: usize)
    ensures
        n == buffered(*b).len(),
{
    b.len()
}

/// `bytes::BytesMut::is_empty`: whether no byte is held.
#[verifier::external_body]
pub(crate) fn buffer_is_empty(b: &bytes::BytesMut) -> (e: bool)
    ensures
        e == (buffered(*b).len() == 0),
{
    b.is_empty()
}

/// `bytes::BufMut::remaining_mut` of `BytesMut`: the room left up to the
/// largest allocation.
#[verifier::external_body]
pub(crate) fn buffer_remaining_mut(b: &bytes::BytesMut) -> (n: usize)
    ensures
        n == buffer_limit() - buffered(*b).len(),
{
    b.remaining_mut()
}

/// `bytes::BytesMut::extend_from_slice`: the bytes of `src` follow what was
/// held. The call panics when the new length overflows, which `requires`
/// leaves out.
#[verifier::external_body]
pub(crate) fn buffer_extend(b: &mut bytes::BytesMut, src: &[u8])
    requires
        buffered(*old(b)).len() + src@.len() <= buffer_limit(),
    ensures
        buffered(*final(b)) == buffered(*old(b)) + src@,
{
    b.extend_from_slice(src)
}

/// `bytes::Buf::advance` of `BytesMut`: the first `cnt` bytes leave. The
/// call panics when `cnt` exceeds what is held, which `requires` leaves out.
#[verifier::external_body]
pub(crate) fn buffer_advance(b: &mut bytes::BytesMut, cnt: usize)
    requires
        cnt <= buffered(*old(b)).len(),
    ensures
        buffered(*final(b)) == buffered(*old(b)).skip(cnt as int),
{
    b.advance(cnt)
}

/// `bytes::Buf::chunk` of `BytesMut`: a view of all the bytes held.
#[verifier::external_body]
pub(crate) fn buffer_chunk(b: &bytes::BytesMut) -> (s: &[u8])
    ensures
        s@ == buffered(*b),
{
    b.chunk()
}

/// A message that can be serialised into a buffer.
pub trait Encode {
    /// The bytes that stand for this message on the wire.
    spec fn wire(&self) -> Seq<u8>;

    /// Whether the message can be appended to a buffer that holds `held`
    /// bytes, and the error if it cannot.
    spec fn fits(&self, held: nat) -> Result<(), EncodeError>;

    /// Appends the message to `w`: it succeeds or fails as `fits` says, and
    /// on success exactly `wire()` was added.
    fn encode(&self, w: &mut bytes::BytesMut) -> (r: Result<(), EncodeError>)
        ensures
            r == self.fits(buffered(*old(w)).len()),
            r is Ok ==> buffered(*final(w)) == buffered(*old(w)) + self.wire(),
    ;
}

/// Checks that `required` more bytes fit into `w`, and says by how many
/// bytes it is short when they do not.
pub fn encode_remaining(w: &bytes::BytesMut, required: usize) -> (r: Result<(), EncodeError>)
    ensures
        r == remaining_check(buffered(*w).len(), required),
        r matches Err(EncodeError::More(n)) ==> n > 0,
{
    let room = buffer_remaining_mut(w);
    if required > room {
        Err(EncodeError::More(required - room))
    } else {
        Ok(())
    }
}

/// The outcome of asking for `required` bytes of room in a buffer that
/// already holds `held`.
pub open spec fn remaining_check(held: nat, required: usize) -> Result<(), EncodeError> {
    if held + required > buffer_limit() {
        Err(EncodeError::More((held + required - buffer_limit()) as usize))
    } else {
        Ok(())
    }
}

/// Raw bytes are their own encoding.
impl Encode for Vec<u8> {
    open spec fn wire(&self) -> Seq<u8> {
        self@
    }

    open spec fn fits(&self, held: nat) -> Result<(), EncodeError> {
        remaining_check(held, self.len())
    }

    fn encode(&self, w: &mut bytes::BytesMut) -> (r: Result<(), EncodeError>)
        ensures
            r is Err ==> buffered(*final(w)) == buffered(*old(w)),
    {
        match encode_remaining(w, self.len()) {
            Err(e) => Err(e),
            Ok(()) => {
                buffer_extend(w, self.as_slice());
                Ok(())
            },
        }
    }
}

} // verus!
