//! Payloads: immutable runs of bytes that are shared, not copied, between
//! the producer and every reader.

use vstd::prelude::*;

verus! {

/// `bytes::Bytes`, of which only the bytes it holds are spoken of.
#[verifier::external_type_specification]
#[verifier::external_body]
pub struct ExBytes(bytes::Bytes);

/// The bytes of a payload, first to last.
pub uninterp spec fn payload(b: bytes::Bytes) -> Seq<u8>;

/// `bytes::Bytes::from` for a `Vec<u8>`: the payload holds the vector's
/// bytes.
#[verifier::external_body]
pub(crate) fn bytes_from(v: Vec<u8>) -> (b: bytes::Bytes)
    ensures
        payload(b) == v@,
{
    bytes::Bytes::from(v)
}

/// `Clone::clone` of `bytes::Bytes`: another handle to the same bytes.
#[verifier::external_body]
pub(crate) fn bytes_clone(b: &bytes::Bytes) -> (c: bytes::Bytes)
    ensures
        payload(c) == payload(*b),
{
    b.clone()
}

/// `bytes::Bytes::len`: the number of bytes.
#[verifier::external_body]
pub(crate) fn bytes_len(b: &bytes::Bytes) -> (n: usize)
    ensures
        n == payload(*b).len(),
{
    b.len()
}

/// `AsRef<[u8]>::as_ref` of `bytes::Bytes`: the bytes as a slice.
#[verifier::external_body]
pub(crate) fn bytes_slice(b: &bytes::Bytes) -> (s: &[u8])
    ensures
        s@ == payload(*b),
{
    b.as_ref()
}

} // verus!
