//! The response byte buffer, an outside type: `bytes::BytesMut`, held
//! behind a small trusted boundary that names the bytes it holds.

use vstd::prelude::*;

verus! {

#[verifier::external_type_specification]
#[verifier::external_body]
pub struct ExBytesMut(bytes::BytesMut);

/// The bytes a buffer holds, from front to back.
pub uninterp spec fn buf_bytes(b: bytes::BytesMut) -> Seq<u8>;

/// Relies on bytes::BytesMut::with_capacity: the new buffer is empty
/// (its length is zero; the capacity is only a reallocation hint).
#[verifier::external_body]
pub(crate) fn buf_with_capacity(cap: usize) -> (b: bytes::BytesMut)
    ensures
        buf_bytes(b) == Seq::<u8>::empty(),
{
    bytes::BytesMut::with_capacity(cap)
}

/// Relies on bytes::BytesMut::extend_from_slice: it appends the slice's
/// bytes, in order, after the bytes the buffer already holds.
#[verifier::external_body]
pub(crate) fn buf_extend(b: &mut bytes::BytesMut, s: &[u8])
    ensures
        buf_bytes(*final(b)) == buf_bytes(*old(b)) + s@,
{
    b.extend_from_slice(s)
}

} // verus!
