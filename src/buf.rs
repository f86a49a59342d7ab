//! The byte buffer that values are encoded into and decoded from:
//! `bytes::BytesMut`, seen through the sequence of bytes that it holds.
use vstd::prelude::*;

verus! {

#[verifier::external_type_specification]
#[verifier::external_body]
pub struct ExBytesMut(bytes::BytesMut);

/// The bytes that a buffer holds, from its read position to its end.
pub uninterp spec fn bytes_of(b: bytes::BytesMut) -> Seq<u8>;

/// Relies on `bytes::BufMut::put_u8` for `BytesMut`: the byte is appended at
/// the end (through `extend_from_slice`, which panics only past `isize::MAX`
/// bytes).
#[verifier::external_body]
pub(crate) fn put_u8(buf: &mut bytes::BytesMut, b: u8)
    requires
        bytes_of(*old(buf)).len() < isize::MAX,
    ensures
        bytes_of(*final(buf)) == bytes_of(*old(buf)).push(b),
{
    bytes::BufMut::put_u8(buf, b)
}

/// Relies on `bytes::Buf::remaining` for `BytesMut`: the number of bytes held.
#[verifier::external_body]
pub(crate) fn remaining(buf: &bytes::BytesMut) -> (r: usize)
    ensures
        r == bytes_of(*buf).len(),
{
    bytes::Buf::remaining(buf)
}

/// Relies on `bytes::Buf::get_u8` for `BytesMut`: returns the first byte and
/// advances past it; it panics on an empty buffer.
#[verifier::external_body]
pub(crate) fn get_u8(buf: &mut bytes::BytesMut) -> (r: u8)
    requires
        bytes_of(*old(buf)).len() > 0,
    ensures
        r == bytes_of(*old(buf))[0],
        bytes_of(*final(buf)) == bytes_of(*old(buf)).drop_first(),
{
    bytes::Buf::get_u8(buf)
}

} // verus!
