//! The growable byte buffer that encoded frames are written into.

use crate::bigendian::{be16_bytes, be32_bytes, be64_bytes};
use bytes::{BufMut, BytesMut};
use vstd::prelude::*;

verus! {

/// `bytes::BytesMut`, taken as it is: nothing of its inside is looked at, what
/// it holds is spoken of through [`contents`].
#[verifier::external_type_specification]
#[verifier::external_body]
pub struct ExBytesMut(bytes::BytesMut);

/// The bytes that a buffer holds, first to last.
pub uninterp spec fn contents(buf: BytesMut) -> Seq<u8>;

/// `BytesMut::new`: a buffer that holds nothing.
#[verifier::external_body]
pub(crate) fn new_buffer() -> (buf: BytesMut)
    ensures
        contents(buf) == Seq::<u8>::empty(),
{
    BytesMut::new()
}

/// `BytesMut::len`: the number of bytes held.
#[verifier::external_body]
pub(crate) fn buffer_len(buf: &BytesMut) -> (n: usize)
    ensures
        n == contents(*buf).len(),
{
    buf.len()
}

/// `AsRef<[u8]>` for `BytesMut`: the bytes held, as a slice.
#[verifier::external_body]
pub(crate) fn buffer_slice(buf: &BytesMut) -> (s: &[u8])
    ensures
        s@ == contents(*buf),
{
    buf.as_ref()
}

/// `BytesMut::extend_from_slice`: the slice is appended. It grows the buffer
/// as needed and panics only when the new length cannot be allocated, which
/// the bound leaves out.
#[verifier::external_body]
pub(crate) fn extend(buf: &mut BytesMut, src: &[u8])
    requires
        contents(*old(buf)).len() + src@.len() <= isize::MAX,
    ensures
        contents(*final(buf)) == contents(*old(buf)) + src@,
{
    buf.extend_from_slice(src)
}

/// `BufMut::put_u8` on a `BytesMut`: one byte is appended.
#[verifier::external_body]
pub(crate) fn put_u8(buf: &mut BytesMut, n: u8)
    requires
        contents(*old(buf)).len() + 1 <= isize::MAX,
    ensures
        contents(*final(buf)) == contents(*old(buf)).push(n),
{
    buf.put_u8(n)
}

/// `BufMut::put_u16` on a `BytesMut`: the two bytes of `n` are appended, most
/// significant first.
#[verifier::external_body]
pub(crate) fn put_u16(buf: &mut BytesMut, n: u16)
    requires
        contents(*old(buf)).len() + 2 <= isize::MAX,
    ensures
        contents(*final(buf)) == contents(*old(buf)) + be16_bytes(n),
{
    buf.put_u16(n)
}

/// `BufMut::put_u32` on a `BytesMut`: the four bytes of `n` are appended, most
/// significant first.
#[verifier::external_body]
pub(crate) fn put_u32(buf: &mut BytesMut, n: u32)
    requires
        contents(*old(buf)).len() + 4 <= isize::MAX,
    ensures
        contents(*final(buf)) == contents(*old(buf)) + be32_bytes(n),
{
    buf.put_u32(n)
}

/// `BufMut::put_u64` on a `BytesMut`: the eight bytes of `n` are appended, most
/// significant first.
#[verifier::external_body]
pub(crate) fn put_u64(buf: &mut BytesMut, n: u64)
    requires
        contents(*old(buf)).len() + 8 <= isize::MAX,
    ensures
        contents(*final(buf)) == contents(*old(buf)) + be64_bytes(n),
{
    buf.put_u64(n)
}

} // verus!
