//! The growable byte buffer of the `bytes` crate, as the migration framer uses
//! it: bytes are appended at the back and consumed from the front.

use bytes::{Buf, BufMut, BytesMut};
use vstd::bytes::{spec_u32_to_le_bytes, spec_u64_from_le_bytes, spec_u64_to_le_bytes};
use vstd::prelude::*;

verus! {

#[verifier::external_type_specification]
#[verifier::external_body]
pub struct ExBytesMut(BytesMut);

/// The bytes a `BytesMut` holds, front first.
pub uninterp spec fn buf_contents(b: BytesMut) -> Seq<u8>;

/// `Buf::remaining` on a `BytesMut`: the number of bytes it holds.
#[verifier::external_body]
pub(crate) fn buf_remaining(b: &BytesMut) -> (n: usize)
    ensures
        n == buf_contents(*b).len(),
{
    b.remaining()
}

/// `BytesMut::reserve`: grows the capacity; the bytes held are unchanged.
#[verifier::external_body]
pub(crate) fn buf_reserve(b: &mut BytesMut, additional: usize)
    requires
        buf_contents(*old(b)).len() + additional <= isize::MAX,
    ensures
        buf_contents(*final(b)) == buf_contents(*old(b)),
{
    b.reserve(additional)
}

/// `BufMut::put_u8` on a `BytesMut`: appends one byte.
#[verifier::external_body]
pub(crate) fn buf_put_u8(b: &mut BytesMut, n: u8)
    requires
        buf_contents(*old(b)).len() + 1 <= isize::MAX,
    ensures
        buf_contents(*final(b)) == buf_contents(*old(b)).push(n),
{
    b.put_u8(n)
}

/// `BufMut::put_u32_le` on a `BytesMut`: appends the 4 little-endian bytes of `n`.
#[verifier::external_body]
pub(crate) fn buf_put_u32_le(b: &mut BytesMut, n: u32)
    requires
        buf_contents(*old(b)).len() + 4 <= isize::MAX,
    ensures
        buf_contents(*final(b)) == buf_contents(*old(b)) + spec_u32_to_le_bytes(n),
{
    b.put_u32_le(n)
}

/// `BufMut::put_u64_le` on a `BytesMut`: appends the 8 little-endian bytes of `n`.
#[verifier::external_body]
pub(crate) fn buf_put_u64_le(b: &mut BytesMut, n: u64)
    requires
        buf_contents(*old(b)).len() + 8 <= isize::MAX,
    ensures
        buf_contents(*final(b)) == buf_contents(*old(b)) + spec_u64_to_le_bytes(n),
{
    b.put_u64_le(n)
}

/// `BufMut::put` of a byte slice on a `BytesMut`: appends the slice.
#[verifier::external_body]
pub(crate) fn buf_put(b: &mut BytesMut, src: &[u8])
    requires
        buf_contents(*old(b)).len() + src@.len() <= isize::MAX,
    ensures
        buf_contents(*final(b)) == buf_contents(*old(b)) + src@,
{
    b.put(src)
}

/// `Buf::get_u64_le` on a `BytesMut`: reads the first 8 bytes as a
/// little-endian integer and consumes them.
#[verifier::external_body]
pub(crate) fn buf_get_u64_le(b: &mut BytesMut) -> (n: u64)
    requires
        buf_contents(*old(b)).len() >= 8,
    ensures
        n == spec_u64_from_le_bytes(buf_contents(*old(b)).take(8)),
        buf_contents(*final(b)) == buf_contents(*old(b)).skip(8),
{
    b.get_u64_le()
}

/// `Buf::advance` on a `BytesMut`: drops the first `cnt` bytes.
#[verifier::external_body]
pub(crate) fn buf_advance(b: &mut BytesMut, cnt: usize)
    requires
        cnt <= buf_contents(*old(b)).len(),
    ensures
        buf_contents(*final(b)) == buf_contents(*old(b)).skip(cnt as int),
{
    b.advance(cnt)
}

/// `Deref` of a `BytesMut` to the slice of the bytes it holds.
#[verifier::external_body]
pub(crate) fn buf_as_slice(b: &BytesMut) -> (s: &[u8])
    ensures
        s@ == buf_contents(*b),
{
    b
}

} // verus!
