//! The byte buffers of the `bytes` crate, as the rest of the library sees
//! them: a buffer is the sequence of bytes that it holds.

use bytes::{Buf, BufMut, Bytes, BytesMut};
use vstd::prelude::*;
use crate::codec;

verus! {

/// `bytes::Bytes`, an immutable byte string that is cheap to clone.
#[verifier::external_type_specification]
#[verifier::external_body]
pub struct ExBytes(Bytes);

/// `bytes::BytesMut`, a growable byte string that can be taken from the front.
#[verifier::external_type_specification]
#[verifier::external_body]
pub struct ExBytesMut(BytesMut);

/// The bytes that a `Bytes` holds.
pub uninterp spec fn bytes_of(b: Bytes) -> Seq<u8>;

/// The bytes that a `BytesMut` holds, from the read end to the write end.
pub uninterp spec fn buffer_of(b: BytesMut) -> Seq<u8>;

/// `Bytes::from(Vec<u8>)`: the new value holds the bytes of the vector.
#[verifier::external_body]
pub(crate) fn bytes_from_vec(data: Vec<u8>) -> (out: Bytes)
    ensures
        bytes_of(out) == data@,
{
    Bytes::from(data)
}

/// `Bytes` dereferences to the slice of the bytes that it holds.
#[verifier::external_body]
pub(crate) fn bytes_slice(b: &Bytes) -> (out: &[u8])
    ensures
        out@ == bytes_of(*b),
{
    &b[..]
}

/// `Bytes::clone`: both values hold the same bytes.
#[verifier::external_body]
pub(crate) fn bytes_clone(b: &Bytes) -> (out: Bytes)
    ensures
        bytes_of(out) == bytes_of(*b),
{
    b.clone()
}

/// `BytesMut::new`: an empty buffer.
#[verifier::external_body]
pub(crate) fn buffer_new() -> (out: BytesMut)
    ensures
        buffer_of(out) == Seq::<u8>::empty(),
{
    BytesMut::new()
}

/// `BytesMut` dereferences to the slice of the bytes that it holds.
#[verifier::external_body]
pub(crate) fn buffer_slice(b: &BytesMut) -> (out: &[u8])
    ensures
        out@ == buffer_of(*b),
{
    &b[..]
}

/// `BytesMut::reserve` makes room for `additional` bytes and leaves the
/// contents alone. It panics when the new length does not fit an allocation.
/// Room that lies before the read end and was not reclaimed counts there too;
/// nothing is said of memory that runs out.
#[verifier::external_body]
pub(crate) fn buffer_reserve(b: &mut BytesMut, additional: usize)
    requires
        buffer_of(*old(b)).len() + additional <= isize::MAX,
    ensures
        buffer_of(*final(b)) == buffer_of(*old(b)),
{
    b.reserve(additional);
}

/// `BufMut::put_u8` on a `BytesMut` appends one byte, growing the buffer.
#[verifier::external_body]
pub(crate) fn buffer_put_u8(b: &mut BytesMut, n: u8)
    requires
        buffer_of(*old(b)).len() + 1 <= isize::MAX,
    ensures
        buffer_of(*final(b)) == buffer_of(*old(b)).push(n),
{
    b.put_u8(n);
}

/// `BufMut::put_u16_le` on a `BytesMut` appends the two bytes of the number, the
/// lowest first.
#[verifier::external_body]
pub(crate) fn buffer_put_u16_le(b: &mut BytesMut, n: u16)
    requires
        buffer_of(*old(b)).len() + 2 <= isize::MAX,
    ensures
        buffer_of(*final(b)) == buffer_of(*old(b)) + codec::le_bytes(n as nat, 2),
{
    b.put_u16_le(n);
}

/// `BufMut::put_u32_le` on a `BytesMut` appends the four bytes of the number,
/// the lowest first.
#[verifier::external_body]
pub(crate) fn buffer_put_u32_le(b: &mut BytesMut, n: u32)
    requires
        buffer_of(*old(b)).len() + 4 <= isize::MAX,
    ensures
        buffer_of(*final(b)) == buffer_of(*old(b)) + codec::le_bytes(n as nat, 4),
{
    b.put_u32_le(n);
}

/// `BufMut::put_u64_le` on a `BytesMut` appends the eight bytes of the number,
/// the lowest first.
#[verifier::external_body]
pub(crate) fn buffer_put_u64_le(b: &mut BytesMut, n: u64)
    requires
        buffer_of(*old(b)).len() + 8 <= isize::MAX,
    ensures
        buffer_of(*final(b)) == buffer_of(*old(b)) + codec::le_bytes(n as nat, 8),
{
    b.put_u64_le(n);
}

/// `BufMut::put_slice` on a `BytesMut` appends the bytes of the slice, growing
/// the buffer.
#[verifier::external_body]
pub(crate) fn buffer_put_slice(b: &mut BytesMut, data: &[u8])
    requires
        buffer_of(*old(b)).len() + data@.len() <= isize::MAX,
    ensures
        buffer_of(*final(b)) == buffer_of(*old(b)) + data@,
{
    b.put_slice(data);
}

/// `Buf::advance` on a `BytesMut` drops the first `cnt` bytes. It panics when
/// the buffer holds fewer.
#[verifier::external_body]
pub(crate) fn buffer_advance(b: &mut BytesMut, cnt: usize)
    requires
        cnt <= buffer_of(*old(b)).len(),
    ensures
        buffer_of(*final(b)) == buffer_of(*old(b)).skip(cnt as int),
{
    b.advance(cnt);
}

/// `BytesMut::split_to` takes the first `at` bytes out of the buffer. It panics
/// when the buffer holds fewer.
#[verifier::external_body]
pub(crate) fn buffer_split_to(b: &mut BytesMut, at: usize) -> (out: BytesMut)
    requires
        at <= buffer_of(*old(b)).len(),
    ensures
        buffer_of(out) == buffer_of(*old(b)).take(at as int),
        buffer_of(*final(b)) == buffer_of(*old(b)).skip(at as int),
{
    b.split_to(at)
}

/// `BytesMut::freeze` turns the buffer into a `Bytes` of the same bytes.
#[verifier::external_body]
pub(crate) fn buffer_freeze(b: BytesMut) -> (out: Bytes)
    ensures
        bytes_of(out) == buffer_of(b),
{
    b.freeze()
}

/// `BytesMut::clear` empties the buffer.
#[verifier::external_body]
pub(crate) fn buffer_clear(b: &mut BytesMut)
    ensures
        buffer_of(*final(b)) == Seq::<u8>::empty(),
{
    b.clear();
}

} // verus!
