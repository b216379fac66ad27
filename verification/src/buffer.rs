//! The byte buffers of the `bytes` crate, as the library uses them: each
//! buffer is seen through the sequence of bytes that it holds.
//!
//! Every item here is trusted: its contract restates what the `bytes`
//! crate's source (version 1.12) does, and nothing below proves it.

use crate::endian::{be16, be16_value, be32, be32_value, be64, be64_value};
use bytes::{Buf, BufMut, Bytes, BytesMut};
use vstd::prelude::*;
use vstd::utf8::{decode_utf8, valid_utf8};

verus! {

/// `bytes::Bytes`, an immutable, cheaply cloned byte buffer.
#[verifier::external_type_specification]
#[verifier::external_body]
pub struct ExBytes(Bytes);

/// `bytes::BytesMut`, a growable byte buffer read from its front.
#[verifier::external_type_specification]
#[verifier::external_body]
pub struct ExBytesMut(BytesMut);

/// The bytes that a `Bytes` holds, in order.
pub uninterp spec fn bytes_view(b: Bytes) -> Seq<u8>;

/// The bytes that a `BytesMut` holds, in order, from the read position on.
pub uninterp spec fn bytes_mut_view(b: BytesMut) -> Seq<u8>;

/// The largest number of bytes that a buffer can grow to: one allocation
/// holds at most `isize::MAX` bytes, and `BytesMut` panics beyond it.
pub open spec fn max_buffer_len() -> int {
    isize::MAX as int
}

/// `Bytes::len`: the number of bytes held.
#[verifier::external_body]
pub(crate) fn bytes_len(b: &Bytes) -> (n: usize)
    ensures
        n == bytes_view(*b).len(),
{
    b.len()
}

/// `Bytes::from(Vec<u8>)`: a buffer that holds the vector's bytes.
#[verifier::external_body]
pub(crate) fn bytes_from_vec(v: Vec<u8>) -> (b: Bytes)
    ensures
        bytes_view(b) == v@,
{
    Bytes::from(v)
}

/// `<[u8]>::to_vec` on the bytes that a `Bytes` holds.
#[verifier::external_body]
pub(crate) fn bytes_to_vec(b: &Bytes) -> (v: Vec<u8>)
    ensures
        v@ == bytes_view(*b),
{
    b.to_vec()
}

/// `Bytes::copy_from_slice`: a buffer that holds a copy of the slice.
#[verifier::external_body]
pub(crate) fn bytes_copy_from_slice(s: &[u8]) -> (b: Bytes)
    ensures
        bytes_view(b) == s@,
{
    Bytes::copy_from_slice(s)
}

/// `std::str::from_utf8` on the bytes that a `Bytes` holds: the text they
/// encode when they are valid UTF-8, and nothing otherwise.
#[verifier::external_body]
pub(crate) fn bytes_to_str(b: &Bytes) -> (r: Option<&str>)
    ensures
        r is Some <==> valid_utf8(bytes_view(*b)),
        r matches Some(t) ==> t@ == decode_utf8(bytes_view(*b)),
{
    std::str::from_utf8(b).ok()
}

/// `Bytes::clone`: a second handle on the same bytes.
#[verifier::external_body]
pub(crate) fn bytes_clone(b: &Bytes) -> (c: Bytes)
    ensures
        bytes_view(c) == bytes_view(*b),
{
    b.clone()
}

/// `Bytes::split_to`: takes the first `at` bytes out of the buffer.
#[verifier::external_body]
pub(crate) fn bytes_split_to(b: &mut Bytes, at: usize) -> (front: Bytes)
    requires
        at <= bytes_view(*old(b)).len(),
    ensures
        bytes_view(front) == bytes_view(*old(b)).take(at as int),
        bytes_view(*final(b)) == bytes_view(*old(b)).skip(at as int),
{
    b.split_to(at)
}

/// `BytesMut::new`: an empty buffer.
#[verifier::external_body]
pub(crate) fn bytes_mut_new() -> (b: BytesMut)
    ensures
        bytes_mut_view(b) == Seq::<u8>::empty(),
{
    BytesMut::new()
}

/// `BytesMut::len`: the number of bytes left to read.
#[verifier::external_body]
pub(crate) fn bytes_mut_len(b: &BytesMut) -> (n: usize)
    ensures
        n == bytes_mut_view(*b).len(),
{
    b.len()
}

/// `BytesMut::freeze`: the same bytes as an immutable `Bytes`.
#[verifier::external_body]
pub(crate) fn freeze(b: BytesMut) -> (r: Bytes)
    ensures
        bytes_view(r) == bytes_mut_view(b),
{
    b.freeze()
}

/// `BytesMut::split_to`: takes the first `at` bytes out of the buffer.
#[verifier::external_body]
pub(crate) fn split_to(b: &mut BytesMut, at: usize) -> (front: BytesMut)
    requires
        at <= bytes_mut_view(*old(b)).len(),
    ensures
        bytes_mut_view(front) == bytes_mut_view(*old(b)).take(at as int),
        bytes_mut_view(*final(b)) == bytes_mut_view(*old(b)).skip(at as int),
{
    b.split_to(at)
}

/// `BytesMut::split`: takes all bytes out of the buffer.
#[verifier::external_body]
pub(crate) fn split_all(b: &mut BytesMut) -> (all: BytesMut)
    ensures
        bytes_mut_view(all) == bytes_mut_view(*old(b)),
        bytes_mut_view(*final(b)) == Seq::<u8>::empty(),
{
    b.split()
}

/// `BytesMut` as a slice (its `Deref`): the bytes it holds.
#[verifier::external_body]
pub(crate) fn bytes_mut_as_slice(b: &BytesMut) -> (s: &[u8])
    ensures
        s@ == bytes_mut_view(*b),
{
    b
}

/// `<[u8]>::to_vec` on the bytes that a `BytesMut` holds.
#[verifier::external_body]
pub(crate) fn bytes_mut_to_vec(b: &BytesMut) -> (v: Vec<u8>)
    ensures
        v@ == bytes_mut_view(*b),
{
    b.to_vec()
}

/// `Buf::get_u8` on a `BytesMut`: reads and consumes the first byte.
#[verifier::external_body]
pub(crate) fn get_u8(b: &mut BytesMut) -> (v: u8)
    requires
        bytes_mut_view(*old(b)).len() >= 1,
    ensures
        v == bytes_mut_view(*old(b))[0],
        bytes_mut_view(*final(b)) == bytes_mut_view(*old(b)).skip(1),
{
    b.get_u8()
}

/// `Buf::get_u16` on a `BytesMut`: reads and consumes a big-endian `u16`.
#[verifier::external_body]
pub(crate) fn get_u16(b: &mut BytesMut) -> (v: u16)
    requires
        bytes_mut_view(*old(b)).len() >= 2,
    ensures
        v == be16_value(bytes_mut_view(*old(b))),
        bytes_mut_view(*final(b)) == bytes_mut_view(*old(b)).skip(2),
{
    b.get_u16()
}

/// `Buf::get_u32` on a `BytesMut`: reads and consumes a big-endian `u32`.
#[verifier::external_body]
pub(crate) fn get_u32(b: &mut BytesMut) -> (v: u32)
    requires
        bytes_mut_view(*old(b)).len() >= 4,
    ensures
        v == be32_value(bytes_mut_view(*old(b))),
        bytes_mut_view(*final(b)) == bytes_mut_view(*old(b)).skip(4),
{
    b.get_u32()
}

/// `Buf::get_u64` on a `BytesMut`: reads and consumes a big-endian `u64`.
#[verifier::external_body]
pub(crate) fn get_u64(b: &mut BytesMut) -> (v: u64)
    requires
        bytes_mut_view(*old(b)).len() >= 8,
    ensures
        v == be64_value(bytes_mut_view(*old(b))),
        bytes_mut_view(*final(b)) == bytes_mut_view(*old(b)).skip(8),
{
    b.get_u64()
}

/// `BufMut::put_u8` on a `BytesMut`: appends one byte.
#[verifier::external_body]
pub(crate) fn put_u8(b: &mut BytesMut, v: u8)
    requires
        bytes_mut_view(*old(b)).len() + 1 <= max_buffer_len(),
    ensures
        bytes_mut_view(*final(b)) == bytes_mut_view(*old(b)).push(v),
{
    b.put_u8(v)
}

/// `BufMut::put_u16` on a `BytesMut`: appends `v` in big-endian order.
#[verifier::external_body]
pub(crate) fn put_u16(b: &mut BytesMut, v: u16)
    requires
        bytes_mut_view(*old(b)).len() + 2 <= max_buffer_len(),
    ensures
        bytes_mut_view(*final(b)) == bytes_mut_view(*old(b)) + be16(v),
{
    b.put_u16(v)
}

/// `BufMut::put_u32` on a `BytesMut`: appends `v` in big-endian order.
#[verifier::external_body]
pub(crate) fn put_u32(b: &mut BytesMut, v: u32)
    requires
        bytes_mut_view(*old(b)).len() + 4 <= max_buffer_len(),
    ensures
        bytes_mut_view(*final(b)) == bytes_mut_view(*old(b)) + be32(v),
{
    b.put_u32(v)
}

/// `BufMut::put_u64` on a `BytesMut`: appends `v` in big-endian order.
#[verifier::external_body]
pub(crate) fn put_u64(b: &mut BytesMut, v: u64)
    requires
        bytes_mut_view(*old(b)).len() + 8 <= max_buffer_len(),
    ensures
        bytes_mut_view(*final(b)) == bytes_mut_view(*old(b)) + be64(v),
{
    b.put_u64(v)
}

/// `BytesMut::extend_from_slice` with a slice: appends its bytes.
#[verifier::external_body]
pub(crate) fn extend_from_slice(b: &mut BytesMut, s: &[u8])
    requires
        bytes_mut_view(*old(b)).len() + s@.len() <= max_buffer_len(),
    ensures
        bytes_mut_view(*final(b)) == bytes_mut_view(*old(b)) + s@,
{
    b.extend_from_slice(s)
}

/// `BytesMut::extend_from_slice` with the bytes of a `Bytes`: appends them.
#[verifier::external_body]
pub(crate) fn extend_from_bytes(b: &mut BytesMut, s: &Bytes)
    requires
        bytes_mut_view(*old(b)).len() + bytes_view(*s).len() <= max_buffer_len(),
    ensures
        bytes_mut_view(*final(b)) == bytes_mut_view(*old(b)) + bytes_view(*s),
{
    b.extend_from_slice(s)
}

} // verus!
