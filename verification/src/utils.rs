//! Shared pieces: the `Writeable` encoding contract, the 24-bit unsigned
//! integer of the wire format, and the default MIME type.

use crate::buffer::{
    bytes_mut_as_slice, bytes_mut_new, bytes_mut_to_vec, bytes_mut_view, get_u8, max_buffer_len,
    put_u8,
};
use crate::endian::{be24, be24_value};
use bytes::BytesMut;
use vstd::prelude::*;

verus! {

/// The MIME type that a connection announces when none is chosen.
pub const DEFAULT_MIME_TYPE: &'static str = "application/binary";

/// A responder that answers every request with the request itself.
pub struct EchoRSocket;

/// A value with a fixed binary encoding that it can append to a buffer.
pub trait Writeable {
    /// The bytes that encode this value.
    spec fn encoding(&self) -> Seq<u8>;

    /// Whether this value can be encoded without a failure.
    spec fn writable(&self) -> bool;

    /// The number that `len` reports.
    spec fn encoded_len(&self) -> int;

    /// Appends the encoding of this value to `bf`.
    fn write_to(&self, bf: &mut BytesMut)
        requires
            self.writable(),
            bytes_mut_view(*old(bf)).len() + self.encoding().len() <= max_buffer_len(),
        ensures
            bytes_mut_view(*final(bf)) == bytes_mut_view(*old(bf)) + self.encoding(),
    ;

    /// The number of bytes that encode this value.
    fn len(&self) -> (n: usize)
        requires
            self.encoded_len() <= usize::MAX,
        ensures
            n == self.encoded_len(),
    ;

    /// Whether `len` reports zero.
    fn is_empty(&self) -> (r: bool)
        requires
            self.encoded_len() <= usize::MAX,
        ensures
            r == (self.encoded_len() == 0),
    {
        self.len() == 0
    }

    /// The encoding of this value as a vector.
    fn bytes(&self) -> (v: Vec<u8>)
        requires
            self.writable(),
            self.encoding().len() <= max_buffer_len(),
        ensures
            v@ == self.encoding(),
    {
        let mut b = bytes_mut_new();
        self.write_to(&mut b);
        assert(bytes_mut_view(b) =~= self.encoding());
        bytes_mut_to_vec(&b)
    }
}

/// An unsigned integer of 24 bits, as the wire format writes lengths.
#[allow(non_camel_case_types)]
#[derive(Clone, Copy, Debug, Default)]
pub struct u24(u32);

impl View for u24 {
    type V = u32;

    closed spec fn view(&self) -> u32 {
        self.0
    }
}

impl u24 {
    pub const MAX: u32 = 0x00FF_FFFF;

    pub const MIN: u32 = 0;

    /// Whether the value fits in 24 bits, as every `u24` built here does.
    pub open spec fn wf(self) -> bool {
        self@ <= 0xFF_FFFF
    }

    /// The `u24` that holds `n`; `n` must fit in 24 bits.
    pub fn from_usize(n: usize) -> (r: u24)
        requires
            n <= 0xFF_FFFF,
        ensures
            r@ == n,
            r.wf(),
    {
        u24(n as u32)
    }

    /// The `u24` that holds `n`; `n` must fit in 24 bits.
    pub fn from_u32(n: u32) -> (r: u24)
        requires
            n <= 0xFF_FFFF,
        ensures
            r@ == n,
            r.wf(),
    {
        u24(n)
    }

    /// The value as a `usize`.
    pub fn as_usize(self) -> (n: usize)
        ensures
            n == self@,
    {
        self.0 as usize
    }

    /// The value as a `u32`.
    pub fn as_u32(self) -> (n: u32)
        ensures
            n == self@,
    {
        self.0
    }

    /// Reads a big-endian 24-bit number from the first three bytes of `b`.
    pub fn parse(b: &[u8]) -> (r: u24)
        requires
            b@.len() > 2,
        ensures
            r@ == be24_value(b@),
            r.wf(),
    {
        let mut n = 0u32;
        n = n + (b[0] as u32) * 0x10000;
        n = n + (b[1] as u32) * 0x100;
        n = n + b[2] as u32;
        u24(n)
    }

    /// Reads a big-endian 24-bit number from the first three bytes of `bf`,
    /// leaving `bf` as it was.
    pub fn read(bf: &mut BytesMut) -> (r: u24)
        requires
            bytes_mut_view(*old(bf)).len() > 2,
        ensures
            r@ == be24_value(bytes_mut_view(*old(bf))),
            bytes_mut_view(*final(bf)) == bytes_mut_view(*old(bf)),
            r.wf(),
    {
        Self::parse(bytes_mut_as_slice(bf))
    }

    /// Reads a big-endian 24-bit number from `bf` and consumes its three bytes.
    pub fn read_advance(bf: &mut BytesMut) -> (r: u24)
        requires
            bytes_mut_view(*old(bf)).len() > 2,
        ensures
            r@ == be24_value(bytes_mut_view(*old(bf))),
            bytes_mut_view(*final(bf)) == bytes_mut_view(*old(bf)).skip(3),
            r.wf(),
    {
        let b0 = get_u8(bf);
        let b1 = get_u8(bf);
        let b2 = get_u8(bf);
        let mut n = 0u32;
        n = n + (b0 as u32) * 0x10000;
        n = n + (b1 as u32) * 0x100;
        n = n + b2 as u32;
        u24(n)
    }
}

impl Writeable for u24 {
    open spec fn encoding(&self) -> Seq<u8> {
        be24(self@)
    }

    open spec fn writable(&self) -> bool {
        true
    }

    open spec fn encoded_len(&self) -> int {
        3
    }

    fn write_to(&self, bf: &mut BytesMut) {
        let v = self.0;
        put_u8(bf, ((v / 0x10000) % 0x100) as u8);
        put_u8(bf, ((v / 0x100) % 0x100) as u8);
        put_u8(bf, (v % 0x100) as u8);
        proof {
            assert(bytes_mut_view(*bf) =~= bytes_mut_view(*old(bf)) + be24(v));
        }
    }

    fn len(&self) -> (n: usize) {
        3
    }
}

} // verus!
