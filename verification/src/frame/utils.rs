//! The metadata-and-data tail that several frames share, and the outcome
//! of decoding a part of a frame.

use crate::buffer::{
    bytes_len, bytes_mut_len, bytes_mut_view, bytes_view, extend_from_bytes, freeze, max_buffer_len,
    split_all, split_to,
};
use crate::endian::{be24, be24_value};
use crate::error::RSocketError;
use crate::utils::{u24, Writeable};
use bytes::{Bytes, BytesMut};
use vstd::prelude::*;

verus! {

/// The flag bit that announces metadata in a frame.
pub const METADATA_BIT: u16 = 0x100;

/// What decoding a part of a frame from a sequence of bytes gives.
pub enum Decoding<V> {
    /// The part, and the bytes left in the buffer after it.
    Done { value: V, rest: Seq<u8> },
    /// The bytes ended too early: `InCompleteFrame`, with what is left.
    Incomplete { rest: Seq<u8> },
    /// The bytes announce more than they hold: decoding them panics.
    Undefined,
}

impl<V> Decoding<V> {
    /// The same outcome with the part changed by `f`.
    pub open spec fn map<W>(self, f: spec_fn(V) -> W) -> Decoding<W> {
        match self {
            Decoding::Done { value, rest } => Decoding::Done { value: f(value), rest },
            Decoding::Incomplete { rest } => Decoding::Incomplete { rest },
            Decoding::Undefined => Decoding::Undefined,
        }
    }
}

/// The bytes of an optional buffer.
pub open spec fn opt_bytes(o: Option<Bytes>) -> Option<Seq<u8>> {
    match o {
        Some(b) => Some(bytes_view(b)),
        None => None,
    }
}

/// The bytes of an optional buffer behind a reference.
pub open spec fn opt_ref_bytes(o: Option<&Bytes>) -> Option<Seq<u8>> {
    match o {
        Some(b) => Some(bytes_view(*b)),
        None => None,
    }
}

/// The bytes of an optional sequence; none when it is absent.
pub open spec fn or_empty(o: Option<Seq<u8>>) -> Seq<u8> {
    match o {
        Some(s) => s,
        None => Seq::empty(),
    }
}

/// The sequence, or nothing when it is empty: how a frame's trailing
/// bytes decode.
pub open spec fn non_empty(s: Seq<u8>) -> Option<Seq<u8>> {
    if s.len() == 0 {
        None
    } else {
        Some(s)
    }
}

/// Whether `flag` announces metadata.
pub open spec fn has_metadata_flag(flag: u16) -> bool {
    flag & METADATA_BIT != 0
}

/// The encoding of optional metadata and data: the metadata, when there
/// is some, behind its length in three bytes; then the data.
pub open spec fn payload_encoding(metadata: Option<Seq<u8>>, data: Option<Seq<u8>>) -> Seq<u8> {
    match metadata {
        Some(m) => be24(m.len() as u32) + m + or_empty(data),
        None => or_empty(data),
    }
}

/// The length that `calculate_payload_length` gives.
pub open spec fn payload_length(metadata: Option<Seq<u8>>, data: Option<Seq<u8>>) -> int {
    let m: int = match metadata {
        Some(m) => 3 + m.len() as int,
        None => 0,
    };
    m + or_empty(data).len()
}

/// Whether the metadata is short enough for its length to fit in 24 bits.
pub open spec fn metadata_fits(metadata: Option<Seq<u8>>) -> bool {
    match metadata {
        Some(m) => m.len() <= 0xFF_FFFF,
        None => true,
    }
}

/// How the metadata-and-data tail of a frame with `flag` decodes from `s`:
/// with the metadata flag, a 24-bit length and that many bytes of metadata;
/// then all that is left is the data, absent when empty.
pub open spec fn decode_payload(flag: u16, s: Seq<u8>) -> Decoding<
    (Option<Seq<u8>>, Option<Seq<u8>>),
> {
    if has_metadata_flag(flag) {
        if s.len() < 3 {
            Decoding::Incomplete { rest: s }
        } else {
            let n = be24_value(s);
            let s1 = s.skip(3);
            if n > s1.len() {
                Decoding::Undefined
            } else {
                Decoding::Done {
                    value: (Some(s1.take(n as int)), non_empty(s1.skip(n as int))),
                    rest: Seq::empty(),
                }
            }
        }
    } else {
        Decoding::Done { value: (None, non_empty(s)), rest: Seq::empty() }
    }
}

/// Reads the metadata (when `flag` announces it) and the data that fill
/// the rest of `bf`.
pub fn read_payload(flag: u16, bf: &mut BytesMut) -> (r: Result<
    (Option<Bytes>, Option<Bytes>),
    RSocketError,
>)
    requires
        !(decode_payload(flag, bytes_mut_view(*old(bf))) is Undefined),
    ensures
        match r {
            Ok((m, d)) => decode_payload(flag, bytes_mut_view(*old(bf))) == Decoding::Done {
                value: (opt_bytes(m), opt_bytes(d)),
                rest: bytes_mut_view(*final(bf)),
            },
            Err(e) => e is InCompleteFrame && decode_payload(flag, bytes_mut_view(*old(bf)))
                == Decoding::<(Option<Seq<u8>>, Option<Seq<u8>>)>::Incomplete {
                rest: bytes_mut_view(*final(bf)),
            },
        },
{
    let ghost s = bytes_mut_view(*bf);
    let m: Option<Bytes> = if flag & METADATA_BIT != 0 {
        if bytes_mut_len(bf) < 3 {
            return Err(RSocketError::InCompleteFrame);
        }
        let n = u24::read_advance(bf);
        Some(freeze(split_to(bf, n.as_usize())))
    } else {
        None
    };
    let d: Option<Bytes> = if bytes_mut_len(bf) == 0 {
        None
    } else {
        Some(freeze(split_all(bf)))
    };
    proof {
        assert(bytes_mut_view(*bf) =~= Seq::<u8>::empty());
    }
    Ok((m, d))
}

/// The number of bytes that `write_payload` appends.
pub fn calculate_payload_length(metadata: Option<&Bytes>, data: Option<&Bytes>) -> (n: usize)
    requires
        payload_length(opt_ref_bytes(metadata), opt_ref_bytes(data)) <= usize::MAX,
    ensures
        n == payload_length(opt_ref_bytes(metadata), opt_ref_bytes(data)),
{
    let a: usize = match metadata {
        Some(v) => 3 + bytes_len(v),
        None => 0,
    };
    let b: usize = match data {
        Some(v) => bytes_len(v),
        None => 0,
    };
    a + b
}

/// Appends the metadata, behind its 24-bit length, and then the data.
pub fn write_payload(bf: &mut BytesMut, metadata: Option<&Bytes>, data: Option<&Bytes>)
    requires
        metadata_fits(opt_ref_bytes(metadata)),
        bytes_mut_view(*old(bf)).len() + payload_encoding(
            opt_ref_bytes(metadata),
            opt_ref_bytes(data),
        ).len() <= max_buffer_len(),
    ensures
        bytes_mut_view(*final(bf)) == bytes_mut_view(*old(bf)) + payload_encoding(
            opt_ref_bytes(metadata),
            opt_ref_bytes(data),
        ),
{
    let ghost start = bytes_mut_view(*bf);
    if let Some(v) = metadata {
        let n = u24::from_usize(bytes_len(v));
        n.write_to(bf);
        extend_from_bytes(bf, v);
    }
    if let Some(v) = data {
        extend_from_bytes(bf, v);
    }
    proof {
        assert(bytes_mut_view(*bf) =~= start + payload_encoding(
            opt_ref_bytes(metadata),
            opt_ref_bytes(data),
        ));
    }
}

} // verus!

verus! {

/// Whether optional data decodes back as itself: trailing bytes that are
/// empty decode as no data, so present data must not be empty.
pub open spec fn data_decodable(data: Option<Seq<u8>>) -> bool {
    match data {
        Some(d) => d.len() > 0,
        None => true,
    }
}

/// `calculate_payload_length` counts the bytes that `write_payload` appends.
pub proof fn lemma_payload_length(metadata: Option<Seq<u8>>, data: Option<Seq<u8>>)
    ensures
        payload_length(metadata, data) == payload_encoding(metadata, data).len(),
{
}

/// Metadata and data, written with a flag that announces exactly whether
/// there is metadata, decode back as themselves, consuming all the bytes.
pub proof fn lemma_payload_roundtrip(flag: u16, metadata: Option<Seq<u8>>, data: Option<Seq<u8>>)
    requires
        has_metadata_flag(flag) <==> (metadata is Some),
        metadata_fits(metadata),
        data_decodable(data),
    ensures
        decode_payload(flag, payload_encoding(metadata, data)) == (Decoding::Done {
            value: (metadata, data),
            rest: Seq::<u8>::empty(),
        }),
{
    let s = payload_encoding(metadata, data);
    match metadata {
        Some(m) => {
            let n = m.len() as u32;
            crate::endian::lemma_be24_roundtrip(n);
            crate::endian::lemma_be_values_prefix(be24(n), m + or_empty(data));
            assert(s =~= be24(n) + (m + or_empty(data)));
            assert(s.skip(3) =~= m + or_empty(data));
            assert(s.skip(3).take(m.len() as int) =~= m);
            assert(s.skip(3).skip(m.len() as int) =~= or_empty(data));
        },
        None => {},
    }
}

} // verus!
