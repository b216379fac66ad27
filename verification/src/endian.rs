//! Big-endian (network order) encodings of unsigned integers, as
//! mathematical sequences of bytes, and the facts that relate them.

use vstd::prelude::*;

verus! {

/// The two bytes of `v`, most significant first.
pub open spec fn be16(v: u16) -> Seq<u8> {
    seq![(v / 0x100) as u8, (v % 0x100) as u8]
}

/// The three low bytes of `v`, most significant first.
pub open spec fn be24(v: u32) -> Seq<u8> {
    seq![((v / 0x10000) % 0x100) as u8, ((v / 0x100) % 0x100) as u8, (v % 0x100) as u8]
}

/// The four bytes of `v`, most significant first.
pub open spec fn be32(v: u32) -> Seq<u8> {
    seq![
        (v / 0x1000000) as u8,
        ((v / 0x10000) % 0x100) as u8,
        ((v / 0x100) % 0x100) as u8,
        (v % 0x100) as u8,
    ]
}

/// The eight bytes of `v`, most significant first.
pub open spec fn be64(v: u64) -> Seq<u8> {
    be32((v / 0x1_0000_0000) as u32) + be32((v % 0x1_0000_0000) as u32)
}

/// The number that the first two bytes of `s` denote, most significant first.
pub open spec fn be16_value(s: Seq<u8>) -> u16 {
    (s[0] * 0x100 + s[1]) as u16
}

/// The number that the first three bytes of `s` denote, most significant first.
pub open spec fn be24_value(s: Seq<u8>) -> u32 {
    (s[0] * 0x10000 + s[1] * 0x100 + s[2]) as u32
}

/// The number that the first four bytes of `s` denote, most significant first.
pub open spec fn be32_value(s: Seq<u8>) -> u32 {
    (s[0] * 0x1000000 + s[1] * 0x10000 + s[2] * 0x100 + s[3]) as u32
}

/// The number that the first eight bytes of `s` denote, most significant first.
pub open spec fn be64_value(s: Seq<u8>) -> u64 {
    (be32_value(s) * 0x1_0000_0000 + be32_value(s.subrange(4, 8))) as u64
}

/// Decoding an encoded 16-bit number gives it back.
pub proof fn lemma_be16_roundtrip(v: u16)
    ensures
        be16(v).len() == 2,
        be16_value(be16(v)) == v,
{
}

/// Decoding an encoded 24-bit number gives it back.
pub proof fn lemma_be24_roundtrip(v: u32)
    requires
        v <= 0xFF_FFFF,
    ensures
        be24(v).len() == 3,
        be24_value(be24(v)) == v,
{
}

/// Decoding an encoded 32-bit number gives it back.
pub proof fn lemma_be32_roundtrip(v: u32)
    ensures
        be32(v).len() == 4,
        be32_value(be32(v)) == v,
{
}

/// Decoding an encoded 64-bit number gives it back.
pub proof fn lemma_be64_roundtrip(v: u64)
    ensures
        be64(v).len() == 8,
        be64_value(be64(v)) == v,
{
    let hi = (v / 0x1_0000_0000) as u32;
    let lo = (v % 0x1_0000_0000) as u32;
    lemma_be32_roundtrip(hi);
    lemma_be32_roundtrip(lo);
    let s = be64(v);
    assert(s.subrange(0, 4) =~= be32(hi));
    assert(s.subrange(4, 8) =~= be32(lo));
    assert(be32_value(s) == be32_value(s.subrange(0, 4)));
}

/// The value that a prefix denotes depends on that prefix alone.
pub proof fn lemma_be_values_prefix(s: Seq<u8>, t: Seq<u8>)
    ensures
        s.len() >= 2 ==> be16_value(s + t) == be16_value(s),
        s.len() >= 3 ==> be24_value(s + t) == be24_value(s),
        s.len() >= 4 ==> be32_value(s + t) == be32_value(s),
        s.len() >= 8 ==> be64_value(s + t) == be64_value(s),
{
    if s.len() >= 8 {
        assert((s + t).subrange(4, 8) =~= s.subrange(4, 8));
    }
}

} // verus!
