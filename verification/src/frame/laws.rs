//! What holds of the codec as a whole: a frame that `write_to` encodes is
//! decoded back by `Frame::decode`, and `len` counts the bytes written.

use super::keepalive::keepalive_encoding;
use super::lease::{decode_lease, lease_encoding, LeaseView};
use super::request_stream::{decode_stream, stream_encoding};
use super::resume::{decode_resume, resume_encoding, resume_len, ResumeView};
use super::setup::{
    decode_setup, decode_setup_tail, setup_encoding, setup_len, token_encoding, SetupView,
    RESUME_BIT,
};
use super::utils::{
    data_decodable, has_metadata_flag, lemma_payload_length, lemma_payload_roundtrip, metadata_fits,
    or_empty, payload_encoding, Decoding,
};
use super::error::error_encoding;
use super::{
    body_encoding, body_len, decode_body, decode_frame, frame_encoding, frame_type, header_word,
    word_flag, word_type, BodyView, FrameView, StreamView, LEN_HEADER,
};
use crate::endian::{
    be16, be16_value, be32, be32_value, be64, be64_value, lemma_be16_roundtrip, lemma_be32_roundtrip,
    lemma_be64_roundtrip, lemma_be_values_prefix,
};
use vstd::prelude::*;

verus! {

/// Whether metadata and data decode back as themselves under `flag`: the
/// flag announces exactly whether there is metadata, the metadata fits its
/// 24-bit length, and data that is present is not empty.
pub open spec fn payload_decodable(
    flag: u16,
    metadata: Option<Seq<u8>>,
    data: Option<Seq<u8>>,
) -> bool {
    &&& has_metadata_flag(flag) <==> (metadata is Some)
    &&& metadata_fits(metadata)
    &&& data_decodable(data)
}

/// Whether a SETUP body decodes back as itself under `flag`.
pub open spec fn setup_decodable(flag: u16, v: SetupView) -> bool {
    &&& payload_decodable(flag, v.metadata, v.data)
    &&& (flag & RESUME_BIT != 0) <==> (v.token is Some)
    &&& (v.token matches Some(t) ==> t.len() <= 0xFFFF)
    &&& v.mime_metadata.len() <= 0xFF
    &&& v.mime_data.len() <= 0xFF
}

/// Whether a body decodes back as itself under `flag`.
pub open spec fn body_decodable(flag: u16, b: BodyView) -> bool {
    match b {
        BodyView::Setup(v) => setup_decodable(flag, v),
        BodyView::Lease(v) => has_metadata_flag(flag) <==> (v.metadata is Some),
        BodyView::Keepalive(v) => data_decodable(v.data),
        BodyView::RequestFNF(v) => payload_decodable(flag, v.metadata, v.data),
        BodyView::RequestResponse(v) => payload_decodable(flag, v.metadata, v.data),
        BodyView::RequestStream(v) => payload_decodable(flag, v.metadata, v.data),
        BodyView::RequestChannel(v) => payload_decodable(flag, v.metadata, v.data),
        BodyView::RequestN(_) => true,
        BodyView::Cancel => true,
        BodyView::Payload(v) => payload_decodable(flag, v.metadata, v.data),
        BodyView::Error(v) => data_decodable(v.data),
        BodyView::MetadataPush(m) => m is Some,
        BodyView::Resume(v) => v.token matches Some(t) && 0 < t.len() <= 0xFFFF,
        BodyView::ResumeOK(_) => true,
    }
}

/// Whether a frame decodes back as itself: its flags fit their ten bits and
/// its body decodes back under them.
pub open spec fn frame_decodable(f: FrameView) -> bool {
    &&& f.flag < 0x400
    &&& body_decodable(f.flag, f.body)
}

/// What decoding leaves in the buffer after a body: a KEEPALIVE frame
/// copies its data and leaves it there; every other body consumes all.
pub open spec fn body_leftover(b: BodyView) -> Seq<u8> {
    match b {
        BodyView::Keepalive(v) => or_empty(v.data),
        _ => Seq::empty(),
    }
}

/// The type and the flags come back out of the type-and-flags word.
pub proof fn lemma_header_word(ty: u16, flag: u16)
    requires
        1 <= ty <= 14,
        flag < 0x400,
    ensures
        word_flag(header_word(ty, flag)) == flag,
        word_type(header_word(ty, flag)) == ty,
{
    assert(((ty << 10u16) | flag) & 0x03FF == flag) by (bit_vector)
        requires
            1 <= ty <= 14,
            flag < 0x400,
    ;
    assert((((ty << 10u16) | flag) & 0xFC00) >> 10u16 == ty) by (bit_vector)
        requires
            1 <= ty <= 14,
            flag < 0x400,
    ;
}

/// The MIME types, metadata and data of a SETUP body decode back, after
/// the token.
proof fn lemma_setup_mime_roundtrip(flag: u16, v: SetupView)
    requires
        setup_decodable(flag, v),
    ensures
        ({
            let md = seq![v.mime_data.len() as u8] + v.mime_data;
            let mm = seq![v.mime_metadata.len() as u8] + v.mime_metadata;
            let s2 = mm + md + payload_encoding(v.metadata, v.data);
            &&& s2.len() > 0
            &&& s2.skip(1).len() >= s2[0]
            &&& s2.skip(1).take(s2[0] as int) == v.mime_metadata
            &&& s2.skip(1).skip(s2[0] as int).len() > 0
            &&& s2.skip(1).skip(s2[0] as int).skip(1).len() >= s2.skip(1).skip(s2[0] as int)[0]
            &&& s2.skip(1).skip(s2[0] as int).skip(1).take(s2.skip(1).skip(s2[0] as int)[0] as int)
                == v.mime_data
            &&& s2.skip(1).skip(s2[0] as int).skip(1).skip(s2.skip(1).skip(s2[0] as int)[0] as int)
                == payload_encoding(v.metadata, v.data)
        }),
{
    let pay = payload_encoding(v.metadata, v.data);
    let md = seq![v.mime_data.len() as u8] + v.mime_data;
    let mm = seq![v.mime_metadata.len() as u8] + v.mime_metadata;
    let s2 = mm + md + pay;
    let s4 = md + pay;
    assert(s2[0] == v.mime_metadata.len() as u8);
    assert(s2.skip(1) =~= v.mime_metadata + s4);
    assert(s2.skip(1).take(s2[0] as int) =~= v.mime_metadata);
    assert(s2.skip(1).skip(s2[0] as int) =~= s4);
    assert(s4[0] == v.mime_data.len() as u8);
    assert(s4.skip(1) =~= v.mime_data + pay);
    assert(s4.skip(1).take(s4[0] as int) =~= v.mime_data);
    assert(s4.skip(1).skip(s4[0] as int) =~= pay);
}

/// The part of a SETUP body after its first twelve bytes decodes back.
proof fn lemma_setup_tail_roundtrip(flag: u16, v: SetupView)
    requires
        setup_decodable(flag, v),
    ensures
        decode_setup_tail(
            v.version,
            v.keepalive,
            v.lifetime,
            flag,
            token_encoding(v.token) + (seq![v.mime_metadata.len() as u8] + v.mime_metadata) + (seq![
                v.mime_data.len() as u8,
            ] + v.mime_data) + payload_encoding(v.metadata, v.data),
        ) == (Decoding::Done { value: v, rest: Seq::<u8>::empty() }),
{
    reveal(decode_setup_tail);
    let pay = payload_encoding(v.metadata, v.data);
    let md = seq![v.mime_data.len() as u8] + v.mime_data;
    let mm = seq![v.mime_metadata.len() as u8] + v.mime_metadata;
    let tok = token_encoding(v.token);
    let s1 = tok + mm + md + pay;
    let s2 = mm + md + pay;
    match v.token {
        Some(t) => {
            let n = t.len() as u16;
            lemma_be16_roundtrip(n);
            assert(s1 =~= be16(n) + (t + s2));
            lemma_be_values_prefix(be16(n), t + s2);
            assert(s1.skip(2) =~= t + s2);
            assert(s1.skip(2).take(be16_value(s1) as int) =~= t);
            assert(s1.skip(2).skip(be16_value(s1) as int) =~= s2);
        },
        None => {
            assert(s1 =~= s2);
        },
    }
    lemma_setup_mime_roundtrip(flag, v);
    lemma_payload_roundtrip(flag, v.metadata, v.data);
}

/// A SETUP body decodes back as itself.
#[verifier::spinoff_prover]
pub proof fn lemma_setup_roundtrip(flag: u16, v: SetupView)
    requires
        setup_decodable(flag, v),
    ensures
        decode_setup(flag, setup_encoding(v)) == (Decoding::Done { value: v, rest: Seq::<u8>::empty() }),
{
    let s1 = token_encoding(v.token) + (seq![v.mime_metadata.len() as u8] + v.mime_metadata) + (seq![
        v.mime_data.len() as u8,
    ] + v.mime_data) + payload_encoding(v.metadata, v.data);
    let r8 = be32(v.lifetime) + s1;
    let r4 = be32(v.keepalive) + r8;
    let r2 = be16(v.version.1) + r4;
    let s = setup_encoding(v);
    assert(s =~= be16(v.version.0) + r2);
    lemma_be16_roundtrip(v.version.0);
    lemma_be16_roundtrip(v.version.1);
    lemma_be32_roundtrip(v.keepalive);
    lemma_be32_roundtrip(v.lifetime);
    lemma_be_values_prefix(be16(v.version.0), r2);
    lemma_be_values_prefix(be16(v.version.1), r4);
    lemma_be_values_prefix(be32(v.keepalive), r8);
    lemma_be_values_prefix(be32(v.lifetime), s1);
    assert(s.skip(2) =~= r2);
    assert(s.skip(4) =~= r4);
    assert(s.skip(8) =~= r8);
    assert(s.skip(12) =~= s1);
    lemma_setup_tail_roundtrip(flag, v);
}

/// `Setup::len` counts the bytes that `Setup::write_to` appends.
pub proof fn lemma_setup_len(v: SetupView)
    ensures
        setup_len(v) == setup_encoding(v).len(),
{
    lemma_payload_length(v.metadata, v.data);
}

/// A REQUEST_STREAM or REQUEST_CHANNEL body decodes back as itself.
pub proof fn lemma_stream_roundtrip(flag: u16, v: StreamView)
    requires
        payload_decodable(flag, v.metadata, v.data),
    ensures
        decode_stream(flag, stream_encoding(v)) == (Decoding::Done { value: v, rest: Seq::<u8>::empty() }),
{
    let pay = payload_encoding(v.metadata, v.data);
    let s = stream_encoding(v);
    lemma_be32_roundtrip(v.initial_request_n);
    lemma_be_values_prefix(be32(v.initial_request_n), pay);
    assert(s.skip(4) =~= pay);
    lemma_payload_roundtrip(flag, v.metadata, v.data);
}

/// The two positions at the end of a RESUME body decode back.
proof fn lemma_positions_roundtrip(a: u64, b: u64)
    ensures
        ({
            let tail = be64(a) + be64(b);
            &&& tail.len() == 16
            &&& be64_value(tail) == a
            &&& be64_value(tail.skip(8)) == b
            &&& tail.skip(16) == Seq::<u8>::empty()
        }),
{
    let tail = be64(a) + be64(b);
    lemma_be64_roundtrip(a);
    lemma_be64_roundtrip(b);
    lemma_be_values_prefix(be64(a), be64(b));
    assert(tail.skip(8) =~= be64(b));
    assert(tail.skip(16) =~= Seq::<u8>::empty());
}

/// A RESUME body with a token that is not empty decodes back as itself.
#[verifier::spinoff_prover]
pub proof fn lemma_resume_roundtrip(v: ResumeView)
    requires
        v.token matches Some(t) && 0 < t.len() <= 0xFFFF,
    ensures
        decode_resume(resume_encoding(v)) == (Decoding::Done { value: v, rest: Seq::<u8>::empty() }),
{
    let t = v.token->0;
    let n = t.len() as u16;
    let s = resume_encoding(v);
    let tail = be64(v.last_received_server_position) + be64(v.first_available_client_position);
    let s1 = t + tail;
    let r4 = be16(n) + s1;
    let r2 = be16(v.version.1) + r4;
    lemma_be16_roundtrip(v.version.0);
    lemma_be16_roundtrip(v.version.1);
    lemma_be16_roundtrip(n);
    assert(s =~= be16(v.version.0) + r2);
    lemma_be_values_prefix(be16(v.version.0), r2);
    lemma_be_values_prefix(be16(v.version.1), r4);
    lemma_be_values_prefix(be16(n), s1);
    assert(s.skip(2) =~= r2);
    assert(s.skip(4) =~= r4);
    assert(s.skip(6) =~= s1);
    assert(s1.take(t.len() as int) =~= t);
    assert(s1.skip(t.len() as int) =~= tail);
    lemma_positions_roundtrip(v.last_received_server_position, v.first_available_client_position);
}

/// `Resume::len` counts the bytes that `Resume::write_to` appends when the
/// frame has a token; without one it counts two bytes more.
pub proof fn lemma_resume_len(v: ResumeView)
    ensures
        v.token is Some ==> resume_len(v) == resume_encoding(v).len(),
        v.token is None ==> resume_len(v) == resume_encoding(v).len() + 2,
{
}

/// A body decodes back as itself, leaving what `body_leftover` says.
pub proof fn lemma_body_roundtrip(flag: u16, b: BodyView)
    requires
        body_decodable(flag, b),
    ensures
        decode_body(frame_type(b), flag, body_encoding(b)) == (Decoding::Done {
            value: b,
            rest: body_leftover(b),
        }),
{
    match b {
        BodyView::Setup(v) => {
            lemma_setup_roundtrip(flag, v);
        },
        BodyView::Lease(v) => {
            let s = lease_encoding(v);
            lemma_be32_roundtrip(v.ttl);
            lemma_be32_roundtrip(v.number_of_requests);
            lemma_be_values_prefix(be32(v.ttl), be32(v.number_of_requests) + or_empty(v.metadata));
            assert(s =~= be32(v.ttl) + (be32(v.number_of_requests) + or_empty(v.metadata)));
            assert(s.skip(4) =~= be32(v.number_of_requests) + or_empty(v.metadata));
            lemma_be_values_prefix(be32(v.number_of_requests), or_empty(v.metadata));
            assert(s.skip(8) =~= or_empty(v.metadata));
        },
        BodyView::Keepalive(v) => {
            let s = keepalive_encoding(v);
            lemma_be64_roundtrip(v.last_received_position);
            lemma_be_values_prefix(be64(v.last_received_position), or_empty(v.data));
            assert(s.skip(8) =~= or_empty(v.data));
        },
        BodyView::RequestFNF(v) => {
            lemma_payload_roundtrip(flag, v.metadata, v.data);
        },
        BodyView::RequestResponse(v) => {
            lemma_payload_roundtrip(flag, v.metadata, v.data);
        },
        BodyView::RequestStream(v) => {
            lemma_stream_roundtrip(flag, v);
        },
        BodyView::RequestChannel(v) => {
            lemma_stream_roundtrip(flag, v);
        },
        BodyView::RequestN(n) => {
            lemma_be32_roundtrip(n);
            lemma_be_values_prefix(be32(n), Seq::<u8>::empty());
            assert(be32(n) =~= be32(n) + Seq::<u8>::empty());
            assert(be32(n).skip(4) =~= Seq::<u8>::empty());
        },
        BodyView::Cancel => {},
        BodyView::Payload(v) => {
            lemma_payload_roundtrip(flag, v.metadata, v.data);
        },
        BodyView::Error(v) => {
            let s = error_encoding(v);
            lemma_be32_roundtrip(v.code);
            lemma_be_values_prefix(be32(v.code), or_empty(v.data));
            assert(s.skip(4) =~= or_empty(v.data));
        },
        BodyView::MetadataPush(m) => {},
        BodyView::Resume(v) => {
            lemma_resume_roundtrip(v);
        },
        BodyView::ResumeOK(p) => {
            lemma_be64_roundtrip(p);
            lemma_be_values_prefix(be64(p), Seq::<u8>::empty());
            assert(be64(p) =~= be64(p) + Seq::<u8>::empty());
            assert(be64(p).skip(8) =~= Seq::<u8>::empty());
        },
    }
}

/// Decoding gives back the frame that was encoded: for a frame whose flags
/// fit their ten bits and announce exactly the optional parts that it has
/// (metadata, a SETUP token), whose lengths fit their fields, and whose
/// trailing data is absent or not empty, `Frame::decode` on the bytes that
/// `Frame::write_to` appends returns that frame. Only a KEEPALIVE frame
/// leaves bytes behind: the copy of its data.
pub proof fn lemma_frame_roundtrip(f: FrameView)
    requires
        frame_decodable(f),
    ensures
        decode_frame(frame_encoding(f)) == (Decoding::Done { value: f, rest: body_leftover(f.body) }),
{
    let ty = frame_type(f.body);
    let w = header_word(ty, f.flag);
    let body = body_encoding(f.body);
    let s = frame_encoding(f);
    lemma_be32_roundtrip(f.stream_id);
    lemma_be16_roundtrip(w);
    assert(s =~= be32(f.stream_id) + (be16(w) + body));
    lemma_be_values_prefix(be32(f.stream_id), be16(w) + body);
    assert(s.skip(4) =~= be16(w) + body);
    lemma_be_values_prefix(be16(w), body);
    assert(s.skip(6) =~= body);
    lemma_header_word(ty, f.flag);
    lemma_body_roundtrip(f.flag, f.body);
}

/// `Frame::len` counts the bytes that `Frame::write_to` appends, except for
/// a RESUME frame without a token, for which it counts two bytes more.
pub proof fn lemma_frame_len(f: FrameView)
    ensures
        !(f.body matches BodyView::Resume(v) && v.token is None) ==> LEN_HEADER + body_len(f.body)
            == frame_encoding(f).len(),
{
    match f.body {
        BodyView::Setup(v) => lemma_setup_len(v),
        BodyView::Resume(v) => lemma_resume_len(v),
        _ => {},
    }
}

/// Where a SETUP body puts its numbers: the major and the minor version in
/// its first four bytes, then the keepalive interval and then the maximum
/// lifetime, four bytes each, most significant first. In a whole frame the
/// six bytes of stream id and type come first, so the keepalive interval
/// is bytes 10 to 14 and the maximum lifetime bytes 14 to 18.
pub proof fn lemma_setup_layout(v: SetupView, stream_id: u32, flag: u16)
    ensures
        setup_encoding(v).subrange(0, 2) == be16(v.version.0),
        setup_encoding(v).subrange(2, 4) == be16(v.version.1),
        setup_encoding(v).subrange(4, 8) == be32(v.keepalive),
        setup_encoding(v).subrange(8, 12) == be32(v.lifetime),
        frame_encoding((FrameView { stream_id, flag, body: BodyView::Setup(v) })).subrange(10, 14)
            == be32(v.keepalive),
        frame_encoding((FrameView { stream_id, flag, body: BodyView::Setup(v) })).subrange(14, 18)
            == be32(v.lifetime),
{
    let s = setup_encoding(v);
    let f = FrameView { stream_id, flag, body: BodyView::Setup(v) };
    let e = frame_encoding(f);
    assert(s.subrange(0, 2) =~= be16(v.version.0));
    assert(s.subrange(2, 4) =~= be16(v.version.1));
    assert(s.subrange(4, 8) =~= be32(v.keepalive));
    assert(s.subrange(8, 12) =~= be32(v.lifetime));
    assert(e.subrange(10, 14) =~= s.subrange(4, 8));
    assert(e.subrange(14, 18) =~= s.subrange(8, 12));
}

/// What a decoded SETUP body takes from its first twelve bytes: the major
/// and the minor version from bytes 0 to 2 and 2 to 4, the keepalive
/// interval from bytes 4 to 8 and the maximum lifetime from bytes 8 to 12,
/// most significant first.
pub proof fn lemma_setup_reads(flag: u16, s: Seq<u8>)
    ensures
        decode_setup(flag, s) matches Decoding::Done { value, .. } ==> {
            &&& s.len() >= 12
            &&& value.version == (be16_value(s.subrange(0, 2)), be16_value(s.subrange(2, 4)))
            &&& value.keepalive == be32_value(s.subrange(4, 8))
            &&& value.lifetime == be32_value(s.subrange(8, 12))
        },
{
    reveal(decode_setup_tail);
    if s.len() >= 12 {
        assert(s.subrange(0, 2)[0] == s[0] && s.subrange(0, 2)[1] == s[1]);
        assert(s.subrange(2, 4)[0] == s.skip(2)[0] && s.subrange(2, 4)[1] == s.skip(2)[1]);
        assert(s.subrange(4, 8)[0] == s.skip(4)[0] && s.subrange(4, 8)[1] == s.skip(4)[1]);
        assert(s.subrange(4, 8)[2] == s.skip(4)[2] && s.subrange(4, 8)[3] == s.skip(4)[3]);
        assert(s.subrange(8, 12)[0] == s.skip(8)[0] && s.subrange(8, 12)[1] == s.skip(8)[1]);
        assert(s.subrange(8, 12)[2] == s.skip(8)[2] && s.subrange(8, 12)[3] == s.skip(8)[3]);
    }
}

/// Where a LEASE body puts its numbers: the time to live in its first four
/// bytes, then the number of requests in the next four, most significant
/// first; decoding reads them back from the same places.
pub proof fn lemma_lease_layout(v: LeaseView, flag: u16, s: Seq<u8>)
    ensures
        lease_encoding(v).subrange(0, 4) == be32(v.ttl),
        lease_encoding(v).subrange(4, 8) == be32(v.number_of_requests),
        decode_lease(flag, s) matches Decoding::Done { value, .. } ==> {
            &&& s.len() >= 8
            &&& value.ttl == be32_value(s.subrange(0, 4))
            &&& value.number_of_requests == be32_value(s.subrange(4, 8))
        },
{
    assert(lease_encoding(v).subrange(0, 4) =~= be32(v.ttl));
    assert(lease_encoding(v).subrange(4, 8) =~= be32(v.number_of_requests));
    if s.len() >= 8 {
        assert(s.subrange(0, 4)[0] == s[0] && s.subrange(0, 4)[1] == s[1]);
        assert(s.subrange(0, 4)[2] == s[2] && s.subrange(0, 4)[3] == s[3]);
        assert(s.subrange(4, 8)[0] == s.skip(4)[0] && s.subrange(4, 8)[1] == s.skip(4)[1]);
        assert(s.subrange(4, 8)[2] == s.skip(4)[2] && s.subrange(4, 8)[3] == s.skip(4)[3]);
    }
}

/// Where a RESUME body puts its positions: its last sixteen bytes are the
/// last position received from the server, then the first position
/// available to the client, eight bytes each, most significant first.
pub proof fn lemma_resume_layout(v: ResumeView)
    ensures
        resume_encoding(v).len() >= 20,
        resume_encoding(v).subrange(0, 2) == be16(v.version.0),
        resume_encoding(v).subrange(2, 4) == be16(v.version.1),
        resume_encoding(v).subrange(resume_encoding(v).len() - 16, resume_encoding(v).len() - 8)
            == be64(v.last_received_server_position),
        resume_encoding(v).subrange(resume_encoding(v).len() - 8, resume_encoding(v).len() as int)
            == be64(v.first_available_client_position),
{
    let e = resume_encoding(v);
    let n = e.len() as int;
    assert(e.subrange(0, 2) =~= be16(v.version.0));
    assert(e.subrange(2, 4) =~= be16(v.version.1));
    assert(e.subrange(n - 16, n - 8) =~= be64(v.last_received_server_position));
    assert(e.subrange(n - 8, n) =~= be64(v.first_available_client_position));
}

} // verus!
