//! The framing of a byte stream: each frame is sent behind its length in
//! three bytes, and read back once all of its bytes have arrived.

use crate::buffer::{bytes_mut_len, bytes_mut_view, max_buffer_len, split_to};
use crate::endian::{be24, be24_value, lemma_be24_roundtrip, lemma_be_values_prefix};
use crate::error::RSocketError;
use crate::frame::laws::{body_leftover, frame_decodable, lemma_frame_len, lemma_frame_roundtrip};
use crate::frame::utils::Decoding;
use crate::frame::setup::{decode_setup, decode_setup_tail, RESUME_BIT};
use crate::frame::utils::{decode_payload, has_metadata_flag, METADATA_BIT};
use crate::frame::{
    body_len, decode_body, decode_frame, frame_encoding, word_flag, word_type, BodyView, Frame,
    FrameView, LEN_HEADER, TYPE_CANCEL, TYPE_ERROR, TYPE_KEEPALIVE, TYPE_LEASE, TYPE_METADATA_PUSH,
    TYPE_PAYLOAD, TYPE_REQUEST_CHANNEL, TYPE_REQUEST_FNF, TYPE_REQUEST_N, TYPE_REQUEST_RESPONSE,
    TYPE_REQUEST_STREAM, TYPE_RESUME, TYPE_RESUME_OK, TYPE_SETUP,
};
use crate::endian::{be16_value, be32_value};
use crate::utils::{u24, Writeable};
use bytes::BytesMut;
use vstd::prelude::*;

verus! {

/// The largest frame that a three-byte length can announce.
pub const MAX_FRAME_LEN: usize = 0xFF_FFFF;

/// The bytes that send a frame: the length that `len` reports, in three
/// bytes, then the frame.
pub open spec fn prefixed_frame(f: FrameView) -> Seq<u8> {
    be24((LEN_HEADER + body_len(f.body)) as u32) + frame_encoding(f)
}

/// The bytes of the first frame in a stream and what follows them, once
/// the length and all the bytes it announces have arrived.
pub open spec fn split_frame(b: Seq<u8>) -> Option<(Seq<u8>, Seq<u8>)> {
    if b.len() < 3 {
        None
    } else {
        let n = be24_value(b);
        if b.len() < 3 + n {
            None
        } else {
            Some((b.subrange(3, 3 + n), b.skip(3 + n)))
        }
    }
}

/// Whether the first frame of a stream, once it has arrived, is of a kind
/// that frames have and holds lengths that fit it.
pub open spec fn first_frame_defined(b: Seq<u8>) -> bool {
    split_frame(b) matches Some((fb, _)) ==> !(decode_frame(fb) is Undefined)
}

/// Takes the first frame off the front of `buf`: nothing (and nothing
/// taken) while its length or its bytes have not all arrived; an error
/// when the announced bytes end before the frame does.
pub fn decode(buf: &mut BytesMut) -> (r: Result<Option<Frame>, RSocketError>)
    requires
        first_frame_defined(bytes_mut_view(*old(buf))),
    ensures
        match split_frame(bytes_mut_view(*old(buf))) {
            None => r matches Ok(None) && bytes_mut_view(*final(buf)) == bytes_mut_view(*old(buf)),
            Some((fb, rest)) => {
                &&& bytes_mut_view(*final(buf)) == rest
                &&& match decode_frame(fb) {
                    Decoding::Done { value, .. } => r matches Ok(Some(f)) && f@ == value,
                    _ => r matches Err(RSocketError::InCompleteFrame),
                }
            },
        },
{
    let ghost b = bytes_mut_view(*buf);
    if bytes_mut_len(buf) < 3 {
        return Ok(None);
    }
    let n = u24::read(buf).as_usize();
    if bytes_mut_len(buf) < 3 + n {
        return Ok(None);
    }
    let mut head = split_to(buf, 3 + n);
    let _ = split_to(&mut head, 3);
    proof {
        assert(bytes_mut_view(head) =~= b.subrange(3, 3 + n as int));
    }
    match Frame::decode(&mut head) {
        Ok(f) => Ok(Some(f)),
        Err(e) => Err(e),
    }
}

/// Appends `frame` to `buf` behind its length in three bytes.
pub fn encode(frame: &Frame, buf: &mut BytesMut)
    requires
        frame.writable(),
        LEN_HEADER + body_len(frame@.body) <= MAX_FRAME_LEN,
        bytes_mut_view(*old(buf)).len() + 3 + frame_encoding(frame@).len() <= max_buffer_len(),
    ensures
        bytes_mut_view(*final(buf)) == bytes_mut_view(*old(buf)) + prefixed_frame(frame@),
{
    let ghost start = bytes_mut_view(*buf);
    let n = frame.len();
    u24::from_usize(n).write_to(buf);
    frame.write_to(buf);
    proof {
        assert(bytes_mut_view(*buf) =~= start + prefixed_frame(frame@));
    }
}

/// A frame sent behind its length is read back whole, whatever follows
/// it: splitting the stream gives its bytes and what follows, and they
/// decode as the frame. (A RESUME without a token is left out: `len`
/// counts two bytes more than it writes.)
pub proof fn lemma_codec_roundtrip(f: FrameView, rest: Seq<u8>)
    requires
        frame_decodable(f),
        !(f.body matches BodyView::Resume(v) && v.token is None),
        LEN_HEADER + body_len(f.body) <= MAX_FRAME_LEN,
    ensures
        split_frame(prefixed_frame(f) + rest) == Some((frame_encoding(f), rest)),
        decode_frame(frame_encoding(f)) == (Decoding::Done { value: f, rest: body_leftover(f.body) }),
{
    let n = (LEN_HEADER + body_len(f.body)) as u32;
    let enc = frame_encoding(f);
    let b = prefixed_frame(f) + rest;
    lemma_frame_len(f);
    lemma_be24_roundtrip(n);
    lemma_be_values_prefix(be24(n), enc + rest);
    assert(b =~= be24(n) + (enc + rest));
    assert(b.subrange(3, 3 + n as int) =~= enc);
    assert(b.skip(3 + n as int) =~= rest);
    lemma_frame_roundtrip(f);
}

/// Whether the metadata and data from position `pos` of `s`, in a frame
/// with `flag`, hold all the metadata that its length announces.
fn payload_defined(flag: u16, s: &[u8], pos: usize) -> (r: bool)
    requires
        pos <= s@.len(),
    ensures
        r == !(decode_payload(flag, s@.skip(pos as int)) is Undefined),
{
    let ghost t = s@.skip(pos as int);
    if flag & Frame::FLAG_METADATA == 0 {
        return true;
    }
    if s.len() - pos < 3 {
        return true;
    }
    let n: usize = (s[pos] as usize) * 0x10000 + (s[pos + 1] as usize) * 0x100 + s[pos + 2] as usize;
    assert(n == be24_value(t));
    n <= s.len() - pos - 3
}

/// Whether the part of a SETUP body after its version, keepalive and
/// lifetime (`s1`, in a frame with `flag`) announces more metadata than it
/// holds: the only way in which such a body has no decoding.
pub open spec fn setup_tail_undefined(flag: u16, s1: Seq<u8>) -> bool {
    let resume = flag & RESUME_BIT != 0;
    if resume && s1.len() < 2 {
        false
    } else if resume && s1.skip(2).len() < be16_value(s1) {
        false
    } else {
        let s2 = if resume {
            s1.skip(2).skip(be16_value(s1) as int)
        } else {
            s1
        };
        if s2.len() == 0 {
            false
        } else if s2.skip(1).len() < s2[0] {
            false
        } else {
            let s4 = s2.skip(1).skip(s2[0] as int);
            if s4.len() == 0 {
                false
            } else if s4.skip(1).len() < s4[0] {
                false
            } else {
                decode_payload(flag, s4.skip(1).skip(s4[0] as int)) is Undefined
            }
        }
    }
}

/// A SETUP body has no decoding exactly when its tail announces more
/// metadata than it holds.
proof fn lemma_setup_undefined(flag: u16, s: Seq<u8>)
    requires
        s.len() >= 12,
    ensures
        (decode_setup(flag, s) is Undefined) == setup_tail_undefined(flag, s.skip(12)),
{
    reveal(decode_setup_tail);
}

/// Whether a SETUP body starting at position 6 of `s`, in a frame with
/// `flag`, holds all the metadata that its length announces.
fn setup_defined(flag: u16, s: &[u8]) -> (r: bool)
    requires
        s@.len() >= 6,
    ensures
        r == !(decode_setup(flag, s@.skip(6)) is Undefined),
{
    if s.len() < 18 {
        return true;
    }
    proof {
        lemma_setup_undefined(flag, s@.skip(6));
        assert(s@.skip(6).skip(12) =~= s@.skip(18));
    }
    let ghost s1 = s@.skip(18);
    let mut pos: usize = 18;
    if flag & Frame::FLAG_RESUME != 0 {
        if s.len() - pos < 2 {
            return true;
        }
        let tl: usize = (s[pos] as usize) * 0x100 + s[pos + 1] as usize;
        assert(tl == be16_value(s1));
        if s.len() - pos - 2 < tl {
            return true;
        }
        pos = pos + 2 + tl;
        assert(s@.skip(pos as int) =~= s1.skip(2).skip(be16_value(s1) as int));
    }
    let ghost s2 = s@.skip(pos as int);
    if pos == s.len() {
        return true;
    }
    let m: usize = s[pos] as usize;
    assert(m == s2[0]);
    if s.len() - pos - 1 < m {
        return true;
    }
    pos = pos + 1 + m;
    let ghost s4 = s@.skip(pos as int);
    assert(s4 =~= s2.skip(1).skip(s2[0] as int));
    if pos == s.len() {
        return true;
    }
    let d: usize = s[pos] as usize;
    assert(d == s4[0]);
    if s.len() - pos - 1 < d {
        return true;
    }
    pos = pos + 1 + d;
    assert(s@.skip(pos as int) =~= s4.skip(1).skip(s4[0] as int));
    payload_defined(flag, s, pos)
}

/// Whether the bytes of a frame are of a kind that frames have and hold
/// all the metadata that their lengths announce: what `Frame::decode`
/// asks of them.
pub fn frame_defined(s: &[u8]) -> (r: bool)
    ensures
        r == !(decode_frame(s@) is Undefined),
{
    if s.len() < 6 {
        return true;
    }
    let n: u16 = (s[4] as u16) * 0x100 + s[5] as u16;
    assert(n == be16_value(s@.skip(4)));
    let flag = n & 0x03FF;
    let ty = (n & 0xFC00) >> 10u16;
    let ghost body = s@.skip(6);
    if ty == TYPE_SETUP {
        setup_defined(flag, s)
    } else if ty == TYPE_REQUEST_RESPONSE || ty == TYPE_REQUEST_FNF || ty == TYPE_PAYLOAD {
        payload_defined(flag, s, 6)
    } else if ty == TYPE_REQUEST_STREAM || ty == TYPE_REQUEST_CHANNEL {
        if s.len() < 10 {
            true
        } else {
            assert(s@.skip(10) =~= body.skip(4));
            payload_defined(flag, s, 10)
        }
    } else {
        ty == TYPE_REQUEST_N || ty == TYPE_METADATA_PUSH || ty == TYPE_KEEPALIVE || ty == TYPE_LEASE
            || ty == TYPE_CANCEL || ty == TYPE_ERROR || ty == TYPE_RESUME_OK || ty == TYPE_RESUME
    }
}

/// Whether the first frame of `buf`, once all of it has arrived, is one
/// that `decode` takes: what `decode` asks of the buffer.
pub fn first_frame_ok(buf: &BytesMut) -> (r: bool)
    ensures
        r == first_frame_defined(bytes_mut_view(*buf)),
{
    let s = crate::buffer::bytes_mut_as_slice(buf);
    if s.len() < 3 {
        return true;
    }
    let n: usize = (s[0] as usize) * 0x10000 + (s[1] as usize) * 0x100 + s[2] as usize;
    assert(n == be24_value(s@));
    if s.len() < 3 + n {
        return true;
    }
    let frame = vstd::slice::slice_subrange(s, 3, 3 + n);
    frame_defined(frame)
}

} // verus!
