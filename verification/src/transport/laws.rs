//! What holds of a connection as a whole: the pieces of a payload hold all
//! of its bytes, fit their frames and fill all but the last; joining undoes
//! splitting; any run of fragments joins into the frame they assemble; the
//! fragments of a request, joined as they arrive, give back the lone frame
//! of the request; the answers of a responder reach the request that waits
//! for them; a SETUP payload survives the SETUP frame that announces it.

use super::fragmentation::{
    cut_pieces, cut_step, joined_data, joined_metadata, joined_payload, remaining, split_parts,
    take_piece,
};
use super::socket::{
    asked_items, assembled, empty_frame, flag_with_metadata, follow_flag, fragment_frames, frame_with, held,
    join_step, last_flag, planned_frames, single_flag, skip_of, SendKind,
};
use crate::frame::utils::{data_decodable, non_empty, or_empty, METADATA_BIT};
use crate::frame::{
    followable_or_payload, frame_type, BodyView, FrameView, PayloadView, FLAG_COMPLETE,
    FLAG_FOLLOW, FLAG_NEXT, FLAG_RESPOND, LEN_HEADER, TYPE_CANCEL, TYPE_ERROR, TYPE_KEEPALIVE,
    TYPE_METADATA_PUSH, TYPE_PAYLOAD, TYPE_REQUEST_CHANNEL, TYPE_REQUEST_FNF,
    TYPE_REQUEST_RESPONSE, TYPE_REQUEST_STREAM, TYPE_SETUP,
};
use super::duplex::{
    error_description, item_frames_of, payload_step_of, response_frames_of, route_of,
    setup_frame_of, Delivery, HandlerKind, PayloadStep, Route,
};
use crate::error::ERR_APPLICATION;
use vstd::utf8::{encode_utf8_decode_utf8, encode_utf8_valid_utf8};
use crate::payload::misc::utf8_present;
use crate::payload::setup::{setup_payload_of, SetupPayloadView};
use vstd::prelude::*;

verus! {

/// The data of the pieces, one after the other.
pub open spec fn pieces_data(ps: Seq<PayloadView>) -> Seq<u8>
    decreases ps.len(),
{
    if ps.len() == 0 {
        Seq::empty()
    } else {
        pieces_data(ps.drop_last()) + or_empty(ps.last().data)
    }
}

/// The metadata of the pieces, one after the other.
pub open spec fn pieces_metadata(ps: Seq<PayloadView>) -> Seq<u8>
    decreases ps.len(),
{
    if ps.len() == 0 {
        Seq::empty()
    } else {
        pieces_metadata(ps.drop_last()) + or_empty(ps.last().metadata)
    }
}

/// Joining two runs of pieces joins their bytes.
pub proof fn lemma_pieces_append(a: Seq<PayloadView>, b: Seq<PayloadView>)
    ensures
        pieces_data(a + b) == pieces_data(a) + pieces_data(b),
        pieces_metadata(a + b) == pieces_metadata(a) + pieces_metadata(b),
    decreases b.len(),
{
    if b.len() == 0 {
        assert(a + b =~= a);
    } else {
        assert((a + b).drop_last() =~= a + b.drop_last());
        assert((a + b).last() == b.last());
        lemma_pieces_append(a, b.drop_last());
    }
}

/// The piece that one step cuts and what remains make up what there was.
proof fn lemma_cut_step_parts(left: nat, meta: Option<Seq<u8>>, data: Option<Seq<u8>>)
    ensures
        ({
            let (p, m2, d2) = cut_step(left, meta, data);
            &&& or_empty(p.metadata) + or_empty(m2) == or_empty(meta)
            &&& or_empty(p.data) + or_empty(d2) == or_empty(data)
        }),
{
    let (m, meta2, left2) = take_piece(left, meta);
    match meta {
        Some(b) => {
            if left < b.len() {
                assert(b.take(left as int) + b.skip(left as int) =~= b);
            } else {
                assert(b + Seq::<u8>::empty() =~= b);
            }
        },
        None => {
            assert(Seq::<u8>::empty() + Seq::<u8>::empty() =~= Seq::<u8>::empty());
        },
    }
    if left2 > 0 {
        match data {
            Some(b) => {
                if left2 < b.len() {
                    assert(b.take(left2 as int) + b.skip(left2 as int) =~= b);
                } else {
                    assert(b + Seq::<u8>::empty() =~= b);
                }
            },
            None => {
                assert(Seq::<u8>::empty() + Seq::<u8>::empty() =~= Seq::<u8>::empty());
            },
        }
    } else {
        assert(Seq::<u8>::empty() + or_empty(data) =~= or_empty(data));
    }
}

/// Cutting loses no byte and adds none: the pieces' data, one after the
/// other, is the payload's data, and so is their metadata.
pub proof fn lemma_cut_concat(room: nat, left: nat, meta: Option<Seq<u8>>, data: Option<Seq<u8>>)
    requires
        room > 0,
    ensures
        pieces_data(cut_pieces(room, left, meta, data)) == or_empty(data),
        pieces_metadata(cut_pieces(room, left, meta, data)) == or_empty(meta),
    decreases remaining(meta, data), if left == 0 {
        1nat
    } else {
        0nat
    },
{
    if meta is None && data is None {
    } else {
        let (p, m2, d2) = cut_step(left, meta, data);
        let rest = cut_pieces(room, room, m2, d2);
        lemma_cut_step_parts(left, meta, data);
        lemma_cut_concat(room, room, m2, d2);
        lemma_pieces_append(seq![p], rest);
        let one = seq![p];
        assert(one.drop_last() =~= Seq::<PayloadView>::empty());
        assert(one.last() == p);
        assert(pieces_data(one.drop_last()) == Seq::<u8>::empty());
        assert(Seq::<u8>::empty() + or_empty(p.data) =~= or_empty(p.data));
        assert(Seq::<u8>::empty() + or_empty(p.metadata) =~= or_empty(p.metadata));
        assert(pieces_metadata(one.drop_last()) == Seq::<u8>::empty());
        assert(pieces_data(one) == or_empty(p.data));
        assert(pieces_metadata(one) == or_empty(p.metadata));
    }
}

/// What joining frames one after the other gives: the frames to process,
/// in order, and the fragments held at the end.
pub open spec fn join_all(pending: Option<Seq<FrameView>>, fs: Seq<FrameView>) -> (
    Seq<FrameView>,
    Option<Seq<FrameView>>,
)
    decreases fs.len(),
{
    if fs.len() == 0 {
        (Seq::empty(), pending)
    } else {
        let (out, p2) = join_step(pending, fs[0]);
        let (more, p3) = join_all(p2, fs.skip(1));
        (
            match out {
                Some(f) => seq![f] + more,
                None => more,
            },
            p3,
        )
    }
}

/// Whether a frame is a fragment that more fragments follow.
pub open spec fn is_following(f: FrameView) -> bool {
    &&& followable_or_payload(f.body).0
    &&& f.flag & FLAG_FOLLOW != 0
}

/// Fragments that more fragments follow are held, and nothing is processed.
proof fn lemma_join_following(pending: Option<Seq<FrameView>>, fs: Seq<FrameView>, k: int)
    requires
        1 <= k <= fs.len(),
        forall|i: int| 0 <= i < k ==> #[trigger] is_following(fs[i]),
    ensures
        join_all(pending, fs) == join_all(Some(held(pending) + fs.take(k)), fs.skip(k)),
    decreases k,
{
    assert(is_following(fs[0]));
    let p2 = Some(held(pending).push(fs[0]));
    assert(join_step(pending, fs[0]) == (None::<FrameView>, p2));
    if k == 1 {
        assert(held(pending) + fs.take(1) =~= held(pending).push(fs[0]));
    } else {
        let rest = fs.skip(1);
        assert forall|i: int| 0 <= i < k - 1 implies #[trigger] is_following(rest[i]) by {
            assert(rest[i] == fs[i + 1]);
        }
        lemma_join_following(p2, rest, k - 1);
        assert(held(p2) + rest.take(k - 1) =~= held(pending) + fs.take(k));
        assert(rest.skip(k - 1) =~= fs.skip(k));
    }
}

/// The flags that `set_all` leaves keep the FOLLOW bit as it was.
proof fn lemma_follow_bit(flag: u16, has_metadata: bool)
    ensures
        flag_with_metadata(flag, has_metadata) & FLAG_FOLLOW == flag & FLAG_FOLLOW,
        (flag | FLAG_FOLLOW) & FLAG_FOLLOW != 0,
{
    assert((flag | 0x100u16) & 0x80u16 == flag & 0x80u16) by (bit_vector);
    assert((flag & !0x100u16) & 0x80u16 == flag & 0x80u16) by (bit_vector);
    assert((flag | 0x80u16) & 0x80u16 != 0) by (bit_vector);
}

/// The flags that a request's frames get hold FOLLOW exactly where they should.
proof fn lemma_kind_flags(kind: SendKind, flag: u16)
    requires
        flag & FLAG_FOLLOW == 0,
    ensures
        single_flag(kind, flag) & FLAG_FOLLOW == 0,
        last_flag(kind, flag) & FLAG_FOLLOW == 0,
        follow_flag(kind, flag) & FLAG_FOLLOW != 0,
{
    assert(0u16 & 0x80u16 == 0) by (bit_vector);
    assert(0x80u16 & 0x80u16 != 0) by (bit_vector);
    lemma_follow_bit(flag, false);
}

/// The type code of the frames that start a request of `kind`.
pub open spec fn kind_type(kind: SendKind) -> u16 {
    match kind {
        SendKind::RequestResponse => TYPE_REQUEST_RESPONSE,
        SendKind::RequestStream => TYPE_REQUEST_STREAM,
        SendKind::RequestFNF => TYPE_REQUEST_FNF,
        SendKind::RequestChannel => TYPE_REQUEST_CHANNEL,
        SendKind::Payload => TYPE_PAYLOAD,
    }
}

/// A frame built of a kind is followable and carries its piece.
proof fn lemma_frame_with(kind: SendKind, sid: u32, flag: u16, piece: PayloadView)
    ensures
        followable_or_payload(frame_with(kind, sid, flag, piece).body).0,
        followable_or_payload(frame_with(kind, sid, flag, piece).body).1 == (kind == SendKind::Payload),
        split_parts(frame_with(kind, sid, flag, piece).body) == (piece.data, piece.metadata),
        frame_type(frame_with(kind, sid, flag, piece).body) == kind_type(kind),
        frame_with(kind, sid, flag, piece).stream_id == sid,
        frame_with(kind, sid, flag, piece).flag & FLAG_FOLLOW == flag & FLAG_FOLLOW,
{
    lemma_follow_bit(flag, piece.metadata is Some);
}

/// The frame that joining gives back from fragments whose first was built
/// of `kind` is of that kind, on the stream, and carries the joined bytes.
proof fn lemma_assembled(kind: SendKind, sid: u32, flag: u16, piece: PayloadView, joined: PayloadView)
    ensures
        assembled(frame_with(kind, sid, flag, piece), sid, joined).stream_id == sid,
        frame_type(assembled(frame_with(kind, sid, flag, piece), sid, joined).body) == kind_type(kind),
        split_parts(assembled(frame_with(kind, sid, flag, piece), sid, joined).body) == (
            joined.data,
            joined.metadata,
        ),
{
    match kind {
        SendKind::RequestResponse => {},
        SendKind::RequestFNF => {},
        SendKind::Payload => {},
        SendKind::RequestStream => {},
        SendKind::RequestChannel => {},
    }
}

/// Joined frames whose parts are the pieces' parts carry the pieces' bytes.
proof fn lemma_joined_is_pieces(fs: Seq<FrameView>, ps: Seq<PayloadView>)
    requires
        fs.len() == ps.len(),
        forall|i: int| 0 <= i < fs.len() ==> #[trigger] split_parts(fs[i].body) == (ps[i].data, ps[i].metadata),
    ensures
        joined_data(fs) == pieces_data(ps),
        joined_metadata(fs) == pieces_metadata(ps),
    decreases fs.len(),
{
    if fs.len() > 0 {
        let a = fs.drop_last();
        let b = ps.drop_last();
        assert forall|i: int| 0 <= i < a.len() implies #[trigger] split_parts(a[i].body) == (b[i].data, b[i].metadata) by {
            assert(a[i] == fs[i]);
            assert(b[i] == ps[i]);
        }
        lemma_joined_is_pieces(a, b);
        assert(split_parts(fs.last().body) == (ps.last().data, ps.last().metadata));
    }
}

/// Bytes that are absent when empty read back as the bytes.
proof fn lemma_or_empty_non_empty(s: Seq<u8>)
    ensures
        or_empty(non_empty(s)) == s,
{
    if s.len() == 0 {
        assert(s =~= Seq::<u8>::empty());
    }
}

/// The frames that a splitter of largest frame size `mtu` cuts a request
/// into, joined one after the other, give back one frame of the request.
proof fn lemma_cut_frames_rejoin(mtu: nat, kind: SendKind, sid: u32, flag: u16, p: PayloadView)
    requires
        mtu > LEN_HEADER + skip_of(kind),
        flag & FLAG_FOLLOW == 0,
    ensures
        ({
            let (out, rest) = join_all(None, planned_frames(Some(mtu), kind, sid, flag, p));
            &&& rest is None
            &&& out.len() == 1
            &&& out[0].stream_id == sid
            &&& frame_type(out[0].body) == kind_type(kind)
            &&& or_empty(split_parts(out[0].body).0) == or_empty(p.data)
            &&& or_empty(split_parts(out[0].body).1) == or_empty(p.metadata)
            &&& out[0].flag & FLAG_NEXT == single_flag(kind, flag) & FLAG_NEXT
            &&& out[0].flag & FLAG_COMPLETE == single_flag(kind, flag) & FLAG_COMPLETE
        }),
{
    let room = (mtu - LEN_HEADER) as nat;
    let left = (mtu - LEN_HEADER - skip_of(kind)) as nat;
    let ps = cut_pieces(room, left, p.metadata, p.data);
    let fs = fragment_frames(kind, sid, flag, ps);
    let n = ps.len();
    lemma_cut_concat(room, left, p.metadata, p.data);
    assert(planned_frames(Some(mtu), kind, sid, flag, p) == fs);
    lemma_kind_flags(kind, flag);
    lemma_outcome_bits(flag);
    if n == 0 {
        let f = empty_frame(kind, sid, single_flag(kind, flag));
        assert(fs == seq![f]);
        assert(join_step(None, f) == (Some(f), None::<Seq<FrameView>>));
        let none = fs.skip(1);
        assert(none =~= Seq::<FrameView>::empty());
        assert(join_all(None, none) == (Seq::<FrameView>::empty(), None::<Seq<FrameView>>));
        assert(seq![f] + Seq::<FrameView>::empty() =~= seq![f]);
        assert(join_all(None, fs) == (seq![f], None::<Seq<FrameView>>));
        assert(frame_type(f.body) == kind_type(kind)) by {
            match kind {
                SendKind::RequestResponse => {},
                SendKind::RequestFNF => {},
                SendKind::Payload => {},
                SendKind::RequestStream => {},
                SendKind::RequestChannel => {},
            }
        }
        assert(pieces_data(ps) == Seq::<u8>::empty());
        assert(pieces_metadata(ps) == Seq::<u8>::empty());
    } else if n == 1 {
        let f = frame_with(kind, sid, single_flag(kind, flag), ps[0]);
        lemma_frame_with(kind, sid, single_flag(kind, flag), ps[0]);
        lemma_metadata_keeps_outcome(single_flag(kind, flag), ps[0].metadata is Some);
        assert(fs == seq![f]);
        assert(join_step(None, f) == (Some(f), None::<Seq<FrameView>>));
        let none = fs.skip(1);
        assert(none =~= Seq::<FrameView>::empty());
        assert(join_all(None, none) == (Seq::<FrameView>::empty(), None::<Seq<FrameView>>));
        assert(seq![f] + Seq::<FrameView>::empty() =~= seq![f]);
        assert(join_all(None, fs) == (seq![f], None::<Seq<FrameView>>));
        assert(ps.drop_last() =~= Seq::<PayloadView>::empty());
        assert(pieces_data(ps.drop_last()) == Seq::<u8>::empty());
        assert(pieces_metadata(ps.drop_last()) == Seq::<u8>::empty());
        assert(Seq::<u8>::empty() + or_empty(ps[0].data) =~= or_empty(ps[0].data));
        assert(Seq::<u8>::empty() + or_empty(ps[0].metadata) =~= or_empty(ps[0].metadata));
    } else {
        assert forall|i: int| 0 <= i < n implies #[trigger] split_parts(fs[i].body) == (ps[i].data, ps[i].metadata) by {
            if i == 0 {
                lemma_frame_with(kind, sid, follow_flag(kind, flag), ps[0]);
            } else if i < n - 1 {
                lemma_frame_with(SendKind::Payload, sid, FLAG_FOLLOW, ps[i]);
            } else {
                lemma_frame_with(SendKind::Payload, sid, last_flag(kind, flag), ps[i]);
            }
        }
        assert forall|i: int| 0 <= i < n - 1 implies #[trigger] is_following(fs[i]) by {
            if i == 0 {
                lemma_frame_with(kind, sid, follow_flag(kind, flag), ps[0]);
                lemma_kind_flags(kind, flag);
            } else {
                lemma_frame_with(SendKind::Payload, sid, FLAG_FOLLOW, ps[i]);
                assert(0x80u16 & 0x80u16 != 0) by (bit_vector);
            }
        }
        lemma_join_following(None, fs, n - 1);
        let last = fs[n - 1];
        lemma_frame_with(SendKind::Payload, sid, last_flag(kind, flag), ps[n - 1]);
        let before = held(None::<Seq<FrameView>>) + fs.take(n - 1);
        assert(before =~= fs.take(n - 1));
        assert(fs.skip(n - 1) =~= seq![last]);
        assert(before.push(last) =~= fs);
        lemma_joined_is_pieces(fs, ps);
        let joined = joined_payload(fs);
        lemma_or_empty_non_empty(joined_data(fs));
        lemma_or_empty_non_empty(joined_metadata(fs));
        lemma_frame_with(kind, sid, follow_flag(kind, flag), ps[0]);
        let a = assembled(fs[0], sid, joined);
        assert(join_step(Some(before), last) == (Some(a), None::<Seq<FrameView>>));
        lemma_assembled(kind, sid, follow_flag(kind, flag), ps[0], joined);
        assert(same_outcome(a.flag, single_flag(kind, flag))) by {
            let x0 = follow_flag(kind, flag);
            let x1 = flag_with_metadata(x0, ps[0].metadata is Some);
            let x2 = x1 & !FLAG_FOLLOW;
            lemma_outcome_bits(flag);
            lemma_outcome_bits(x1);
            lemma_metadata_keeps_outcome(x0, ps[0].metadata is Some);
            lemma_metadata_keeps_outcome(x2, joined.metadata is Some);
            assert(same_outcome(x0, single_flag(kind, flag)));
            assert(same_outcome(x2, x1));
            assert(fs[0].flag == x1);
            assert(a.flag == flag_with_metadata(x2, joined.metadata is Some));
        }
        let one = seq![last];
        let none = one.skip(1);
        assert(none =~= Seq::<FrameView>::empty());
        assert(one[0] == last);
        assert(join_all(None, none) == (Seq::<FrameView>::empty(), None::<Seq<FrameView>>));
        assert(seq![a] + Seq::<FrameView>::empty() =~= seq![a]);
        assert(join_all(Some(before), one) == (seq![a], None::<Seq<FrameView>>));
    }
}

/// The number of bytes that a piece carries.
pub open spec fn piece_size(p: PayloadView) -> nat {
    or_empty(p.metadata).len() + or_empty(p.data).len()
}

/// The piece that one step cuts holds at most the room it was given.
proof fn lemma_cut_step_size(left: nat, meta: Option<Seq<u8>>, data: Option<Seq<u8>>)
    ensures
        piece_size(cut_step(left, meta, data).0) <= left,
{
}

/// Every piece fits its frame: the first carries at most `left` bytes of
/// metadata and data, every later one at most `room`.
pub proof fn lemma_pieces_fit(room: nat, left: nat, meta: Option<Seq<u8>>, data: Option<Seq<u8>>)
    requires
        room > 0,
    ensures
        forall|i: int|
            0 <= i < cut_pieces(room, left, meta, data).len() ==> piece_size(
                #[trigger] cut_pieces(room, left, meta, data)[i],
            ) <= if i == 0 {
                left
            } else {
                room
            },
    decreases remaining(meta, data), if left == 0 {
        1nat
    } else {
        0nat
    },
{
    if meta is None && data is None {
    } else {
        let (p, m2, d2) = cut_step(left, meta, data);
        let rest = cut_pieces(room, room, m2, d2);
        let all = cut_pieces(room, left, meta, data);
        lemma_cut_step_size(left, meta, data);
        lemma_pieces_fit(room, room, m2, d2);
        assert(all == seq![p] + rest);
        assert forall|i: int| 0 <= i < all.len() implies piece_size(#[trigger] all[i]) <= if i == 0 {
            left
        } else {
            room
        } by {
            if i > 0 {
                assert(all[i] == rest[i - 1]);
            }
        }
    }
}

/// A SETUP payload survives the SETUP frame that announces it: reading
/// the payload back from that frame gives it again, when its keepalive
/// interval and lifetime fit 32 bits and both of its MIME types are set
/// and valid UTF-8.
pub proof fn lemma_setup_payload_roundtrip(p: SetupPayloadView)
    requires
        p.keepalive.0 <= u32::MAX,
        p.keepalive.1 <= u32::MAX,
        utf8_present(p.mime_data),
        utf8_present(p.mime_metadata),
    ensures
        setup_frame_of(p).body matches BodyView::Setup(v) && setup_payload_of(v) == p,
{
}

/// Setting or clearing the metadata or the FOLLOW flag keeps the NEXT and
/// COMPLETE flags.
proof fn lemma_outcome_bits(x: u16)
    ensures
        (x | 0x100u16) & 0x20u16 == x & 0x20u16,
        (x | 0x100u16) & 0x40u16 == x & 0x40u16,
        (x & !0x100u16) & 0x20u16 == x & 0x20u16,
        (x & !0x100u16) & 0x40u16 == x & 0x40u16,
        (x | 0x80u16) & 0x20u16 == x & 0x20u16,
        (x | 0x80u16) & 0x40u16 == x & 0x40u16,
        (x & !0x80u16) & 0x20u16 == x & 0x20u16,
        (x & !0x80u16) & 0x40u16 == x & 0x40u16,
        0x80u16 & 0x20u16 == 0,
        0x80u16 & 0x40u16 == 0,
        0u16 & 0x20u16 == 0,
        0u16 & 0x40u16 == 0,
{
    assert((x | 0x100u16) & 0x20u16 == x & 0x20u16) by (bit_vector);
    assert((x | 0x100u16) & 0x40u16 == x & 0x40u16) by (bit_vector);
    assert((x & !0x100u16) & 0x20u16 == x & 0x20u16) by (bit_vector);
    assert((x & !0x100u16) & 0x40u16 == x & 0x40u16) by (bit_vector);
    assert((x | 0x80u16) & 0x20u16 == x & 0x20u16) by (bit_vector);
    assert((x | 0x80u16) & 0x40u16 == x & 0x40u16) by (bit_vector);
    assert((x & !0x80u16) & 0x20u16 == x & 0x20u16) by (bit_vector);
    assert((x & !0x80u16) & 0x40u16 == x & 0x40u16) by (bit_vector);
    assert(0x80u16 & 0x20u16 == 0) by (bit_vector);
    assert(0x80u16 & 0x40u16 == 0) by (bit_vector);
    assert(0u16 & 0x20u16 == 0) by (bit_vector);
    assert(0u16 & 0x40u16 == 0) by (bit_vector);
}

/// Whether two flags agree on NEXT and COMPLETE.
spec fn same_outcome(a: u16, b: u16) -> bool {
    a & FLAG_NEXT == b & FLAG_NEXT && a & FLAG_COMPLETE == b & FLAG_COMPLETE
}

/// The flags with the metadata flag set as `set_all` leaves it agree with
/// the flags given on NEXT and COMPLETE.
proof fn lemma_metadata_keeps_outcome(x: u16, m: bool)
    ensures
        same_outcome(flag_with_metadata(x, m), x),
{
    lemma_outcome_bits(x);
}

/// Fragmenting and joining give back the request: the frames that send a
/// payload `p` as `kind` on stream `sid` (cut into fragments when there is
/// a splitter of largest frame size `mtu`), joined one after the other as
/// they arrive, give one frame to process, with stream id `sid`, of the
/// same kind, that carries exactly the bytes of `p`'s data and of its
/// metadata, and whose NEXT and COMPLETE flags are those of a lone frame
/// of the request; no fragment stays held. (The caller's flags must not
/// hold FOLLOW.)
pub proof fn lemma_fragments_rejoin(
    mtu: Option<nat>,
    kind: SendKind,
    sid: u32,
    flag: u16,
    p: PayloadView,
)
    requires
        mtu matches Some(m) ==> m > LEN_HEADER + skip_of(kind),
        flag & FLAG_FOLLOW == 0,
    ensures
        ({
            let (out, rest) = join_all(None, planned_frames(mtu, kind, sid, flag, p));
            &&& rest is None
            &&& out.len() == 1
            &&& out[0].stream_id == sid
            &&& frame_type(out[0].body) == kind_type(kind)
            &&& or_empty(split_parts(out[0].body).0) == or_empty(p.data)
            &&& or_empty(split_parts(out[0].body).1) == or_empty(p.metadata)
            &&& out[0].flag & FLAG_NEXT == single_flag(kind, flag) & FLAG_NEXT
            &&& out[0].flag & FLAG_COMPLETE == single_flag(kind, flag) & FLAG_COMPLETE
        }),
{
    match mtu {
        Some(m) => lemma_cut_frames_rejoin(m, kind, sid, flag, p),
        None => {
            let f = frame_with(kind, sid, single_flag(kind, flag), p);
            let fs = planned_frames(mtu, kind, sid, flag, p);
            lemma_kind_flags(kind, flag);
            lemma_frame_with(kind, sid, single_flag(kind, flag), p);
            lemma_outcome_bits(single_flag(kind, flag));
            assert(fs == seq![f]);
            assert(join_step(None, f) == (Some(f), None::<Seq<FrameView>>));
            let none = fs.skip(1);
            assert(none =~= Seq::<FrameView>::empty());
            assert(join_all(None, none) == (Seq::<FrameView>::empty(), None::<Seq<FrameView>>));
            assert(seq![f] + Seq::<FrameView>::empty() =~= seq![f]);
        },
    }
}

/// One frame that cannot be a fragment held back, joined alone, is the
/// frame to process.
proof fn lemma_join_one(f: FrameView)
    requires
        f.flag & FLAG_FOLLOW == 0 || !followable_or_payload(f.body).0,
    ensures
        join_all(None, seq![f]) == (seq![f], None::<Seq<FrameView>>),
{
    assert(join_step(None, f) == (Some(f), None::<Seq<FrameView>>));
    let none = seq![f].skip(1);
    assert(none =~= Seq::<FrameView>::empty());
    assert(join_all(None, none) == (Seq::<FrameView>::empty(), None::<Seq<FrameView>>));
    assert(seq![f] + Seq::<FrameView>::empty() =~= seq![f]);
}

/// The answer to a request-response reaches the request that waits for
/// it: the frames that answer with a payload `p` (cut into fragments when
/// there is a splitter), joined as they arrive, give one PAYLOAD on the
/// stream that hands `p`'s bytes to the waiting request and ends it; an
/// answer without payload ends it empty; a failure reaches it as an ERROR
/// with the application error code and the failure's text.
pub proof fn lemma_response_reaches_requester(
    mtu: Option<nat>,
    sid: u32,
    result: Result<Option<PayloadView>, Seq<char>>,
)
    requires
        mtu matches Some(m) ==> m > LEN_HEADER,
    ensures
        ({
            let (out, rest) = join_all(None, response_frames_of(mtu, sid, result));
            &&& rest is None
            &&& out.len() == 1
            &&& out[0].stream_id == sid
            &&& match result {
                Ok(Some(p)) => {
                    &&& route_of(out[0]) == Route::Payload
                    &&& payload_step_of(Some(HandlerKind::RequestResponse), out[0].flag)
                        == (PayloadStep { deliver: Delivery::Value, remove: true })
                    &&& or_empty(split_parts(out[0].body).0) == or_empty(p.data)
                    &&& or_empty(split_parts(out[0].body).1) == or_empty(p.metadata)
                },
                Ok(None) => {
                    &&& route_of(out[0]) == Route::Payload
                    &&& payload_step_of(Some(HandlerKind::RequestResponse), out[0].flag)
                        == (PayloadStep { deliver: Delivery::Empty, remove: true })
                },
                Err(m) => {
                    &&& route_of(out[0]) == Route::Error
                    &&& out[0].body matches BodyView::Error(e)
                    &&& e.code == ERR_APPLICATION
                    &&& error_description(e) == m
                },
            }
        }),
{
    match result {
        Ok(Some(p)) => {
            let flag = (FLAG_NEXT | FLAG_COMPLETE) as u16;
            assert((0x20u16 | 0x40u16) & 0x80u16 == 0) by (bit_vector);
            assert(((0x20u16 | 0x40u16) & 0x20u16) != 0) by (bit_vector);
            lemma_fragments_rejoin(mtu, SendKind::Payload, sid, flag, p);
        },
        Ok(None) => {
            assert(0x40u16 & 0x80u16 == 0) by (bit_vector);
            assert(0x40u16 & 0x20u16 == 0) by (bit_vector);
            let f = FrameView {
                stream_id: sid,
                body: BodyView::Payload(PayloadView { metadata: None, data: None }),
                flag: FLAG_COMPLETE,
            };
            lemma_join_one(f);
        },
        Err(m) => {
            let f = super::duplex::error_frame_of(sid, ERR_APPLICATION, m);
            lemma_join_one(f);
            encode_utf8_decode_utf8(m);
            encode_utf8_valid_utf8(m);
        },
    }
}

/// The items of a stream reach the request that waits for them: the
/// frames that send an item `p` flagged NEXT, joined as they arrive, give
/// one PAYLOAD on the stream that hands `p`'s bytes to the waiting stream
/// and keeps it waiting; a failed item reaches it as an ERROR with the
/// application error code and the failure's text; the empty PAYLOAD
/// flagged COMPLETE ends it.
pub proof fn lemma_items_reach_requester(
    mtu: Option<nat>,
    sid: u32,
    item: Result<PayloadView, Seq<char>>,
)
    requires
        mtu matches Some(m) ==> m > LEN_HEADER,
    ensures
        ({
            let (out, rest) = join_all(None, item_frames_of(mtu, sid, FLAG_NEXT, item));
            &&& rest is None
            &&& out.len() == 1
            &&& out[0].stream_id == sid
            &&& match item {
                Ok(p) => {
                    &&& route_of(out[0]) == Route::Payload
                    &&& payload_step_of(Some(HandlerKind::RequestStream), out[0].flag)
                        == (PayloadStep { deliver: Delivery::Value, remove: false })
                    &&& or_empty(split_parts(out[0].body).0) == or_empty(p.data)
                    &&& or_empty(split_parts(out[0].body).1) == or_empty(p.metadata)
                },
                Err(m) => {
                    &&& route_of(out[0]) == Route::Error
                    &&& out[0].body matches BodyView::Error(e)
                    &&& e.code == ERR_APPLICATION
                    &&& error_description(e) == m
                },
            }
        }),
        payload_step_of(Some(HandlerKind::RequestStream), FLAG_COMPLETE) == (PayloadStep {
            deliver: Delivery::Nothing,
            remove: true,
        }),
{
    assert(0x40u16 & 0x20u16 == 0) by (bit_vector);
    assert(0x40u16 & 0x40u16 != 0) by (bit_vector);
    match item {
        Ok(p) => {
            assert(0x20u16 & 0x80u16 == 0) by (bit_vector);
            assert(0x20u16 & 0x20u16 != 0) by (bit_vector);
            assert(0x20u16 & 0x40u16 == 0) by (bit_vector);
            lemma_fragments_rejoin(mtu, SendKind::Payload, sid, FLAG_NEXT, p);
        },
        Err(m) => {
            let f = super::duplex::error_frame_of(sid, ERR_APPLICATION, m);
            lemma_join_one(f);
            encode_utf8_decode_utf8(m);
            encode_utf8_valid_utf8(m);
        },
    }
}

/// One step of cutting: when something remains, the piece filled all the
/// room it was given; a piece with data leaves no metadata behind.
proof fn lemma_cut_step_full(left: nat, meta: Option<Seq<u8>>, data: Option<Seq<u8>>)
    ensures
        ({
            let (p, m2, d2) = cut_step(left, meta, data);
            &&& (m2 is Some || d2 is Some) ==> piece_size(p) == left
            &&& p.data is Some ==> m2 is None
            &&& meta is None ==> p.metadata is None && m2 is None
            &&& data is None ==> p.data is None && d2 is None
        }),
{
}

/// Cutting a payload without metadata gives pieces without metadata.
proof fn lemma_pieces_no_metadata(room: nat, left: nat, data: Option<Seq<u8>>)
    requires
        room > 0,
    ensures
        forall|j: int|
            0 <= j < cut_pieces(room, left, None, data).len() ==> (#[trigger] cut_pieces(
                room,
                left,
                None,
                data,
            )[j]).metadata is None,
    decreases remaining(None, data), if left == 0 {
        1nat
    } else {
        0nat
    },
{
    if data is None {
    } else {
        let (p, m2, d2) = cut_step(left, None, data);
        let rest = cut_pieces(room, room, m2, d2);
        let all = cut_pieces(room, left, None, data);
        lemma_cut_step_full(left, None, data);
        lemma_pieces_no_metadata(room, room, d2);
        assert(all == seq![p] + rest);
        assert forall|j: int| 0 <= j < all.len() implies (#[trigger] all[j]).metadata is None by {
            if j > 0 {
                assert(all[j] == rest[j - 1]);
            }
        }
    }
}

/// Every piece but the last is full: the first carries exactly `left`
/// bytes of metadata and data, every later one exactly `room`; and data
/// comes only after all the metadata: no piece after one with data holds
/// metadata.
pub proof fn lemma_pieces_full(room: nat, left: nat, meta: Option<Seq<u8>>, data: Option<Seq<u8>>)
    requires
        room > 0,
    ensures
        forall|i: int|
            0 <= i < cut_pieces(room, left, meta, data).len() - 1 ==> piece_size(
                #[trigger] cut_pieces(room, left, meta, data)[i],
            ) == if i == 0 {
                left
            } else {
                room
            },
        forall|i: int, j: int|
            0 <= i < j < cut_pieces(room, left, meta, data).len() && (#[trigger] cut_pieces(
                room,
                left,
                meta,
                data,
            )[i]).data is Some ==> (#[trigger] cut_pieces(room, left, meta, data)[j]).metadata is None,
    decreases remaining(meta, data), if left == 0 {
        1nat
    } else {
        0nat
    },
{
    if meta is None && data is None {
    } else {
        let (p, m2, d2) = cut_step(left, meta, data);
        let rest = cut_pieces(room, room, m2, d2);
        let all = cut_pieces(room, left, meta, data);
        lemma_cut_step_full(left, meta, data);
        lemma_pieces_full(room, room, m2, d2);
        assert(all == seq![p] + rest);
        if p.data is Some {
            lemma_pieces_no_metadata(room, room, d2);
        }
        assert forall|i: int| 0 <= i < all.len() - 1 implies piece_size(#[trigger] all[i]) == if i
            == 0 {
            left
        } else {
            room
        } by {
            if i == 0 {
                assert(rest.len() > 0);
            } else {
                assert(all[i] == rest[i - 1]);
            }
        }
        assert forall|i: int, j: int|
            0 <= i < j < all.len() && (#[trigger] all[i]).data is Some implies (
            #[trigger] all[j]).metadata is None by {
            assert(all[j] == rest[j - 1]);
            if i > 0 {
                assert(all[i] == rest[i - 1]);
            }
        }
    }
}

/// The frames that carry the pieces of a payload as PAYLOAD frames.
pub open spec fn payload_frames(sid: u32, flag: u16, ps: Seq<PayloadView>) -> Seq<FrameView> {
    Seq::new(ps.len(), |i: int| frame_with(SendKind::Payload, sid, flag, ps[i]))
}

/// Joining undoes splitting: a joiner that holds, in order, PAYLOAD frames
/// built of the pieces that `Splitter::cut` gives of `p` hands back `p`
/// (each of its parts absent or not empty).
pub proof fn lemma_joiner_undoes_splitter(
    room: nat,
    left: nat,
    p: PayloadView,
    sid: u32,
    flag: u16,
)
    requires
        room > 0,
        data_decodable(p.data),
        data_decodable(p.metadata),
    ensures
        joined_payload(payload_frames(sid, flag, cut_pieces(room, left, p.metadata, p.data))) == p,
{
    let ps = cut_pieces(room, left, p.metadata, p.data);
    let fs = payload_frames(sid, flag, ps);
    assert forall|i: int| 0 <= i < fs.len() implies #[trigger] split_parts(fs[i].body) == (
        ps[i].data,
        ps[i].metadata,
    ) by {
        lemma_frame_with(SendKind::Payload, sid, flag, ps[i]);
    }
    lemma_joined_is_pieces(fs, ps);
    lemma_cut_concat(room, left, p.metadata, p.data);
}

/// Joining any fragments gives the frame they assemble: held fragments
/// that carry FOLLOW (the first a request or a payload), then a PAYLOAD
/// without FOLLOW, joined one after the other with nothing held before,
/// give one frame to process: of the first fragment's kind (a stream's or
/// a channel's count of items kept), on the last fragment's stream, with
/// all their data and all their metadata (absent when empty), and with the
/// first fragment's flags less FOLLOW and with the metadata flag exactly
/// when there is metadata; nothing stays held.
pub proof fn lemma_join_any(fs: Seq<FrameView>)
    requires
        fs.len() >= 2,
        forall|i: int| 0 <= i < fs.len() - 1 ==> #[trigger] is_following(fs[i]),
        followable_or_payload(fs.last().body) == (true, true),
        fs.last().flag & FLAG_FOLLOW == 0,
    ensures
        join_all(None, fs) == (
            seq![assembled(fs[0], fs.last().stream_id, joined_payload(fs))],
            None::<Seq<FrameView>>,
        ),
{
    let n = fs.len();
    let last = fs.last();
    lemma_join_following(None, fs, n - 1);
    let before = held(None::<Seq<FrameView>>) + fs.take(n - 1);
    assert(before =~= fs.take(n - 1));
    assert(fs.skip(n - 1) =~= seq![last]);
    assert(before.push(last) =~= fs);
    let a = assembled(fs[0], last.stream_id, joined_payload(fs));
    assert(join_step(Some(before), last) == (Some(a), None::<Seq<FrameView>>));
    let one = seq![last];
    let none = one.skip(1);
    assert(none =~= Seq::<FrameView>::empty());
    assert(one[0] == last);
    assert(join_all(None, none) == (Seq::<FrameView>::empty(), None::<Seq<FrameView>>));
    assert(seq![a] + Seq::<FrameView>::empty() =~= seq![a]);
    assert(join_all(Some(before), one) == (seq![a], None::<Seq<FrameView>>));
}

/// Setting the FOLLOW flag and the metadata flag, then clearing FOLLOW and
/// setting the metadata flag again, is setting the metadata flag alone.
proof fn lemma_follow_then_clear(x: u16, a: bool, b: bool)
    requires
        x & 0x80u16 == 0,
    ensures
        flag_with_metadata(flag_with_metadata(x | FLAG_FOLLOW, a) & !FLAG_FOLLOW, b)
            == flag_with_metadata(x, b),
{
    assert((((x | 0x80u16) | 0x100u16) & !0x80u16) | 0x100u16 == x | 0x100u16) by (bit_vector)
        requires
            x & 0x80u16 == 0,
    ;
    assert((((x | 0x80u16) | 0x100u16) & !0x80u16) & !0x100u16 == x & !0x100u16) by (bit_vector)
        requires
            x & 0x80u16 == 0,
    ;
    assert((((x | 0x80u16) & !0x100u16) & !0x80u16) | 0x100u16 == x | 0x100u16) by (bit_vector)
        requires
            x & 0x80u16 == 0,
    ;
    assert((((x | 0x80u16) & !0x100u16) & !0x80u16) & !0x100u16 == x & !0x100u16) by (bit_vector)
        requires
            x & 0x80u16 == 0,
    ;
}

/// When a payload with parts absent or not empty is cut into one piece,
/// that piece is the payload.
proof fn lemma_single_piece(room: nat, left: nat, meta: Option<Seq<u8>>, data: Option<Seq<u8>>)
    requires
        room > 0,
        cut_pieces(room, left, meta, data).len() == 1,
        data_decodable(meta),
        data_decodable(data),
    ensures
        cut_pieces(room, left, meta, data)[0] == (PayloadView { metadata: meta, data }),
{
    let (p, m2, d2) = cut_step(left, meta, data);
    assert(cut_pieces(room, left, meta, data) == seq![p] + cut_pieces(room, room, m2, d2));
    assert(m2 is None && d2 is None);
    lemma_cut_step_parts(left, meta, data);
    lemma_cut_step_full(left, meta, data);
    assert(or_empty(p.metadata) + Seq::<u8>::empty() =~= or_empty(p.metadata));
    assert(or_empty(p.data) + Seq::<u8>::empty() =~= or_empty(p.data));
}

/// The frame that fragments give back is the very frame that would have
/// carried the request alone: the frames that send `p` as `kind` (cut into
/// fragments when there is a splitter), joined one after the other, give
/// exactly the lone frame of the request, flags and count of items
/// included, when the caller's flags hold neither FOLLOW nor the metadata
/// flag and each part of `p` is absent or not empty.
pub proof fn lemma_fragments_rejoin_whole(
    mtu: Option<nat>,
    kind: SendKind,
    sid: u32,
    flag: u16,
    p: PayloadView,
)
    requires
        mtu matches Some(m) ==> m > LEN_HEADER + skip_of(kind),
        flag & FLAG_FOLLOW == 0,
        flag & METADATA_BIT == 0,
        data_decodable(p.data),
        data_decodable(p.metadata),
    ensures
        join_all(None, planned_frames(mtu, kind, sid, flag, p)) == (
            seq![frame_with(kind, sid, single_flag(kind, flag), p)],
            None::<Seq<FrameView>>,
        ),
{
    let single = single_flag(kind, flag);
    let whole = frame_with(kind, sid, single, p);
    lemma_kind_flags(kind, flag);
    lemma_frame_with(kind, sid, single, p);
    assert(single & 0x80u16 == 0);
    assert(single & 0x100u16 == 0) by {
        assert(0u16 & 0x100u16 == 0) by (bit_vector);
    }
    match mtu {
        None => {
            assert(planned_frames(mtu, kind, sid, flag, p) == seq![whole]);
            lemma_join_one(whole);
        },
        Some(m) => {
            let room = (m - LEN_HEADER) as nat;
            let left = (m - LEN_HEADER - skip_of(kind)) as nat;
            let ps = cut_pieces(room, left, p.metadata, p.data);
            let fs = fragment_frames(kind, sid, flag, ps);
            let n = ps.len();
            lemma_cut_concat(room, left, p.metadata, p.data);
            assert(planned_frames(mtu, kind, sid, flag, p) == fs);
            if n == 0 {
                let f = empty_frame(kind, sid, single);
                assert(p.metadata is None && p.data is None);
                assert(single & !0x100u16 == single) by (bit_vector)
                    requires
                        single & 0x100u16 == 0,
                ;
                assert(f == whole);
                assert(fs == seq![f]);
                lemma_join_one(f);
            } else if n == 1 {
                lemma_single_piece(room, left, p.metadata, p.data);
                assert(fs == seq![whole]);
                lemma_join_one(whole);
            } else {
                lemma_cut_frames_rejoin(m, kind, sid, flag, p);
                assert forall|i: int| 0 <= i < n - 1 implies #[trigger] is_following(fs[i]) by {
                    if i == 0 {
                        lemma_frame_with(kind, sid, follow_flag(kind, flag), ps[0]);
                    } else {
                        lemma_frame_with(SendKind::Payload, sid, FLAG_FOLLOW, ps[i]);
                        assert(0x80u16 & 0x80u16 != 0) by (bit_vector);
                    }
                }
                lemma_frame_with(SendKind::Payload, sid, last_flag(kind, flag), ps[n - 1]);
                lemma_join_any(fs);
                assert forall|i: int| 0 <= i < fs.len() implies #[trigger] split_parts(fs[i].body)
                    == (ps[i].data, ps[i].metadata) by {
                    if i == 0 {
                        lemma_frame_with(kind, sid, follow_flag(kind, flag), ps[0]);
                    } else if i < n - 1 {
                        lemma_frame_with(SendKind::Payload, sid, FLAG_FOLLOW, ps[i]);
                    } else {
                        lemma_frame_with(SendKind::Payload, sid, last_flag(kind, flag), ps[i]);
                    }
                }
                lemma_joined_is_pieces(fs, ps);
                let joined = joined_payload(fs);
                assert(joined == p);
                assert(follow_flag(kind, flag) == single | FLAG_FOLLOW) by {
                    assert(0u16 | 0x80u16 == 0x80u16) by (bit_vector);
                }
                lemma_follow_then_clear(single, ps[0].metadata is Some, p.metadata is Some);
                let a = assembled(fs[0], sid, joined);
                assert(a == whole);
            }
        },
    }
}

/// Each arriving frame goes where its type says: a SETUP to the acceptor,
/// a METADATA_PUSH and each kind of request to the responder's handler of
/// that same kind (a REQUEST_FNF to fire-and-forget), a PAYLOAD, an ERROR
/// or a CANCEL to the request on its stream, a KEEPALIVE to the answer
/// exactly when it has RESPOND.
pub proof fn lemma_route_by_type(f: FrameView)
    ensures
        (route_of(f) == Route::Setup) <==> frame_type(f.body) == TYPE_SETUP,
        (route_of(f) == Route::MetadataPush) <==> frame_type(f.body) == TYPE_METADATA_PUSH,
        (route_of(f) == Route::FireAndForget) <==> frame_type(f.body) == TYPE_REQUEST_FNF,
        (route_of(f) == Route::RequestResponse) <==> frame_type(f.body) == TYPE_REQUEST_RESPONSE,
        (route_of(f) == Route::RequestStream) <==> frame_type(f.body) == TYPE_REQUEST_STREAM,
        (route_of(f) == Route::RequestChannel) <==> frame_type(f.body) == TYPE_REQUEST_CHANNEL,
        (route_of(f) == Route::Payload) <==> frame_type(f.body) == TYPE_PAYLOAD,
        (route_of(f) == Route::Error) <==> frame_type(f.body) == TYPE_ERROR,
        (route_of(f) == Route::Cancel) <==> frame_type(f.body) == TYPE_CANCEL,
        (route_of(f) == Route::Keepalive) <==> (frame_type(f.body) == TYPE_KEEPALIVE && f.flag
            & FLAG_RESPOND != 0),
{
}

/// A PAYLOAD hands its value to a stream or a channel exactly when it has
/// NEXT, whatever COMPLETE says, and ends the stream exactly when it has
/// COMPLETE; it always ends a request-response, which takes the value when
/// NEXT is set and the end of the response otherwise; with no request
/// waiting it does nothing.
pub proof fn lemma_payload_delivery(handler: Option<HandlerKind>, flag: u16)
    ensures
        handler is None ==> payload_step_of(handler, flag) == (PayloadStep {
            deliver: Delivery::Nothing,
            remove: false,
        }),
        handler == Some(HandlerKind::RequestResponse) ==> {
            &&& payload_step_of(handler, flag).remove
            &&& payload_step_of(handler, flag).deliver != Delivery::Nothing
            &&& (payload_step_of(handler, flag).deliver == Delivery::Value <==> flag & FLAG_NEXT
                != 0)
        },
        (handler == Some(HandlerKind::RequestStream) || handler == Some(
            HandlerKind::RequestChannel,
        )) ==> {
            &&& payload_step_of(handler, flag).deliver != Delivery::Empty
            &&& (payload_step_of(handler, flag).deliver == Delivery::Value <==> flag & FLAG_NEXT
                != 0)
            &&& (payload_step_of(handler, flag).remove <==> flag & FLAG_COMPLETE != 0)
        },
{
}

/// A request that arrived in fragments is joined back, when the PAYLOAD
/// without FOLLOW comes, into one request of the same kind on that stream,
/// and nothing stays held; a stream or a channel asks for as many items as
/// its first fragment did.
pub proof fn lemma_join_keeps_request(fs: Seq<FrameView>, input: FrameView)
    requires
        fs.len() > 0,
        followable_or_payload(fs[0].body).0,
        input.body is Payload,
        input.flag & FLAG_FOLLOW == 0,
    ensures
        join_step(Some(fs), input).1 is None,
        join_step(Some(fs), input).0 matches Some(g) && {
            &&& g.stream_id == input.stream_id
            &&& frame_type(g.body) == frame_type(fs[0].body)
            &&& asked_items(g.body) == asked_items(fs[0].body)
        },
{
    assert(fs.push(input)[0] == fs[0]);
}

} // verus!
