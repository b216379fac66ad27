//! The decisions of a connection: which frames carry a request or a
//! payload (cut into fragments when the connection fragments), and how the
//! fragments that arrive are joined back into one frame.

use super::fragmentation::{
    cut_pieces, first_room, joined_data, joined_metadata, joined_payload, payload_views, Joiner,
    Splitter,
};
use crate::buffer::max_buffer_len;
use crate::frame::utils::METADATA_BIT;
use crate::frame::{
    followable_or_payload, frame_type, Body, BodyView, Frame, FrameView, PayloadView, RequestChannel,
    RequestFNF, RequestResponse, RequestStream, StreamView, FLAG_FOLLOW, LEN_HEADER, REQUEST_MAX,
};
use crate::payload::Payload;
use vstd::prelude::*;

verus! {

/// The kind of frame that starts a request, or that carries a payload.
#[derive(Debug, Clone, Copy, PartialEq, Eq, Structural)]
pub enum SendKind {
    RequestResponse,
    RequestStream,
    RequestFNF,
    RequestChannel,
    Payload,
}

/// The flags after `set_all`: the metadata flag set exactly when there is
/// metadata.
pub open spec fn flag_with_metadata(flag: u16, has_metadata: bool) -> u16 {
    if has_metadata {
        flag | METADATA_BIT
    } else {
        flag & !METADATA_BIT
    }
}

/// The body of the given kind that carries `piece`; streams and channels
/// ask for `n` items.
pub open spec fn body_of(kind: SendKind, n: u32, piece: PayloadView) -> BodyView {
    match kind {
        SendKind::RequestResponse => BodyView::RequestResponse(piece),
        SendKind::RequestFNF => BodyView::RequestFNF(piece),
        SendKind::Payload => BodyView::Payload(piece),
        SendKind::RequestStream => BodyView::RequestStream(
            StreamView { initial_request_n: n, metadata: piece.metadata, data: piece.data },
        ),
        SendKind::RequestChannel => BodyView::RequestChannel(
            StreamView { initial_request_n: n, metadata: piece.metadata, data: piece.data },
        ),
    }
}

/// The frame that a builder of `kind` with `sid` and `flag` builds after
/// `set_all` with `piece`.
pub open spec fn frame_with(kind: SendKind, sid: u32, flag: u16, piece: PayloadView) -> FrameView {
    FrameView {
        stream_id: sid,
        body: body_of(kind, REQUEST_MAX, piece),
        flag: flag_with_metadata(flag, piece.metadata is Some),
    }
}

/// The frame that a builder of `kind` with `sid` and `flag` builds with
/// nothing set.
pub open spec fn empty_frame(kind: SendKind, sid: u32, flag: u16) -> FrameView {
    FrameView {
        stream_id: sid,
        body: body_of(kind, REQUEST_MAX, PayloadView { metadata: None, data: None }),
        flag: flag,
    }
}

/// The bytes that the first frame of `kind` holds before its metadata and
/// data: the number of items asked for, for streams and channels.
pub open spec fn skip_of(kind: SendKind) -> nat {
    match kind {
        SendKind::RequestStream => 4,
        SendKind::RequestChannel => 4,
        _ => 0,
    }
}

/// The flags of the first of several fragments.
pub open spec fn follow_flag(kind: SendKind, flag: u16) -> u16 {
    match kind {
        SendKind::RequestChannel => flag | FLAG_FOLLOW,
        SendKind::Payload => flag | FLAG_FOLLOW,
        _ => FLAG_FOLLOW,
    }
}

/// The flags of a frame that carries everything alone.
pub open spec fn single_flag(kind: SendKind, flag: u16) -> u16 {
    match kind {
        SendKind::RequestChannel => flag,
        SendKind::Payload => flag,
        _ => 0,
    }
}

/// The flags of the last of several fragments.
pub open spec fn last_flag(kind: SendKind, flag: u16) -> u16 {
    match kind {
        SendKind::Payload => flag,
        _ => 0,
    }
}

/// The frames that carry the pieces: the first as `kind`, with FOLLOW;
/// the middle ones as PAYLOAD with FOLLOW; the last as PAYLOAD without it.
/// One piece goes alone in a frame of `kind`; no piece gives an empty one.
pub open spec fn fragment_frames(kind: SendKind, sid: u32, flag: u16, pieces: Seq<PayloadView>) -> Seq<
    FrameView,
> {
    let n = pieces.len();
    if n == 0 {
        seq![empty_frame(kind, sid, single_flag(kind, flag))]
    } else if n == 1 {
        seq![frame_with(kind, sid, single_flag(kind, flag), pieces[0])]
    } else {
        Seq::new(
            n,
            |i: int|
                if i == 0 {
                    frame_with(kind, sid, follow_flag(kind, flag), pieces[0])
                } else if i < n - 1 {
                    frame_with(SendKind::Payload, sid, FLAG_FOLLOW, pieces[i])
                } else {
                    frame_with(SendKind::Payload, sid, last_flag(kind, flag), pieces[i])
                },
        )
    }
}

/// The frames that send `p` as `kind` on stream `sid`: one frame without
/// fragmentation; with a largest frame size `mtu`, the fragments.
pub open spec fn planned_frames(
    mtu: Option<nat>,
    kind: SendKind,
    sid: u32,
    flag: u16,
    p: PayloadView,
) -> Seq<FrameView> {
    match mtu {
        None => seq![frame_with(kind, sid, single_flag(kind, flag), p)],
        Some(m) => fragment_frames(
            kind,
            sid,
            flag,
            cut_pieces((m - LEN_HEADER) as nat, first_room(m, skip_of(kind)), p.metadata, p.data),
        ),
    }
}

/// The largest frame size of an optional splitter.
pub open spec fn mtu_of(splitter: Option<Splitter>) -> Option<nat> {
    match splitter {
        Some(s) => Some(s@),
        None => None,
    }
}

/// The views of a sequence of frames.
pub open spec fn frame_views(fs: Seq<Frame>) -> Seq<FrameView> {
    fs.map_values(|f: Frame| f@)
}

/// Builds a frame of `kind` with `sid` and `flag` that carries `piece`.
fn build_with(kind: SendKind, sid: u32, flag: u16, piece: Payload) -> (f: Frame)
    ensures
        f@ == frame_with(kind, sid, flag, piece@),
{
    match kind {
        SendKind::RequestResponse => RequestResponse::builder(sid, flag).set_all(piece.split()).build(),
        SendKind::RequestFNF => RequestFNF::builder(sid, flag).set_all(piece.split()).build(),
        SendKind::Payload => crate::frame::Payload::builder(sid, flag).set_all(piece.split()).build(),
        SendKind::RequestStream => RequestStream::builder(sid, flag).set_all(piece.split()).build(),
        SendKind::RequestChannel => RequestChannel::builder(sid, flag).set_all(piece.split()).build(),
    }
}

/// Builds a frame of `kind` with `sid` and `flag` that carries nothing.
fn build_empty(kind: SendKind, sid: u32, flag: u16) -> (f: Frame)
    ensures
        f@ == empty_frame(kind, sid, flag),
{
    match kind {
        SendKind::RequestResponse => RequestResponse::builder(sid, flag).build(),
        SendKind::RequestFNF => RequestFNF::builder(sid, flag).build(),
        SendKind::Payload => crate::frame::Payload::builder(sid, flag).build(),
        SendKind::RequestStream => RequestStream::builder(sid, flag).build(),
        SendKind::RequestChannel => RequestChannel::builder(sid, flag).build(),
    }
}

/// The frames that send `input` as `kind` on stream `sid`, in order: cut
/// into fragments when there is a splitter, else in one frame. (A request
/// uses flags of its own; a channel's first frame and a payload's frames
/// use `flag`.)
pub fn fragments(
    splitter: &Option<Splitter>,
    kind: SendKind,
    sid: u32,
    flag: u16,
    input: Payload,
) -> (r: Vec<Frame>)
    requires
        splitter matches Some(sp) ==> sp@ > LEN_HEADER + skip_of(kind),
    ensures
        frame_views(r@) == planned_frames(mtu_of(*splitter), kind, sid, flag, input@),
{
    let mut out: Vec<Frame> = Vec::new();
    let skip: usize = match kind {
        SendKind::RequestStream => 4,
        SendKind::RequestChannel => 4,
        _ => 0,
    };
    let first_flag: u16 = match kind {
        SendKind::RequestChannel => flag | Frame::FLAG_FOLLOW,
        SendKind::Payload => flag | Frame::FLAG_FOLLOW,
        _ => Frame::FLAG_FOLLOW,
    };
    let alone_flag: u16 = match kind {
        SendKind::RequestChannel => flag,
        SendKind::Payload => flag,
        _ => 0,
    };
    let end_flag: u16 = match kind {
        SendKind::Payload => flag,
        _ => 0,
    };
    match splitter {
        Some(sp) => {
            let pieces = sp.cut(input, skip);
            let ghost ps = payload_views(pieces@);
            let n = pieces.len();
            let mut cuts: usize = 0;
            let mut prev: Option<Payload> = None;
            let mut rest = pieces;
            let ghost target = fragment_frames(kind, sid, flag, ps);
            proof {
                assert(ps.len() == n);
            }
            while rest.len() > 0
                invariant
                    ps.len() == n,
                    cuts + rest.len() == n,
                    target == fragment_frames(kind, sid, flag, ps),
                    first_flag == follow_flag(kind, flag),
                    forall|j: int| 0 <= j < rest.len() ==> #[trigger] rest@[j]@ == ps[cuts + j],
                    cuts == 0 <==> prev is None,
                    prev matches Some(p) ==> p@ == ps[cuts - 1],
                    cuts >= 1 ==> out@.len() == cuts - 1,
                    cuts == 0 ==> out@.len() == 0,
                    n >= 2 ==> forall|j: int| 0 <= j < out@.len() ==> #[trigger] frame_views(out@)[j] == target[j],
                decreases rest.len(),
            {
                let next = rest.remove(0);
                if let Some(cur) = prev.take() {
                    let sending: Frame = if cuts == 1 {
                        build_with(kind, sid, first_flag, cur)
                    } else {
                        build_with(SendKind::Payload, sid, Frame::FLAG_FOLLOW, cur)
                    };
                    proof {
                        assert(frame_views(out@.push(sending)) =~= frame_views(out@).push(sending@));
                    }
                    out.push(sending);
                }
                prev = Some(next);
                cuts = cuts + 1;
            }
            let sending = if cuts == 0 {
                build_empty(kind, sid, alone_flag)
            } else if cuts == 1 {
                build_with(kind, sid, alone_flag, prev.unwrap())
            } else {
                build_with(SendKind::Payload, sid, end_flag, prev.unwrap())
            };
            proof {
                assert(frame_views(out@.push(sending)) =~= frame_views(out@).push(sending@));
            }
            out.push(sending);
            proof {
                assert(frame_views(out@) =~= target);
            }
        },
        None => {
            let sending = build_with(kind, sid, alone_flag, input);
            out.push(sending);
            proof {
                assert(frame_views(out@) =~= seq![sending@]);
            }
        },
    }
    out
}

/// The frame that joined fragments make: the kind and the flags (without
/// FOLLOW) of the first fragment, the stream id `sid`, all their data and
/// metadata; streams and channels keep the number that the first asked for.
pub open spec fn assembled(first: FrameView, sid: u32, joined: PayloadView) -> FrameView {
    let flag = first.flag & !FLAG_FOLLOW;
    match first.body {
        BodyView::RequestResponse(_) => frame_with(SendKind::RequestResponse, sid, flag, joined),
        BodyView::RequestFNF(_) => frame_with(SendKind::RequestFNF, sid, flag, joined),
        BodyView::Payload(_) => frame_with(SendKind::Payload, sid, flag, joined),
        BodyView::RequestStream(b) => FrameView {
            stream_id: sid,
            body: body_of(SendKind::RequestStream, b.initial_request_n, joined),
            flag: flag_with_metadata(flag, joined.metadata is Some),
        },
        BodyView::RequestChannel(b) => FrameView {
            stream_id: sid,
            body: body_of(SendKind::RequestChannel, b.initial_request_n, joined),
            flag: flag_with_metadata(flag, joined.metadata is Some),
        },
        _ => first,
    }
}

/// The number of items that a stream or a channel asks for first; none
/// for any other body.
pub open spec fn asked_items(b: BodyView) -> Option<u32> {
    match b {
        BodyView::RequestStream(v) => Some(v.initial_request_n),
        BodyView::RequestChannel(v) => Some(v.initial_request_n),
        _ => None,
    }
}

/// The fragments held for a stream, or none.
pub open spec fn held(pending: Option<Seq<FrameView>>) -> Seq<FrameView> {
    match pending {
        Some(fs) => fs,
        None => Seq::empty(),
    }
}

/// What arriving frame `input` gives, with fragments `pending` held for its
/// stream: the frame to process now (if any) and the fragments to hold.
/// Frames that cannot be fragments pass; a frame with FOLLOW is held; a
/// request without FOLLOW passes; a PAYLOAD without FOLLOW ends the held
/// fragments, which are joined into one frame.
pub open spec fn join_step(pending: Option<Seq<FrameView>>, input: FrameView) -> (
    Option<FrameView>,
    Option<Seq<FrameView>>,
) {
    let (is_follow, is_payload) = followable_or_payload(input.body);
    if !is_follow {
        (Some(input), pending)
    } else if input.flag & FLAG_FOLLOW != 0 {
        (None, Some(held(pending).push(input)))
    } else if !is_payload {
        (Some(input), pending)
    } else {
        match pending {
            None => (Some(input), None),
            Some(fs) => {
                let all = fs.push(input);
                (Some(assembled(all[0], input.stream_id, joined_payload(all))), None)
            },
        }
    }
}

/// Whether held fragments are as joining leaves them: at least one, the
/// first a request or a payload.
pub open spec fn pending_wf(pending: Option<Seq<FrameView>>) -> bool {
    pending matches Some(fs) ==> fs.len() > 0 && followable_or_payload(fs[0].body).0
}

/// The views of optional held fragments.
pub open spec fn pending_view(pending: Option<Joiner>) -> Option<Seq<FrameView>> {
    match pending {
        Some(j) => Some(j@),
        None => None,
    }
}

/// The view of an optional frame.
pub open spec fn opt_frame_view(f: Option<Frame>) -> Option<FrameView> {
    match f {
        Some(x) => Some(x@),
        None => None,
    }
}

/// Takes an arriving frame with the fragments held for its stream: gives
/// the frame to process now, if any, and the fragments to hold from now on.
pub fn join_frame(pending: Option<Joiner>, input: Frame) -> (r: (Option<Frame>, Option<Joiner>))
    requires
        pending_wf(pending_view(pending)),
        joined_data(held(pending_view(pending)).push(input@)).len() <= max_buffer_len(),
        joined_metadata(held(pending_view(pending)).push(input@)).len() <= max_buffer_len(),
    ensures
        (opt_frame_view(r.0), pending_view(r.1)) == join_step(pending_view(pending), input@),
        pending_wf(pending_view(r.1)),
        (pending_view(pending) is Some && followable_or_payload(input@.body).1
            && input@.flag & FLAG_FOLLOW == 0) ==> {
            &&& r.1 is None
            &&& r.0 matches Some(g) && {
                &&& g@.stream_id == input@.stream_id
                &&& frame_type(g@.body) == frame_type(pending_view(pending)->0[0].body)
                &&& asked_items(g@.body) == asked_items(pending_view(pending)->0[0].body)
            }
        },
{
    let (is_follow, is_payload) = input.is_followable_or_payload();
    if !is_follow {
        return (Some(input), pending);
    }
    let sid = input.get_stream_id();
    if input.get_flag() & Frame::FLAG_FOLLOW != 0 {
        let mut joiner = match pending {
            Some(j) => j,
            None => Joiner::new(),
        };
        joiner.push(input);
        return (None, Some(joiner));
    }
    if !is_payload {
        return (Some(input), pending);
    }
    match pending {
        None => (Some(input), None),
        Some(j) => {
            let mut joiner = j;
            joiner.push(input);
            let flag = joiner.get_flag();
            let first = joiner.first();
            let (kind, n) = match first.get_body_ref() {
                Body::RequestResponse(_) => (SendKind::RequestResponse, REQUEST_MAX),
                Body::RequestStream(b) => (SendKind::RequestStream, b.get_initial_request_n()),
                Body::RequestFNF(_) => (SendKind::RequestFNF, REQUEST_MAX),
                Body::RequestChannel(b) => (SendKind::RequestChannel, b.get_initial_request_n()),
                _ => (SendKind::Payload, REQUEST_MAX),
            };
            let pa = joiner.into_payload();
            let result = match kind {
                SendKind::RequestStream => RequestStream::builder(sid, flag).set_initial_request_n(
                    n,
                ).set_all(pa.split()).build(),
                SendKind::RequestChannel => RequestChannel::builder(sid, flag).set_initial_request_n(
                    n,
                ).set_all(pa.split()).build(),
                _ => build_with(kind, sid, flag, pa),
            };
            (Some(result), None)
        },
    }
}

} // verus!
