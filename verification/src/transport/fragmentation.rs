//! Fragmentation: cutting a payload into pieces that fit a transport's
//! largest frame, and joining the fragments of a request back together.

use crate::buffer::{
    bytes_len, bytes_mut_len, bytes_mut_new, bytes_mut_view, bytes_split_to, extend_from_bytes,
    freeze, max_buffer_len,
};
use crate::frame::utils::{non_empty, opt_bytes, opt_ref_bytes, or_empty};
use crate::frame::{Body, BodyView, Frame, FrameView, PayloadView, FLAG_FOLLOW, LEN_HEADER};
use crate::payload::Payload;
use bytes::Bytes;
use vstd::prelude::*;

verus! {

/// The smallest largest-frame size that a connection accepts for
/// fragmentation.
pub const MIN_MTU: usize = 64;

/// Cuts payloads into pieces that fit frames of at most `mtu` bytes.
#[derive(Debug)]
pub struct Splitter {
    mtu: usize,
}

impl Clone for Splitter {
    fn clone(&self) -> (s: Self)
        ensures
            s@ == self@,
    {
        Splitter { mtu: self.mtu }
    }
}

impl View for Splitter {
    type V = nat;

    closed spec fn view(&self) -> nat {
        self.mtu as nat
    }
}

/// Cuts the first piece off `s`: at most `left` bytes, and what remains
/// (nothing when all of `s` fits), and how much room is left.
pub open spec fn take_piece(left: nat, s: Option<Seq<u8>>) -> (Option<Seq<u8>>, Option<Seq<u8>>, nat) {
    match s {
        Some(b) => if left < b.len() {
            (Some(b.take(left as int)), Some(b.skip(left as int)), 0)
        } else {
            (Some(b), None, (left - b.len()) as nat)
        },
        None => (None, None, left),
    }
}

/// One piece of a payload, given the room `left` in the frame: metadata
/// first, as much as fits; then data, as much as fits in what is left.
/// Gives the piece and the metadata and data that remain.
pub open spec fn cut_step(left: nat, meta: Option<Seq<u8>>, data: Option<Seq<u8>>) -> (
    PayloadView,
    Option<Seq<u8>>,
    Option<Seq<u8>>,
) {
    let (m, meta2, left2) = take_piece(left, meta);
    if left2 > 0 {
        let (d, data2, _) = take_piece(left2, data);
        (PayloadView { metadata: m, data: d }, meta2, data2)
    } else {
        (PayloadView { metadata: m, data: None }, meta2, data)
    }
}

/// A measure of what remains to be cut.
pub open spec fn remaining(meta: Option<Seq<u8>>, data: Option<Seq<u8>>) -> nat {
    (match meta {
        Some(m) => m.len() + 1,
        None => 0nat,
    }) + (match data {
        Some(d) => d.len() + 1,
        None => 0nat,
    })
}

/// The pieces that a payload is cut into: the first piece has room
/// `left`, every later one room `room`; cutting stops when no metadata
/// and no data remain.
pub open spec fn cut_pieces(room: nat, left: nat, meta: Option<Seq<u8>>, data: Option<Seq<u8>>) -> Seq<
    PayloadView,
>
    decreases remaining(meta, data), if left == 0 {
        1nat
    } else {
        0nat
    },
    when room > 0
{
    if meta is None && data is None {
        Seq::empty()
    } else {
        let (piece, meta2, data2) = cut_step(left, meta, data);
        seq![piece] + cut_pieces(room, room, meta2, data2)
    }
}

/// The room for metadata and data in a frame of `mtu` bytes whose body
/// starts with `skip` bytes of other fields.
pub open spec fn first_room(mtu: nat, skip: nat) -> nat {
    (mtu - LEN_HEADER - skip) as nat
}

/// The views of a sequence of payloads.
pub open spec fn payload_views(ps: Seq<Payload>) -> Seq<PayloadView> {
    ps.map_values(|p: Payload| p@)
}

impl Splitter {
    /// A splitter for frames of at most `mtu` bytes; `mtu` must exceed the
    /// length of a frame header.
    pub fn new(mtu: usize) -> (s: Splitter)
        requires
            mtu > LEN_HEADER,
        ensures
            s@ == mtu,
    {
        Splitter { mtu }
    }

    /// The largest frame size.
    pub fn mtu(&self) -> (n: usize)
        ensures
            n == self@,
    {
        self.mtu
    }

    /// Cuts `input` into pieces: each fits a frame of at most `mtu` bytes
    /// whose body also holds `skip` bytes of other fields in the first frame
    /// (the three bytes of metadata length are not counted).
    pub fn cut(&self, input: Payload, skip: usize) -> (r: Vec<Payload>)
        requires
            self@ > LEN_HEADER,
            skip <= self@ - LEN_HEADER,
        ensures
            payload_views(r@) == cut_pieces(
                (self@ - LEN_HEADER) as nat,
                first_room(self@, skip as nat),
                input@.metadata,
                input@.data,
            ),
    {
        let room: usize = self.mtu - LEN_HEADER;
        let (data0, meta0) = input.split();
        let mut data = data0;
        let mut meta = meta0;
        let mut left0: usize = room - skip;
        let mut out: Vec<Payload> = Vec::new();
        let ghost total = cut_pieces(room as nat, left0 as nat, opt_bytes(meta), opt_bytes(data));
        while meta.is_some() || data.is_some()
            invariant
                room > 0,
                room == self@ - LEN_HEADER,
                left0 <= room,
                payload_views(out@) + cut_pieces(room as nat, left0 as nat, opt_bytes(meta), opt_bytes(data))
                    == total,
            decreases remaining(opt_bytes(meta), opt_bytes(data)), if left0 == 0 {
                1nat
            } else {
                0nat
            },
        {
            let ghost before = (opt_bytes(meta), opt_bytes(data));
            let mut left: usize = left0;
            let mut m: Option<Bytes> = None;
            let mut d: Option<Bytes> = None;
            match meta.take() {
                Some(it) => {
                    let mut it = it;
                    let msize = bytes_len(&it);
                    if left < msize {
                        m = Some(bytes_split_to(&mut it, left));
                        left = 0;
                        meta = Some(it);
                    } else {
                        m = Some(it);
                        left = left - msize;
                    }
                },
                None => {},
            }
            if left > 0 {
                match data.take() {
                    Some(it) => {
                        let mut it = it;
                        let dsize = bytes_len(&it);
                        if left < dsize {
                            d = Some(bytes_split_to(&mut it, left));
                            data = Some(it);
                        } else {
                            d = Some(it);
                        }
                    },
                    None => {},
                }
            }
            let piece = Payload::new(d, m);
            proof {
                let (p, m2, d2) = cut_step(left0 as nat, before.0, before.1);
                assert(piece@ == p);
                assert(opt_bytes(meta) == m2);
                assert(opt_bytes(data) == d2);
                assert(cut_pieces(room as nat, left0 as nat, before.0, before.1) == seq![p]
                    + cut_pieces(room as nat, room as nat, m2, d2));
                assert(payload_views(out@.push(piece)) =~= payload_views(out@).push(piece@));
            }
            out.push(piece);
            left0 = room;
            proof {
                assert(payload_views(out@) + cut_pieces(room as nat, left0 as nat, opt_bytes(meta), opt_bytes(data))
                    =~= total);
            }
        }
        proof {
            assert(cut_pieces(room as nat, left0 as nat, opt_bytes(meta), opt_bytes(data)) =~= Seq::<PayloadView>::empty());
            assert(payload_views(out@) =~= total);
        }
        out
    }
}

/// Collects the fragments of one request or payload, in order.
pub struct Joiner {
    inner: Vec<Frame>,
}

impl View for Joiner {
    type V = Seq<FrameView>;

    closed spec fn view(&self) -> Seq<FrameView> {
        self.inner@.map_values(|f: Frame| f@)
    }
}

/// The data and the metadata that a body carries: requests and payloads
/// carry both, every other body neither.
pub open spec fn split_parts(b: BodyView) -> (Option<Seq<u8>>, Option<Seq<u8>>) {
    match b {
        BodyView::RequestResponse(v) => (v.data, v.metadata),
        BodyView::RequestFNF(v) => (v.data, v.metadata),
        BodyView::Payload(v) => (v.data, v.metadata),
        BodyView::RequestStream(v) => (v.data, v.metadata),
        BodyView::RequestChannel(v) => (v.data, v.metadata),
        _ => (None, None),
    }
}

/// The data of the frames, one after the other.
pub open spec fn joined_data(fs: Seq<FrameView>) -> Seq<u8>
    decreases fs.len(),
{
    if fs.len() == 0 {
        Seq::empty()
    } else {
        joined_data(fs.drop_last()) + or_empty(split_parts(fs.last().body).0)
    }
}

/// The metadata of the frames, one after the other.
pub open spec fn joined_metadata(fs: Seq<FrameView>) -> Seq<u8>
    decreases fs.len(),
{
    if fs.len() == 0 {
        Seq::empty()
    } else {
        joined_metadata(fs.drop_last()) + or_empty(split_parts(fs.last().body).1)
    }
}

/// The payload that joined fragments carry: all their data, all their
/// metadata, each absent when empty.
pub open spec fn joined_payload(fs: Seq<FrameView>) -> PayloadView {
    PayloadView { metadata: non_empty(joined_metadata(fs)), data: non_empty(joined_data(fs)) }
}

/// The data and the metadata of a body.
pub fn body_parts(b: &Body) -> (r: (Option<&Bytes>, Option<&Bytes>))
    ensures
        (opt_ref_bytes(r.0), opt_ref_bytes(r.1)) == split_parts(b@),
{
    match b {
        Body::RequestResponse(body) => (body.get_data(), body.get_metadata()),
        Body::RequestStream(body) => (body.get_data(), body.get_metadata()),
        Body::RequestChannel(body) => (body.get_data(), body.get_metadata()),
        Body::RequestFNF(body) => (body.get_data(), body.get_metadata()),
        Body::Payload(body) => (body.get_data(), body.get_metadata()),
        _ => (None, None),
    }
}

impl Joiner {
    /// A joiner without fragments.
    pub fn new() -> (j: Joiner)
        ensures
            j@ == Seq::<FrameView>::empty(),
    {
        let j = Joiner { inner: Vec::new() };
        proof {
            assert(j@ =~= Seq::<FrameView>::empty());
        }
        j
    }

    /// The stream id of the first fragment.
    pub fn get_stream_id(&self) -> (id: u32)
        requires
            self@.len() > 0,
        ensures
            id == self@[0].stream_id,
    {
        self.first().get_stream_id()
    }

    /// The flags of the first fragment, without the FOLLOW flag.
    pub fn get_flag(&self) -> (f: u16)
        requires
            self@.len() > 0,
        ensures
            f == self@[0].flag & !FLAG_FOLLOW,
    {
        self.first().get_flag() & !Frame::FLAG_FOLLOW
    }

    /// The first fragment.
    pub fn first(&self) -> (f: &Frame)
        requires
            self@.len() > 0,
        ensures
            f@ == self@[0],
    {
        &self.inner[0]
    }

    /// Adds the next fragment.
    pub fn push(&mut self, next: Frame)
        ensures
            final(self)@ == old(self)@.push(next@),
    {
        self.inner.push(next);
        proof {
            assert(final(self)@ =~= old(self)@.push(next@));
        }
    }

    /// The payload that the fragments carry together.
    pub fn into_payload(self) -> (p: Payload)
        requires
            joined_data(self@).len() <= max_buffer_len(),
            joined_metadata(self@).len() <= max_buffer_len(),
        ensures
            p@ == joined_payload(self@),
    {
        let mut bf = bytes_mut_new();
        let mut bf2 = bytes_mut_new();
        let n = self.inner.len();
        let mut i: usize = 0;
        while i < n
            invariant
                n == self.inner.len(),
                n == self@.len(),
                0 <= i <= n,
                joined_data(self@).len() <= max_buffer_len(),
                joined_metadata(self@).len() <= max_buffer_len(),
                bytes_mut_view(bf) == joined_data(self@.take(i as int)),
                bytes_mut_view(bf2) == joined_metadata(self@.take(i as int)),
            decreases n - i,
        {
            proof {
                assert(self@.take(i + 1).drop_last() =~= self@.take(i as int));
                assert(self@.take(i + 1).last() == self@[i as int]);
                lemma_joined_prefix_le(self@, i + 1);
            }
            let (d, m) = body_parts(self.inner[i].get_body_ref());
            if let Some(raw) = d {
                extend_from_bytes(&mut bf, raw);
            }
            if let Some(raw) = m {
                extend_from_bytes(&mut bf2, raw);
            }
            proof {
                assert(bytes_mut_view(bf) =~= joined_data(self@.take(i + 1)));
                assert(bytes_mut_view(bf2) =~= joined_metadata(self@.take(i + 1)));
            }
            i = i + 1;
        }
        proof {
            assert(self@.take(n as int) =~= self@);
        }
        let data = if bytes_mut_len(&bf) == 0 {
            None
        } else {
            Some(freeze(bf))
        };
        let metadata = if bytes_mut_len(&bf2) == 0 {
            None
        } else {
            Some(freeze(bf2))
        };
        Payload::new(data, metadata)
    }
}

/// Joined prefixes are no longer than the whole.
pub proof fn lemma_joined_prefix_le(fs: Seq<FrameView>, k: int)
    requires
        0 <= k <= fs.len(),
    ensures
        joined_data(fs.take(k)).len() <= joined_data(fs).len(),
        joined_metadata(fs.take(k)).len() <= joined_metadata(fs).len(),
    decreases fs.len(),
{
    if k < fs.len() {
        assert(fs.drop_last().take(k) =~= fs.take(k));
        lemma_joined_prefix_le(fs.drop_last(), k);
    } else {
        assert(fs.take(k) =~= fs);
    }
}

} // verus!
