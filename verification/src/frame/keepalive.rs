use super::utils::{non_empty, opt_bytes, opt_ref_bytes, or_empty, Decoding};
use super::{Body, BodyView, BuilderView, Frame, FrameView};
use crate::buffer::{
    bytes_from_vec, bytes_len, bytes_mut_len, bytes_mut_to_vec, bytes_mut_view, bytes_view,
    extend_from_bytes, get_u64, put_u64,
};
use crate::endian::{be64, be64_value};
use crate::error::RSocketError;
use crate::utils::Writeable;
use bytes::{Bytes, BytesMut};
use vstd::prelude::*;

verus! {

/// A KEEPALIVE frame's body: the last position received, and optional data.
#[derive(Debug)]
pub struct Keepalive {
    last_received_position: u64,
    data: Option<Bytes>,
}

/// A KEEPALIVE frame's body, with its data seen as a sequence of bytes.
pub struct KeepaliveView {
    pub last_received_position: u64,
    pub data: Option<Seq<u8>>,
}

impl View for Keepalive {
    type V = KeepaliveView;

    closed spec fn view(&self) -> KeepaliveView {
        KeepaliveView {
            last_received_position: self.last_received_position,
            data: opt_bytes(self.data),
        }
    }
}

/// Builds a KEEPALIVE frame.
pub struct KeepaliveBuilder {
    stream_id: u32,
    flag: u16,
    keepalive: Keepalive,
}

impl View for KeepaliveBuilder {
    type V = BuilderView<KeepaliveView>;

    closed spec fn view(&self) -> BuilderView<KeepaliveView> {
        BuilderView { stream_id: self.stream_id, flag: self.flag, value: self.keepalive@ }
    }
}

/// The encoding of a KEEPALIVE body: the position, then the data.
pub open spec fn keepalive_encoding(v: KeepaliveView) -> Seq<u8> {
    be64(v.last_received_position) + or_empty(v.data)
}

/// How a KEEPALIVE body decodes from `s`: eight bytes of position, then
/// data that is a copy of the rest, absent when empty; the rest stays in
/// the buffer.
pub open spec fn decode_keepalive(s: Seq<u8>) -> Decoding<KeepaliveView> {
    if s.len() < 8 {
        Decoding::Incomplete { rest: s }
    } else {
        Decoding::Done {
            value: KeepaliveView {
                last_received_position: be64_value(s),
                data: non_empty(s.skip(8)),
            },
            rest: s.skip(8),
        }
    }
}

impl KeepaliveBuilder {
    fn new(stream_id: u32, flag: u16) -> (b: KeepaliveBuilder)
        ensures
            b@ == (BuilderView {
                stream_id,
                flag,
                value: KeepaliveView { last_received_position: 0, data: None },
            }),
    {
        KeepaliveBuilder {
            stream_id,
            flag,
            keepalive: Keepalive { last_received_position: 0, data: None },
        }
    }

    /// Sets the data.
    pub fn set_data(self, data: Bytes) -> (b: Self)
        ensures
            b@ == (BuilderView {
                stream_id: self@.stream_id,
                flag: self@.flag,
                value: KeepaliveView {
                    last_received_position: self@.value.last_received_position,
                    data: Some(bytes_view(data)),
                },
            }),
    {
        let mut this = self;
        this.keepalive.data = Some(data);
        this
    }

    /// Sets the last position received.
    pub fn set_last_received_position(self, position: u64) -> (b: Self)
        ensures
            b@ == (BuilderView {
                stream_id: self@.stream_id,
                flag: self@.flag,
                value: KeepaliveView { last_received_position: position, data: self@.value.data },
            }),
    {
        let mut this = self;
        this.keepalive.last_received_position = position;
        this
    }

    /// The frame built.
    pub fn build(self) -> (f: Frame)
        ensures
            f@ == (FrameView {
                stream_id: self@.stream_id,
                body: BodyView::Keepalive(self@.value),
                flag: self@.flag,
            }),
    {
        Frame::new(self.stream_id, Body::Keepalive(self.keepalive), self.flag)
    }
}

impl Keepalive {
    /// Decodes the body: the position, and a copy of the rest of `bf` as
    /// data; the rest is left in `bf`.
    pub fn decode(flag: u16, bf: &mut BytesMut) -> (r: Result<Keepalive, RSocketError>)
        ensures
            match r {
                Ok(v) => decode_keepalive(bytes_mut_view(*old(bf))) == Decoding::Done {
                    value: v@,
                    rest: bytes_mut_view(*final(bf)),
                },
                Err(e) => e is InCompleteFrame && decode_keepalive(bytes_mut_view(*old(bf)))
                    == Decoding::<KeepaliveView>::Incomplete { rest: bytes_mut_view(*final(bf)) },
            },
    {
        if bytes_mut_len(bf) < 8 {
            return Err(RSocketError::InCompleteFrame);
        }
        let position = get_u64(bf);
        let data = if bytes_mut_len(bf) == 0 {
            None
        } else {
            Some(bytes_from_vec(bytes_mut_to_vec(bf)))
        };
        Ok(Keepalive { last_received_position: position, data })
    }

    /// A builder of a KEEPALIVE frame with position 0 and no data yet.
    pub fn builder(stream_id: u32, flag: u16) -> (b: KeepaliveBuilder)
        ensures
            b@ == (BuilderView {
                stream_id,
                flag,
                value: KeepaliveView { last_received_position: 0, data: None },
            }),
    {
        KeepaliveBuilder::new(stream_id, flag)
    }

    /// The last position received.
    pub fn get_last_received_position(&self) -> (p: u64)
        ensures
            p == self@.last_received_position,
    {
        self.last_received_position
    }

    /// The data.
    pub fn get_data(&self) -> (d: Option<&Bytes>)
        ensures
            opt_ref_bytes(d) == self@.data,
    {
        match &self.data {
            Some(b) => Some(b),
            None => None,
        }
    }

    /// The data, and no metadata, taking the body apart.
    pub fn split(self) -> (r: (Option<Bytes>, Option<Bytes>))
        ensures
            opt_bytes(r.0) == self@.data,
            r.1 is None,
    {
        (self.data, None)
    }
}

impl Writeable for Keepalive {
    open spec fn encoding(&self) -> Seq<u8> {
        keepalive_encoding(self@)
    }

    open spec fn writable(&self) -> bool {
        true
    }

    open spec fn encoded_len(&self) -> int {
        keepalive_encoding(self@).len() as int
    }

    fn write_to(&self, bf: &mut BytesMut) {
        let ghost start = bytes_mut_view(*bf);
        put_u64(bf, self.last_received_position);
        match &self.data {
            Some(v) => extend_from_bytes(bf, v),
            None => (),
        }
        proof {
            assert(bytes_mut_view(*final(bf)) =~= start + keepalive_encoding(self@));
        }
    }

    fn len(&self) -> (n: usize) {
        8 + match &self.data {
            Some(v) => bytes_len(v),
            None => 0,
        }
    }
}

} // verus!
