use super::utils::{
    decode_payload, metadata_fits, opt_bytes, opt_ref_bytes, payload_encoding, payload_length,
    read_payload, write_payload, Decoding, METADATA_BIT,
};
use super::{Body, BodyView, BuilderView, Frame, FrameView, StreamView, REQUEST_MAX};
use crate::buffer::{bytes_mut_len, bytes_mut_view, bytes_view, get_u32, put_u32};
use crate::endian::{be32, be32_value};
use crate::error::RSocketError;
use crate::utils::Writeable;
use bytes::{Bytes, BytesMut};
use vstd::prelude::*;

verus! {

/// A REQUEST_STREAM frame's body: the number of items first asked for, and
/// optional metadata and data.
#[derive(Debug)]
pub struct RequestStream {
    initial_request_n: u32,
    metadata: Option<Bytes>,
    data: Option<Bytes>,
}

impl View for RequestStream {
    type V = StreamView;

    closed spec fn view(&self) -> StreamView {
        StreamView {
            initial_request_n: self.initial_request_n,
            metadata: opt_bytes(self.metadata),
            data: opt_bytes(self.data),
        }
    }
}

/// Builds a REQUEST_STREAM frame.
pub struct RequestStreamBuilder {
    stream_id: u32,
    flag: u16,
    value: RequestStream,
}

impl View for RequestStreamBuilder {
    type V = BuilderView<StreamView>;

    closed spec fn view(&self) -> BuilderView<StreamView> {
        BuilderView { stream_id: self.stream_id, flag: self.flag, value: self.value@ }
    }
}

/// The encoding of a REQUEST_STREAM or REQUEST_CHANNEL body: the number
/// of items first asked for, then metadata and data.
pub open spec fn stream_encoding(v: StreamView) -> Seq<u8> {
    be32(v.initial_request_n) + payload_encoding(v.metadata, v.data)
}

/// How the body of a REQUEST_STREAM or REQUEST_CHANNEL frame with `flag`
/// decodes from `s`.
pub open spec fn decode_stream(flag: u16, s: Seq<u8>) -> Decoding<StreamView> {
    if s.len() < 4 {
        Decoding::Incomplete { rest: s }
    } else {
        let n = be32_value(s);
        decode_payload(flag, s.skip(4)).map(
            |p: (Option<Seq<u8>>, Option<Seq<u8>>)| StreamView {
                initial_request_n: n,
                metadata: p.0,
                data: p.1,
            },
        )
    }
}

impl RequestStreamBuilder {
    /// The frame built.
    pub fn build(self) -> (f: Frame)
        ensures
            f@ == (FrameView {
                stream_id: self@.stream_id,
                body: BodyView::RequestStream(self@.value),
                flag: self@.flag,
            }),
    {
        Frame::new(self.stream_id, Body::RequestStream(self.value), self.flag)
    }

    /// Sets the number of items first asked for.
    pub fn set_initial_request_n(self, n: u32) -> (b: Self)
        ensures
            b@ == (BuilderView {
                stream_id: self@.stream_id,
                flag: self@.flag,
                value: StreamView {
                    initial_request_n: n,
                    metadata: self@.value.metadata,
                    data: self@.value.data,
                },
            }),
    {
        let mut this = self;
        this.value.initial_request_n = n;
        this
    }

    /// Sets the data (first) and the metadata (second); the metadata flag
    /// follows whether there is metadata.
    pub fn set_all(self, data_and_metadata: (Option<Bytes>, Option<Bytes>)) -> (b: Self)
        ensures
            b@ == (BuilderView {
                stream_id: self@.stream_id,
                flag: if data_and_metadata.1 is Some {
                    self@.flag | METADATA_BIT
                } else {
                    self@.flag & !METADATA_BIT
                },
                value: StreamView {
                    initial_request_n: self@.value.initial_request_n,
                    metadata: opt_bytes(data_and_metadata.1),
                    data: opt_bytes(data_and_metadata.0),
                },
            }),
    {
        let mut this = self;
        this.value.data = data_and_metadata.0;
        match data_and_metadata.1 {
            Some(m) => {
                this.value.metadata = Some(m);
                this.flag = this.flag | Frame::FLAG_METADATA;
            },
            None => {
                this.value.metadata = None;
                this.flag = this.flag & !Frame::FLAG_METADATA;
            },
        }
        this
    }

    /// Sets the data.
    pub fn set_data(self, data: Bytes) -> (b: Self)
        ensures
            b@ == (BuilderView {
                stream_id: self@.stream_id,
                flag: self@.flag,
                value: StreamView {
                    initial_request_n: self@.value.initial_request_n,
                    metadata: self@.value.metadata,
                    data: Some(bytes_view(data)),
                },
            }),
    {
        let mut this = self;
        this.value.data = Some(data);
        this
    }

    /// Sets the metadata, and the metadata flag.
    pub fn set_metadata(self, metadata: Bytes) -> (b: Self)
        ensures
            b@ == (BuilderView {
                stream_id: self@.stream_id,
                flag: self@.flag | METADATA_BIT,
                value: StreamView {
                    initial_request_n: self@.value.initial_request_n,
                    metadata: Some(bytes_view(metadata)),
                    data: self@.value.data,
                },
            }),
    {
        let mut this = self;
        this.value.metadata = Some(metadata);
        this.flag = this.flag | Frame::FLAG_METADATA;
        this
    }
}

impl RequestStream {
    /// Decodes the body: the number of items first asked for, then the
    /// metadata (when `flag` announces it) and the data.
    pub fn decode(flag: u16, bf: &mut BytesMut) -> (r: Result<RequestStream, RSocketError>)
        requires
            !(decode_stream(flag, bytes_mut_view(*old(bf))) is Undefined),
        ensures
            match r {
                Ok(v) => decode_stream(flag, bytes_mut_view(*old(bf))) == Decoding::Done {
                    value: v@,
                    rest: bytes_mut_view(*final(bf)),
                },
                Err(e) => e is InCompleteFrame && decode_stream(flag, bytes_mut_view(*old(bf)))
                    == Decoding::<StreamView>::Incomplete { rest: bytes_mut_view(*final(bf)) },
            },
    {
        if bytes_mut_len(bf) < 4 {
            Err(RSocketError::InCompleteFrame)
        } else {
            let initial_request_n = get_u32(bf);
            match read_payload(flag, bf) {
                Ok((metadata, data)) => Ok(RequestStream { initial_request_n, metadata, data }),
                Err(e) => Err(e),
            }
        }
    }

    /// A builder of a frame with this stream id and these flags, asking
    /// for `REQUEST_MAX` items, with no metadata or data yet.
    pub fn builder(stream_id: u32, flag: u16) -> (b: RequestStreamBuilder)
        ensures
            b@ == (BuilderView {
                stream_id,
                flag,
                value: StreamView { initial_request_n: REQUEST_MAX, metadata: None, data: None },
            }),
    {
        RequestStreamBuilder {
            stream_id,
            flag,
            value: RequestStream { initial_request_n: REQUEST_MAX, metadata: None, data: None },
        }
    }

    /// The number of items first asked for.
    pub fn get_initial_request_n(&self) -> (n: u32)
        ensures
            n == self@.initial_request_n,
    {
        self.initial_request_n
    }

    /// The metadata.
    pub fn get_metadata(&self) -> (m: Option<&Bytes>)
        ensures
            opt_ref_bytes(m) == self@.metadata,
    {
        self.metadata.as_ref()
    }

    /// The data.
    pub fn get_data(&self) -> (d: Option<&Bytes>)
        ensures
            opt_ref_bytes(d) == self@.data,
    {
        self.data.as_ref()
    }

    /// The data and the metadata, taking the body apart.
    pub fn split(self) -> (r: (Option<Bytes>, Option<Bytes>))
        ensures
            opt_bytes(r.0) == self@.data,
            opt_bytes(r.1) == self@.metadata,
    {
        (self.data, self.metadata)
    }
}

impl Writeable for RequestStream {
    open spec fn encoding(&self) -> Seq<u8> {
        stream_encoding(self@)
    }

    open spec fn writable(&self) -> bool {
        metadata_fits(self@.metadata)
    }

    open spec fn encoded_len(&self) -> int {
        4 + payload_length(self@.metadata, self@.data)
    }

    fn write_to(&self, bf: &mut BytesMut) {
        let ghost start = bytes_mut_view(*bf);
        put_u32(bf, self.initial_request_n);
        write_payload(bf, self.metadata.as_ref(), self.data.as_ref());
        proof {
            assert(bytes_mut_view(*final(bf)) =~= start + stream_encoding(self@));
        }
    }

    fn len(&self) -> (n: usize) {
        4 + super::utils::calculate_payload_length(self.metadata.as_ref(), self.data.as_ref())
    }
}

} // verus!
