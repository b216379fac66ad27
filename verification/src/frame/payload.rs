use super::utils::{
    decode_payload, metadata_fits, opt_bytes, opt_ref_bytes, payload_encoding, payload_length,
    read_payload, write_payload, Decoding, METADATA_BIT,
};
use super::{Body, BodyView, BuilderView, Frame, FrameView, PayloadView};
use crate::buffer::{bytes_mut_view, bytes_view};
use crate::error::RSocketError;
use crate::utils::Writeable;
use bytes::{Bytes, BytesMut};
use vstd::prelude::*;

verus! {

/// A PAYLOAD frame's body: optional metadata and data.
#[derive(Debug)]
pub struct Payload {
    metadata: Option<Bytes>,
    data: Option<Bytes>,
}

impl View for Payload {
    type V = PayloadView;

    closed spec fn view(&self) -> PayloadView {
        PayloadView { metadata: opt_bytes(self.metadata), data: opt_bytes(self.data) }
    }
}

/// Builds a PAYLOAD frame.
pub struct PayloadBuilder {
    stream_id: u32,
    flag: u16,
    value: Payload,
}

impl View for PayloadBuilder {
    type V = BuilderView<PayloadView>;

    closed spec fn view(&self) -> BuilderView<PayloadView> {
        BuilderView { stream_id: self.stream_id, flag: self.flag, value: self.value@ }
    }
}

/// How the body of a PAYLOAD, REQUEST_RESPONSE or REQUEST_FNF frame with
/// `flag` decodes from `s`.
pub open spec fn decode_payload_body(flag: u16, s: Seq<u8>) -> Decoding<PayloadView> {
    decode_payload(flag, s).map(
        |p: (Option<Seq<u8>>, Option<Seq<u8>>)| PayloadView { metadata: p.0, data: p.1 },
    )
}

impl PayloadBuilder {
    fn new(stream_id: u32, flag: u16) -> (b: PayloadBuilder)
        ensures
            b@ == (BuilderView {
                stream_id,
                flag,
                value: PayloadView { metadata: None, data: None },
            }),
    {
        PayloadBuilder { stream_id, flag, value: Payload { metadata: None, data: None } }
    }

    /// Sets the data (first) and the metadata (second); the metadata flag
    /// follows whether there is metadata.
    pub fn set_all(self, data_and_metadata: (Option<Bytes>, Option<Bytes>)) -> (b: Self)
        ensures
            b@ == (BuilderView {
                stream_id: self@.stream_id,
                flag: if data_and_metadata.1 is Some {
                    self@.flag | METADATA_BIT
                } else {
                    self@.flag & !METADATA_BIT
                },
                value: PayloadView {
                    metadata: opt_bytes(data_and_metadata.1),
                    data: opt_bytes(data_and_metadata.0),
                },
            }),
    {
        let mut this = self;
        this.value.data = data_and_metadata.0;
        match data_and_metadata.1 {
            Some(m) => {
                this.value.metadata = Some(m);
                this.flag = this.flag | Frame::FLAG_METADATA;
            },
            None => {
                this.value.metadata = None;
                this.flag = this.flag & !Frame::FLAG_METADATA;
            },
        }
        this
    }

    /// Sets the metadata, and the metadata flag.
    pub fn set_metadata(self, metadata: Bytes) -> (b: Self)
        ensures
            b@ == (BuilderView {
                stream_id: self@.stream_id,
                flag: self@.flag | METADATA_BIT,
                value: PayloadView { metadata: Some(bytes_view(metadata)), data: self@.value.data },
            }),
    {
        let mut this = self;
        this.value.metadata = Some(metadata);
        this.flag = this.flag | Frame::FLAG_METADATA;
        this
    }

    /// Sets the data.
    pub fn set_data(self, data: Bytes) -> (b: Self)
        ensures
            b@ == (BuilderView {
                stream_id: self@.stream_id,
                flag: self@.flag,
                value: PayloadView { metadata: self@.value.metadata, data: Some(bytes_view(data)) },
            }),
    {
        let mut this = self;
        this.value.data = Some(data);
        this
    }

    /// The frame built.
    pub fn build(self) -> (f: Frame)
        ensures
            f@ == (FrameView {
                stream_id: self@.stream_id,
                body: BodyView::Payload(self@.value),
                flag: self@.flag,
            }),
    {
        Frame::new(self.stream_id, Body::Payload(self.value), self.flag)
    }
}

impl Payload {
    /// Decodes the body: the metadata, when `flag` announces it, and the
    /// data that fills the rest of `bf`.
    pub fn decode(flag: u16, bf: &mut BytesMut) -> (r: Result<Payload, RSocketError>)
        requires
            !(decode_payload_body(flag, bytes_mut_view(*old(bf))) is Undefined),
        ensures
            match r {
                Ok(v) => decode_payload_body(flag, bytes_mut_view(*old(bf))) == Decoding::Done {
                    value: v@,
                    rest: bytes_mut_view(*final(bf)),
                },
                Err(e) => e is InCompleteFrame && decode_payload_body(flag, bytes_mut_view(*old(bf)))
                    == Decoding::<PayloadView>::Incomplete { rest: bytes_mut_view(*final(bf)) },
            },
    {
        match read_payload(flag, bf) {
            Ok((metadata, data)) => Ok(Payload { metadata, data }),
            Err(e) => Err(e),
        }
    }

    /// A builder of a frame with this stream id and these flags, and no
    /// metadata or data yet.
    pub fn builder(stream_id: u32, flag: u16) -> (b: PayloadBuilder)
        ensures
            b@ == (BuilderView {
                stream_id,
                flag,
                value: PayloadView { metadata: None, data: None },
            }),
    {
        PayloadBuilder::new(stream_id, flag)
    }

    /// The metadata.
    pub fn get_metadata(&self) -> (m: Option<&Bytes>)
        ensures
            opt_ref_bytes(m) == self@.metadata,
    {
        self.metadata.as_ref()
    }

    /// The data.
    pub fn get_data(&self) -> (d: Option<&Bytes>)
        ensures
            opt_ref_bytes(d) == self@.data,
    {
        self.data.as_ref()
    }

    /// The data and the metadata, taking the body apart.
    pub fn split(self) -> (r: (Option<Bytes>, Option<Bytes>))
        ensures
            opt_bytes(r.0) == self@.data,
            opt_bytes(r.1) == self@.metadata,
    {
        (self.data, self.metadata)
    }
}

impl Writeable for Payload {
    open spec fn encoding(&self) -> Seq<u8> {
        payload_encoding(self@.metadata, self@.data)
    }

    open spec fn writable(&self) -> bool {
        metadata_fits(self@.metadata)
    }

    open spec fn encoded_len(&self) -> int {
        payload_length(self@.metadata, self@.data)
    }

    fn write_to(&self, bf: &mut BytesMut) {
        write_payload(bf, self.metadata.as_ref(), self.data.as_ref())
    }

    fn len(&self) -> (n: usize) {
        super::utils::calculate_payload_length(self.metadata.as_ref(), self.data.as_ref())
    }
}

} // verus!
