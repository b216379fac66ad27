use super::utils::{opt_bytes, opt_ref_bytes, or_empty};
use super::{Body, BodyView, BuilderView, Frame, FrameView};
use crate::buffer::{bytes_len, bytes_mut_view, bytes_view, extend_from_bytes, freeze, split_all};
use crate::error::RSocketError;
use crate::utils::Writeable;
use bytes::{Bytes, BytesMut};
use vstd::prelude::*;

verus! {

/// A METADATA_PUSH frame's body: metadata.
#[derive(Debug)]
pub struct MetadataPush {
    metadata: Option<Bytes>,
}

impl View for MetadataPush {
    type V = Option<Seq<u8>>;

    closed spec fn view(&self) -> Option<Seq<u8>> {
        opt_bytes(self.metadata)
    }
}

/// Builds a METADATA_PUSH frame.
pub struct MetadataPushBuiler {
    stream_id: u32,
    flag: u16,
    value: MetadataPush,
}

impl View for MetadataPushBuiler {
    type V = BuilderView<Option<Seq<u8>>>;

    closed spec fn view(&self) -> BuilderView<Option<Seq<u8>>> {
        BuilderView { stream_id: self.stream_id, flag: self.flag, value: self.value@ }
    }
}

impl MetadataPushBuiler {
    fn new(stream_id: u32, flag: u16) -> (b: MetadataPushBuiler)
        ensures
            b@ == (BuilderView { stream_id, flag, value: None::<Seq<u8>> }),
    {
        MetadataPushBuiler { stream_id, flag, value: MetadataPush { metadata: None } }
    }

    /// Sets the metadata.
    pub fn set_metadata(self, metadata: Bytes) -> (b: Self)
        ensures
            b@ == (BuilderView {
                stream_id: self@.stream_id,
                flag: self@.flag,
                value: Some(bytes_view(metadata)),
            }),
    {
        let mut this = self;
        this.value.metadata = Some(metadata);
        this
    }

    /// The frame built.
    pub fn build(self) -> (f: Frame)
        ensures
            f@ == (FrameView {
                stream_id: self@.stream_id,
                body: BodyView::MetadataPush(self@.value),
                flag: self@.flag,
            }),
    {
        Frame::new(self.stream_id, Body::MetadataPush(self.value), self.flag)
    }
}

impl MetadataPush {
    /// Decodes the body: all of `bf` is the metadata.
    pub fn decode(flag: u16, bf: &mut BytesMut) -> (r: Result<MetadataPush, RSocketError>)
        ensures
            r matches Ok(v) && v@ == Some(bytes_mut_view(*old(bf))),
            bytes_mut_view(*final(bf)) == Seq::<u8>::empty(),
    {
        Ok(MetadataPush { metadata: Some(freeze(split_all(bf))) })
    }

    /// A builder of a METADATA_PUSH frame with no metadata yet.
    pub fn builder(stream_id: u32, flag: u16) -> (b: MetadataPushBuiler)
        ensures
            b@ == (BuilderView { stream_id, flag, value: None::<Seq<u8>> }),
    {
        MetadataPushBuiler::new(stream_id, flag)
    }

    /// The metadata.
    pub fn get_metadata(&self) -> (m: Option<&Bytes>)
        ensures
            opt_ref_bytes(m) == self@,
    {
        self.metadata.as_ref()
    }

    /// No data, and the metadata, taking the body apart.
    pub fn split(self) -> (r: (Option<Bytes>, Option<Bytes>))
        ensures
            r.0 is None,
            opt_bytes(r.1) == self@,
    {
        (None, self.metadata)
    }
}

impl Writeable for MetadataPush {
    open spec fn encoding(&self) -> Seq<u8> {
        or_empty(self@)
    }

    open spec fn writable(&self) -> bool {
        true
    }

    open spec fn encoded_len(&self) -> int {
        or_empty(self@).len() as int
    }

    fn write_to(&self, bf: &mut BytesMut) {
        match &self.metadata {
            Some(v) => extend_from_bytes(bf, v),
            None => {
                assert(bytes_mut_view(*bf) =~= bytes_mut_view(*bf) + Seq::<u8>::empty());
            },
        }
    }

    fn len(&self) -> (n: usize) {
        match &self.metadata {
            Some(v) => bytes_len(v),
            None => 0,
        }
    }
}

} // verus!
