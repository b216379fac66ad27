use super::misc::{bytes_to_utf8, utf8_present};
use crate::buffer::{bytes_clone, bytes_copy_from_slice, bytes_from_vec, bytes_len};
use crate::frame::utils::{opt_bytes, opt_ref_bytes, or_empty};
use crate::frame::{self, PayloadView};
use bytes::Bytes;
use vstd::prelude::*;
use vstd::string::StringSliceAdditionalSpecFns;
use vstd::utf8::decode_utf8;

verus! {

/// What an application sends or receives: optional data and metadata.
#[derive(Debug)]
pub struct Payload {
    m: Option<Bytes>,
    d: Option<Bytes>,
}

/// A second handle on optional bytes.
fn clone_opt(o: &Option<Bytes>) -> (c: Option<Bytes>)
    ensures
        opt_bytes(c) == opt_bytes(*o),
{
    match o {
        Some(b) => Some(bytes_clone(b)),
        None => None,
    }
}

impl Clone for Payload {
    fn clone(&self) -> (p: Self)
        ensures
            p@ == self@,
    {
        Payload { m: clone_opt(&self.m), d: clone_opt(&self.d) }
    }
}

impl View for Payload {
    type V = PayloadView;

    closed spec fn view(&self) -> PayloadView {
        PayloadView { metadata: opt_bytes(self.m), data: opt_bytes(self.d) }
    }
}

/// Builds a payload.
#[derive(Debug)]
pub struct PayloadBuilder {
    value: Payload,
}

impl View for PayloadBuilder {
    type V = PayloadView;

    closed spec fn view(&self) -> PayloadView {
        self.value@
    }
}

impl PayloadBuilder {
    fn new() -> (b: PayloadBuilder)
        ensures
            b@ == (PayloadView { metadata: None, data: None }),
    {
        PayloadBuilder { value: Payload { m: None, d: None } }
    }

    /// Sets the data.
    pub fn set_data(self, data: Vec<u8>) -> (b: Self)
        ensures
            b@ == (PayloadView { metadata: self@.metadata, data: Some(data@) }),
    {
        let mut this = self;
        this.value.d = Some(bytes_from_vec(data));
        this
    }

    /// Sets the metadata.
    pub fn set_metadata(self, metadata: Vec<u8>) -> (b: Self)
        ensures
            b@ == (PayloadView { metadata: Some(metadata@), data: self@.data }),
    {
        let mut this = self;
        this.value.m = Some(bytes_from_vec(metadata));
        this
    }

    /// Sets the metadata to the UTF-8 bytes of a text.
    pub fn set_metadata_utf8(self, metadata: &str) -> (b: Self)
        ensures
            b@ == (PayloadView { metadata: Some(metadata.spec_bytes()), data: self@.data }),
    {
        let mut this = self;
        this.value.m = Some(bytes_copy_from_slice(metadata.as_bytes()));
        this
    }

    /// Sets the data to the UTF-8 bytes of a text.
    pub fn set_data_utf8(self, data: &str) -> (b: Self)
        ensures
            b@ == (PayloadView { metadata: self@.metadata, data: Some(data.spec_bytes()) }),
    {
        let mut this = self;
        this.value.d = Some(bytes_copy_from_slice(data.as_bytes()));
        this
    }

    /// The payload built.
    pub fn build(self) -> (p: Payload)
        ensures
            p@ == self@,
    {
        self.value
    }
}

/// The number of bytes of metadata and data together.
pub open spec fn payload_size(v: PayloadView) -> int {
    or_empty(v.metadata).len() as int + or_empty(v.data).len()
}

impl Payload {
    /// The payload with this data and this metadata.
    pub fn new(data: Option<Bytes>, metadata: Option<Bytes>) -> (p: Payload)
        ensures
            p@ == (PayloadView { metadata: opt_bytes(metadata), data: opt_bytes(data) }),
    {
        Payload { d: data, m: metadata }
    }

    /// A builder of a payload without data or metadata.
    pub fn builder() -> (b: PayloadBuilder)
        ensures
            b@ == (PayloadView { metadata: None, data: None }),
    {
        PayloadBuilder::new()
    }

    /// The metadata.
    pub fn metadata(&self) -> (m: Option<&Bytes>)
        ensures
            opt_ref_bytes(m) == self@.metadata,
    {
        match &self.m {
            Some(b) => Some(b),
            None => None,
        }
    }

    /// The data.
    pub fn data(&self) -> (d: Option<&Bytes>)
        ensures
            opt_ref_bytes(d) == self@.data,
    {
        match &self.d {
            Some(b) => Some(b),
            None => None,
        }
    }

    /// The data as text, when there is data and it is valid UTF-8.
    pub fn data_utf8(&self) -> (r: Option<&str>)
        ensures
            r is Some <==> utf8_present(self@.data),
            r matches Some(t) ==> t@ == decode_utf8(self@.data->0),
    {
        bytes_to_utf8(&self.d)
    }

    /// The metadata as text, when there is metadata and it is valid UTF-8.
    pub fn metadata_utf8(&self) -> (r: Option<&str>)
        ensures
            r is Some <==> utf8_present(self@.metadata),
            r matches Some(t) ==> t@ == decode_utf8(self@.metadata->0),
    {
        bytes_to_utf8(&self.m)
    }

    /// Whether there are no bytes of metadata or data.
    pub fn is_empty(&self) -> (r: bool)
        requires
            payload_size(self@) <= usize::MAX,
        ensures
            r == (payload_size(self@) == 0),
    {
        self.len() == 0
    }

    /// The number of bytes of metadata and data together.
    pub fn len(&self) -> (n: usize)
        requires
            payload_size(self@) <= usize::MAX,
        ensures
            n == payload_size(self@),
    {
        let mut n: usize = 0;
        if let Some(it) = &self.m {
            n = n + bytes_len(it);
        }
        if let Some(it) = &self.d {
            n = n + bytes_len(it);
        }
        n
    }

    /// The data and the metadata, taking the payload apart.
    pub fn split(self) -> (r: (Option<Bytes>, Option<Bytes>))
        ensures
            opt_bytes(r.0) == self@.data,
            opt_bytes(r.1) == self@.metadata,
    {
        (self.d, self.m)
    }

    /// A payload whose data is the UTF-8 bytes of a text.
    pub fn from_str(data: &str) -> (p: Payload)
        ensures
            p@ == (PayloadView { metadata: None, data: Some(data.spec_bytes()) }),
    {
        Payload { d: Some(bytes_copy_from_slice(data.as_bytes())), m: None }
    }

    /// A payload whose data and metadata are the UTF-8 bytes of two texts.
    pub fn from_strs(data: &str, metadata: &str) -> (p: Payload)
        ensures
            p@ == (PayloadView {
                metadata: Some(metadata.spec_bytes()),
                data: Some(data.spec_bytes()),
            }),
    {
        Payload {
            d: Some(bytes_copy_from_slice(data.as_bytes())),
            m: Some(bytes_copy_from_slice(metadata.as_bytes())),
        }
    }

    /// The payload of a PAYLOAD frame.
    pub fn from_frame_payload(input: frame::Payload) -> (p: Payload)
        ensures
            p@ == input@,
    {
        let (d, m) = input.split();
        Payload::new(d, m)
    }

    /// The payload of a SETUP frame: its data and metadata.
    pub fn from_setup(input: frame::Setup) -> (p: Payload)
        ensures
            p@ == (PayloadView { metadata: input@.metadata, data: input@.data }),
    {
        let (d, m) = input.split();
        Payload::new(d, m)
    }

    /// The payload of a REQUEST_CHANNEL frame: its data and metadata.
    pub fn from_request_channel(input: frame::RequestChannel) -> (p: Payload)
        ensures
            p@ == (PayloadView { metadata: input@.metadata, data: input@.data }),
    {
        let (d, m) = input.split();
        Payload::new(d, m)
    }

    /// The payload of a METADATA_PUSH frame: its metadata, and no data.
    pub fn from_metadata_push(input: frame::MetadataPush) -> (p: Payload)
        ensures
            p@ == (PayloadView { metadata: input@, data: None }),
    {
        let (d, m) = input.split();
        Payload::new(d, m)
    }

    /// The payload of a REQUEST_STREAM frame: its data and metadata.
    pub fn from_request_stream(input: frame::RequestStream) -> (p: Payload)
        ensures
            p@ == (PayloadView { metadata: input@.metadata, data: input@.data }),
    {
        let (d, m) = input.split();
        Payload::new(d, m)
    }

    /// The payload of a REQUEST_FNF frame.
    pub fn from_request_fnf(input: frame::RequestFNF) -> (p: Payload)
        ensures
            p@ == input@,
    {
        let (d, m) = input.split();
        Payload::new(d, m)
    }

    /// The payload of a REQUEST_RESPONSE frame.
    pub fn from_request_response(input: frame::RequestResponse) -> (p: Payload)
        ensures
            p@ == input@,
    {
        let (d, m) = input.split();
        Payload::new(d, m)
    }
}

} // verus!
