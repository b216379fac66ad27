use super::misc::{bytes_to_utf8, utf8_present};
use crate::buffer::{bytes_copy_from_slice, bytes_from_vec};
use crate::frame::setup::default_mime;
use crate::frame::utils::{opt_bytes, opt_ref_bytes};
use crate::frame::{Setup, SetupView};
use crate::utils::DEFAULT_MIME_TYPE;
use bytes::Bytes;
use vstd::prelude::*;
use vstd::string::StringSliceAdditionalSpecFns;
use vstd::utf8::{decode_utf8, valid_utf8};

verus! {

/// The payload of a connection's SETUP: data, metadata, the keepalive
/// interval and the lifetime (in milliseconds), and the MIME types.
#[derive(Debug)]
pub struct SetupPayload {
    m: Option<Bytes>,
    d: Option<Bytes>,
    keepalive: (u64, u64),
    mime_m: Option<Bytes>,
    mime_d: Option<Bytes>,
}

/// A SETUP payload, with its buffers seen as sequences of bytes.
pub struct SetupPayloadView {
    pub metadata: Option<Seq<u8>>,
    pub data: Option<Seq<u8>>,
    pub keepalive: (u64, u64),
    pub mime_metadata: Option<Seq<u8>>,
    pub mime_data: Option<Seq<u8>>,
}

impl View for SetupPayload {
    type V = SetupPayloadView;

    closed spec fn view(&self) -> SetupPayloadView {
        SetupPayloadView {
            metadata: opt_bytes(self.m),
            data: opt_bytes(self.d),
            keepalive: self.keepalive,
            mime_metadata: opt_bytes(self.mime_m),
            mime_data: opt_bytes(self.mime_d),
        }
    }
}

/// Builds a SETUP payload.
#[derive(Debug)]
pub struct SetupPayloadBuilder {
    inner: SetupPayload,
}

impl View for SetupPayloadBuilder {
    type V = SetupPayloadView;

    closed spec fn view(&self) -> SetupPayloadView {
        self.inner@
    }
}

/// What a new builder holds: no data or metadata, keepalive 20 s,
/// lifetime 90 s, the default MIME types.
pub open spec fn default_setup_payload() -> SetupPayloadView {
    SetupPayloadView {
        metadata: None,
        data: None,
        keepalive: (20_000u64, 90_000u64),
        mime_metadata: Some(default_mime()),
        mime_data: Some(default_mime()),
    }
}

/// The payload that a SETUP frame carries: its data and metadata,
/// keepalive and lifetime, and its MIME types where they are valid UTF-8
/// (the default MIME type where they are not).
pub open spec fn setup_payload_of(v: SetupView) -> SetupPayloadView {
    SetupPayloadView {
        metadata: v.metadata,
        data: v.data,
        keepalive: (v.keepalive as u64, v.lifetime as u64),
        mime_metadata: Some(
            if valid_utf8(v.mime_metadata) {
                v.mime_metadata
            } else {
                default_mime()
            },
        ),
        mime_data: Some(
            if valid_utf8(v.mime_data) {
                v.mime_data
            } else {
                default_mime()
            },
        ),
    }
}

impl SetupPayload {
    /// A builder with the default settings.
    pub fn builder() -> (b: SetupPayloadBuilder)
        ensures
            b@ == default_setup_payload(),
    {
        SetupPayloadBuilder::new()
    }

    /// The metadata.
    pub fn metadata(&self) -> (m: Option<&Bytes>)
        ensures
            opt_ref_bytes(m) == self@.metadata,
    {
        self.m.as_ref()
    }

    /// The data.
    pub fn data(&self) -> (d: Option<&Bytes>)
        ensures
            opt_ref_bytes(d) == self@.data,
    {
        self.d.as_ref()
    }

    /// The data and the metadata, taking the payload apart.
    pub fn split(self) -> (r: (Option<Bytes>, Option<Bytes>))
        ensures
            opt_bytes(r.0) == self@.data,
            opt_bytes(r.1) == self@.metadata,
    {
        (self.d, self.m)
    }

    /// The keepalive interval, in milliseconds.
    pub fn keepalive_interval(&self) -> (ms: u64)
        ensures
            ms == self@.keepalive.0,
    {
        self.keepalive.0
    }

    /// The lifetime, in milliseconds.
    pub fn keepalive_lifetime(&self) -> (ms: u64)
        ensures
            ms == self@.keepalive.1,
    {
        self.keepalive.1
    }

    /// The MIME type of the metadata, when it is set and valid UTF-8.
    pub fn metadata_mime_type(&self) -> (r: Option<&str>)
        ensures
            r is Some <==> utf8_present(self@.mime_metadata),
            r matches Some(t) ==> t@ == decode_utf8(self@.mime_metadata->0),
    {
        bytes_to_utf8(&self.mime_m)
    }

    /// The MIME type of the data, when it is set and valid UTF-8.
    pub fn data_mime_type(&self) -> (r: Option<&str>)
        ensures
            r is Some <==> utf8_present(self@.mime_data),
            r matches Some(t) ==> t@ == decode_utf8(self@.mime_data->0),
    {
        bytes_to_utf8(&self.mime_d)
    }

    /// The payload of a SETUP frame: its data and metadata, keepalive and
    /// lifetime, and its MIME types where they are valid UTF-8 (the default
    /// MIME type where they are not).
    pub fn from_setup(input: Setup) -> (p: SetupPayload)
        ensures
            p@ == setup_payload_of(input@),
    {
        let mut bu = SetupPayload::builder();
        if let Some(m) = input.get_mime_data() {
            proof {
                vstd::utf8::decode_utf8_encode_utf8(input@.mime_data);
            }
            bu = bu.set_data_mime_type(m);
        }
        if let Some(m) = input.get_mime_metadata() {
            proof {
                vstd::utf8::decode_utf8_encode_utf8(input@.mime_metadata);
            }
            bu = bu.set_metadata_mime_type(m);
        }
        let keepalive = (input.get_keepalive(), input.get_lifetime());
        let (d, m) = input.split();
        bu.inner.d = d;
        bu.inner.m = m;
        let mut pa = bu.build();
        pa.keepalive = keepalive;
        pa
    }
}

impl SetupPayloadBuilder {
    fn new() -> (b: SetupPayloadBuilder)
        ensures
            b@ == default_setup_payload(),
    {
        SetupPayloadBuilder {
            inner: SetupPayload {
                m: None,
                d: None,
                keepalive: (20_000, 90_000),
                mime_m: Some(bytes_copy_from_slice(DEFAULT_MIME_TYPE.as_bytes())),
                mime_d: Some(bytes_copy_from_slice(DEFAULT_MIME_TYPE.as_bytes())),
            },
        }
    }

    /// Sets the metadata.
    pub fn set_metadata(self, metadata: Vec<u8>) -> (b: Self)
        ensures
            b@ == (SetupPayloadView { metadata: Some(metadata@), ..self@ }),
    {
        let mut this = self;
        this.inner.m = Some(bytes_from_vec(metadata));
        this
    }

    /// Sets the metadata to the UTF-8 bytes of a text.
    pub fn set_metadata_utf8(self, metadata: &str) -> (b: Self)
        ensures
            b@ == (SetupPayloadView { metadata: Some(metadata.spec_bytes()), ..self@ }),
    {
        let mut this = self;
        this.inner.m = Some(bytes_copy_from_slice(metadata.as_bytes()));
        this
    }

    /// Sets the data, or removes it.
    pub fn set_data_bytes(self, data: Option<Bytes>) -> (b: Self)
        ensures
            b@ == (SetupPayloadView { data: opt_bytes(data), ..self@ }),
    {
        let mut this = self;
        this.inner.d = data;
        this
    }

    /// Sets the metadata, or removes it.
    pub fn set_metadata_bytes(self, data: Option<Bytes>) -> (b: Self)
        ensures
            b@ == (SetupPayloadView { metadata: opt_bytes(data), ..self@ }),
    {
        let mut this = self;
        this.inner.m = data;
        this
    }

    /// Sets the data.
    pub fn set_data(self, data: Vec<u8>) -> (b: Self)
        ensures
            b@ == (SetupPayloadView { data: Some(data@), ..self@ }),
    {
        let mut this = self;
        this.inner.d = Some(bytes_from_vec(data));
        this
    }

    /// Sets the data to the UTF-8 bytes of a text.
    pub fn set_data_utf8(self, data: &str) -> (b: Self)
        ensures
            b@ == (SetupPayloadView { data: Some(data.spec_bytes()), ..self@ }),
    {
        let mut this = self;
        this.inner.d = Some(bytes_copy_from_slice(data.as_bytes()));
        this
    }

    /// Sets the keepalive interval to `tick_period` and the lifetime to
    /// `ack_timeout` times `missed_acks` (all in milliseconds).
    pub fn set_keepalive(self, tick_period: u64, ack_timeout: u64, missed_acks: u64) -> (b: Self)
        requires
            ack_timeout * missed_acks <= u64::MAX,
        ensures
            b@ == (SetupPayloadView {
                keepalive: (tick_period, (ack_timeout * missed_acks) as u64),
                ..self@
            }),
    {
        let mut this = self;
        let lifetime_mills = ack_timeout * missed_acks;
        this.inner.keepalive = (tick_period, lifetime_mills);
        this
    }

    /// Sets the MIME type of the data.
    pub fn set_data_mime_type(self, mime: &str) -> (b: Self)
        ensures
            b@ == (SetupPayloadView { mime_data: Some(mime.spec_bytes()), ..self@ }),
    {
        let mut this = self;
        this.inner.mime_d = Some(bytes_copy_from_slice(mime.as_bytes()));
        this
    }

    /// Sets the MIME type of the metadata.
    pub fn set_metadata_mime_type(self, mime: &str) -> (b: Self)
        ensures
            b@ == (SetupPayloadView { mime_metadata: Some(mime.spec_bytes()), ..self@ }),
    {
        let mut this = self;
        this.inner.mime_m = Some(bytes_copy_from_slice(mime.as_bytes()));
        this
    }

    /// The payload built.
    pub fn build(self) -> (p: SetupPayload)
        ensures
            p@ == self@,
    {
        self.inner
    }
}

} // verus!
