//! What a client or a server is set up with before a connection starts:
//! the SETUP payload that a client sends, and the largest frame size past
//! which payloads are cut into fragments.

use crate::payload::setup::SetupPayloadView;
use crate::payload::{Payload, SetupPayload, SetupPayloadBuilder};
use crate::payload::setup::default_setup_payload;
use crate::transport::fragmentation::{Splitter, MIN_MTU};
use vstd::prelude::*;
use vstd::string::StringSliceAdditionalSpecFns;

verus! {

/// Opens the building of clients and servers.
#[derive(Debug)]
pub struct RSocketFactory;

/// Whether a largest frame size can be used: zero (no fragmentation) or
/// at least `MIN_MTU`.
pub open spec fn valid_mtu(mtu: usize) -> bool {
    mtu == 0 || mtu >= MIN_MTU
}

/// The splitter of a largest frame size: none for zero.
pub open spec fn splitter_view(mtu: usize) -> Option<nat> {
    if mtu == 0 {
        None
    } else {
        Some(mtu as nat)
    }
}

/// The splitter that cuts payloads into frames of at most `mtu` bytes;
/// none when `mtu` is zero.
pub fn splitter_for(mtu: usize) -> (r: Option<Splitter>)
    requires
        valid_mtu(mtu),
    ensures
        crate::transport::socket::mtu_of(r) == splitter_view(mtu),
{
    if mtu == 0 {
        None
    } else {
        Some(Splitter::new(mtu))
    }
}

/// What a client is set up with: its SETUP payload and its largest frame
/// size.
pub struct ClientOptions {
    setup: SetupPayloadBuilder,
    mtu: usize,
}

impl View for ClientOptions {
    type V = (SetupPayloadView, usize);

    closed spec fn view(&self) -> (SetupPayloadView, usize) {
        (self.setup@, self.mtu)
    }
}

impl ClientOptions {
    /// The default SETUP payload, without fragmentation.
    pub fn new() -> (r: ClientOptions)
        ensures
            r@ == (default_setup_payload(), 0usize),
    {
        ClientOptions { setup: SetupPayload::builder(), mtu: 0 }
    }

    /// Cuts payloads into frames of at most `mtu` bytes (zero: never);
    /// `mtu` must be zero or at least `MIN_MTU`.
    pub fn fragment(self, mtu: usize) -> (r: ClientOptions)
        requires
            valid_mtu(mtu),
        ensures
            r@ == (self@.0, mtu),
    {
        let mut this = self;
        this.mtu = mtu;
        this
    }

    /// The data and the metadata of the SETUP.
    pub fn setup(self, setup: Payload) -> (r: ClientOptions)
        ensures
            r@ == (SetupPayloadView { data: setup@.data, metadata: setup@.metadata, ..self@.0 }, self@.1),
    {
        let mut this = self;
        let (d, m) = setup.split();
        this.setup = this.setup.set_data_bytes(d);
        this.setup = this.setup.set_metadata_bytes(m);
        this
    }

    /// The keepalive interval and the lifetime, `ack_timeout` times
    /// `missed_acks` (in milliseconds).
    pub fn keepalive(self, tick_period: u64, ack_timeout: u64, missed_acks: u64) -> (r: ClientOptions)
        requires
            ack_timeout * missed_acks <= u64::MAX,
        ensures
            r@ == (SetupPayloadView {
                keepalive: (tick_period, (ack_timeout * missed_acks) as u64),
                ..self@.0
            }, self@.1),
    {
        let mut this = self;
        this.setup = this.setup.set_keepalive(tick_period, ack_timeout, missed_acks);
        this
    }

    /// The MIME types of the metadata and of the data.
    pub fn mime_type(self, metadata_mime_type: &str, data_mime_type: &str) -> (r: ClientOptions)
        ensures
            r@ == (SetupPayloadView {
                mime_metadata: Some(metadata_mime_type.spec_bytes()),
                mime_data: Some(data_mime_type.spec_bytes()),
                ..self@.0
            }, self@.1),
    {
        self.metadata_mime_type(metadata_mime_type).data_mime_type(data_mime_type)
    }

    /// The MIME type of the data.
    pub fn data_mime_type(self, mime_type: &str) -> (r: ClientOptions)
        ensures
            r@ == (SetupPayloadView { mime_data: Some(mime_type.spec_bytes()), ..self@.0 }, self@.1),
    {
        let mut this = self;
        this.setup = this.setup.set_data_mime_type(mime_type);
        this
    }

    /// The MIME type of the metadata.
    pub fn metadata_mime_type(self, mime_type: &str) -> (r: ClientOptions)
        ensures
            r@ == (SetupPayloadView { mime_metadata: Some(mime_type.spec_bytes()), ..self@.0 }, self@.1),
    {
        let mut this = self;
        this.setup = this.setup.set_metadata_mime_type(mime_type);
        this
    }

    /// The largest frame size.
    pub fn mtu(&self) -> (r: usize)
        ensures
            r == self@.1,
    {
        self.mtu
    }

    /// The SETUP payload.
    pub fn into_setup(self) -> (r: SetupPayload)
        ensures
            r@ == self@.0,
    {
        self.setup.build()
    }
}

/// What a server is set up with: its largest frame size.
pub struct ServerOptions {
    mtu: usize,
}

impl View for ServerOptions {
    type V = usize;

    closed spec fn view(&self) -> usize {
        self.mtu
    }
}

impl ServerOptions {
    /// Without fragmentation.
    pub fn new() -> (r: ServerOptions)
        ensures
            r@ == 0,
    {
        ServerOptions { mtu: 0 }
    }

    /// Cuts payloads into frames of at most `mtu` bytes (zero: never);
    /// `mtu` must be zero or at least `MIN_MTU`.
    pub fn fragment(self, mtu: usize) -> (r: ServerOptions)
        requires
            valid_mtu(mtu),
        ensures
            r@ == mtu,
    {
        ServerOptions { mtu }
    }

    /// The largest frame size.
    pub fn mtu(&self) -> (r: usize)
        ensures
            r == self@,
    {
        self.mtu
    }
}

} // verus!
