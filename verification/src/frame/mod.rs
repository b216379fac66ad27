//! The frames of the protocol: their fields, their binary encoding, and
//! how they are decoded from bytes.
//!
//! A frame is a stream id (four bytes), a word of two bytes that holds the
//! frame type in its six high bits and the flags in its ten low bits, and a
//! body that depends on the type.

use crate::buffer::{bytes_mut_len, bytes_mut_view, get_u16, get_u32, put_u16, put_u32};
use crate::endian::{be16, be16_value, be32, be32_value};
use crate::error::RSocketError;
use crate::utils::Writeable;
use bytes::BytesMut;
use vstd::prelude::*;

pub mod cancel;
pub mod error;
pub mod keepalive;
pub mod laws;
pub mod lease;
pub mod metadata_push;
pub mod payload;
pub mod request_channel;
pub mod request_fnf;
pub mod request_n;
pub mod request_response;
pub mod request_stream;
pub mod resume;
pub mod resume_ok;
pub mod setup;
pub mod utils;
pub mod version;

pub use cancel::{Cancel, CancelBuilder};
pub use error::{Error, ErrorBuilder, ErrorView};
pub use keepalive::{Keepalive, KeepaliveBuilder, KeepaliveView};
pub use lease::{Lease, LeaseBuilder, LeaseView};
pub use metadata_push::{MetadataPush, MetadataPushBuiler};
pub use payload::{Payload, PayloadBuilder};
pub use request_channel::{RequestChannel, RequestChannelBuilder};
pub use request_fnf::{RequestFNF, RequestFNFBuilder};
pub use request_n::{RequestN, RequestNBuilder};
pub use request_response::{RequestResponse, RequestResponseBuilder};
pub use request_stream::{RequestStream, RequestStreamBuilder};
pub use resume::{Resume, ResumeBuilder, ResumeView};
pub use resume_ok::{ResumeOK, ResumeOKBuilder};
pub use setup::{Setup, SetupBuilder, SetupView};
pub use utils::Decoding;
pub use version::Version;

verus! {

/// The largest number of items a requester may ask for.
pub const REQUEST_MAX: u32 = 0x7FFF_FFFF;

/// The length of a frame's header: the stream id and the type-and-flags word.
pub const LEN_HEADER: usize = 6;

/// Metadata and data, each present or not.
pub struct PayloadView {
    pub metadata: Option<Seq<u8>>,
    pub data: Option<Seq<u8>>,
}

/// The number of items first asked for, with metadata and data.
pub struct StreamView {
    pub initial_request_n: u32,
    pub metadata: Option<Seq<u8>>,
    pub data: Option<Seq<u8>>,
}

/// A builder: the stream id and flags of the frame it builds, and its body.
pub struct BuilderView<V> {
    pub stream_id: u32,
    pub flag: u16,
    pub value: V,
}

/// The body of a frame, with its buffers seen as sequences of bytes.
pub enum BodyView {
    Setup(SetupView),
    Lease(LeaseView),
    Keepalive(KeepaliveView),
    RequestFNF(PayloadView),
    RequestResponse(PayloadView),
    RequestStream(StreamView),
    RequestChannel(StreamView),
    RequestN(u32),
    Cancel,
    Payload(PayloadView),
    Error(ErrorView),
    MetadataPush(Option<Seq<u8>>),
    Resume(ResumeView),
    ResumeOK(u64),
}

/// A frame, with its buffers seen as sequences of bytes.
pub struct FrameView {
    pub stream_id: u32,
    pub body: BodyView,
    pub flag: u16,
}

/// The body of a frame.
#[derive(Debug)]
pub enum Body {
    Setup(Setup),
    Lease(Lease),
    Keepalive(Keepalive),
    RequestFNF(RequestFNF),
    RequestResponse(RequestResponse),
    RequestStream(RequestStream),
    RequestChannel(RequestChannel),
    RequestN(RequestN),
    Cancel(),
    Payload(Payload),
    Error(Error),
    MetadataPush(MetadataPush),
    Resume(Resume),
    ResumeOK(ResumeOK),
}

impl View for Body {
    type V = BodyView;

    open spec fn view(&self) -> BodyView {
        match self {
            Body::Setup(v) => BodyView::Setup(v@),
            Body::Lease(v) => BodyView::Lease(v@),
            Body::Keepalive(v) => BodyView::Keepalive(v@),
            Body::RequestFNF(v) => BodyView::RequestFNF(v@),
            Body::RequestResponse(v) => BodyView::RequestResponse(v@),
            Body::RequestStream(v) => BodyView::RequestStream(v@),
            Body::RequestChannel(v) => BodyView::RequestChannel(v@),
            Body::RequestN(v) => BodyView::RequestN(v@),
            Body::Cancel() => BodyView::Cancel,
            Body::Payload(v) => BodyView::Payload(v@),
            Body::Error(v) => BodyView::Error(v@),
            Body::MetadataPush(v) => BodyView::MetadataPush(v@),
            Body::Resume(v) => BodyView::Resume(v@),
            Body::ResumeOK(v) => BodyView::ResumeOK(v@),
        }
    }
}

/// A frame: the stream it belongs to, its body and its flags.
#[derive(Debug)]
pub struct Frame {
    stream_id: u32,
    body: Body,
    flag: u16,
}

impl View for Frame {
    type V = FrameView;

    closed spec fn view(&self) -> FrameView {
        FrameView { stream_id: self.stream_id, body: self.body@, flag: self.flag }
    }
}

pub const FLAG_NEXT: u16 = 0x20;

pub const FLAG_COMPLETE: u16 = 0x40;

pub const FLAG_FOLLOW: u16 = 0x80;

pub const FLAG_METADATA: u16 = 0x100;

pub const FLAG_IGNORE: u16 = 0x200;

pub const FLAG_RESPOND: u16 = 0x80;

pub const TYPE_SETUP: u16 = 0x01;

pub const TYPE_LEASE: u16 = 0x02;

pub const TYPE_KEEPALIVE: u16 = 0x03;

pub const TYPE_REQUEST_RESPONSE: u16 = 0x04;

pub const TYPE_REQUEST_FNF: u16 = 0x05;

pub const TYPE_REQUEST_STREAM: u16 = 0x06;

pub const TYPE_REQUEST_CHANNEL: u16 = 0x07;

pub const TYPE_REQUEST_N: u16 = 0x08;

pub const TYPE_CANCEL: u16 = 0x09;

pub const TYPE_PAYLOAD: u16 = 0x0A;

pub const TYPE_ERROR: u16 = 0x0B;

pub const TYPE_METADATA_PUSH: u16 = 0x0C;

pub const TYPE_RESUME: u16 = 0x0D;

pub const TYPE_RESUME_OK: u16 = 0x0E;

impl Frame {
    pub const FLAG_NEXT: u16 = 0x20;

    pub const FLAG_COMPLETE: u16 = 0x40;

    pub const FLAG_FOLLOW: u16 = 0x80;

    pub const FLAG_METADATA: u16 = 0x100;

    pub const FLAG_IGNORE: u16 = 0x200;

    pub const FLAG_LEASE: u16 = 0x40;

    pub const FLAG_RESUME: u16 = 0x80;

    pub const FLAG_RESPOND: u16 = 0x80;

    pub const TYPE_SETUP: u16 = 0x01;

    pub const TYPE_LEASE: u16 = 0x02;

    pub const TYPE_KEEPALIVE: u16 = 0x03;

    pub const TYPE_REQUEST_RESPONSE: u16 = 0x04;

    pub const TYPE_REQUEST_FNF: u16 = 0x05;

    pub const TYPE_REQUEST_STREAM: u16 = 0x06;

    pub const TYPE_REQUEST_CHANNEL: u16 = 0x07;

    pub const TYPE_REQUEST_N: u16 = 0x08;

    pub const TYPE_CANCEL: u16 = 0x09;

    pub const TYPE_PAYLOAD: u16 = 0x0A;

    pub const TYPE_ERROR: u16 = 0x0B;

    pub const TYPE_METADATA_PUSH: u16 = 0x0C;

    pub const TYPE_RESUME: u16 = 0x0D;

    pub const TYPE_RESUME_OK: u16 = 0x0E;
}

/// The type code of a body.
pub open spec fn frame_type(b: BodyView) -> u16 {
    match b {
        BodyView::Setup(_) => TYPE_SETUP,
        BodyView::Lease(_) => TYPE_LEASE,
        BodyView::Keepalive(_) => TYPE_KEEPALIVE,
        BodyView::RequestResponse(_) => TYPE_REQUEST_RESPONSE,
        BodyView::RequestFNF(_) => TYPE_REQUEST_FNF,
        BodyView::RequestStream(_) => TYPE_REQUEST_STREAM,
        BodyView::RequestChannel(_) => TYPE_REQUEST_CHANNEL,
        BodyView::RequestN(_) => TYPE_REQUEST_N,
        BodyView::Cancel => TYPE_CANCEL,
        BodyView::Payload(_) => TYPE_PAYLOAD,
        BodyView::Error(_) => TYPE_ERROR,
        BodyView::MetadataPush(_) => TYPE_METADATA_PUSH,
        BodyView::Resume(_) => TYPE_RESUME,
        BodyView::ResumeOK(_) => TYPE_RESUME_OK,
    }
}

/// The encoding of a body.
pub open spec fn body_encoding(b: BodyView) -> Seq<u8> {
    match b {
        BodyView::Setup(v) => setup::setup_encoding(v),
        BodyView::Lease(v) => lease::lease_encoding(v),
        BodyView::Keepalive(v) => keepalive::keepalive_encoding(v),
        BodyView::RequestResponse(v) => utils::payload_encoding(v.metadata, v.data),
        BodyView::RequestFNF(v) => utils::payload_encoding(v.metadata, v.data),
        BodyView::RequestStream(v) => request_stream::stream_encoding(v),
        BodyView::RequestChannel(v) => request_stream::stream_encoding(v),
        BodyView::RequestN(n) => be32(n),
        BodyView::Cancel => Seq::empty(),
        BodyView::Payload(v) => utils::payload_encoding(v.metadata, v.data),
        BodyView::Error(v) => error::error_encoding(v),
        BodyView::MetadataPush(m) => utils::or_empty(m),
        BodyView::Resume(v) => resume::resume_encoding(v),
        BodyView::ResumeOK(p) => crate::endian::be64(p),
    }
}

/// The number of bytes that a body's `len` reports.
pub open spec fn body_len(b: BodyView) -> int {
    match b {
        BodyView::Resume(v) => resume::resume_len(v),
        _ => body_encoding(b).len() as int,
    }
}

/// Whether a body can be encoded: its metadata must fit the 24-bit length
/// that precedes it.
pub open spec fn body_writable(b: BodyView) -> bool {
    match b {
        BodyView::Setup(v) => utils::metadata_fits(v.metadata),
        BodyView::RequestResponse(v) => utils::metadata_fits(v.metadata),
        BodyView::RequestFNF(v) => utils::metadata_fits(v.metadata),
        BodyView::RequestStream(v) => utils::metadata_fits(v.metadata),
        BodyView::RequestChannel(v) => utils::metadata_fits(v.metadata),
        BodyView::Payload(v) => utils::metadata_fits(v.metadata),
        _ => true,
    }
}

/// The type-and-flags word of a frame.
pub open spec fn header_word(ty: u16, flag: u16) -> u16 {
    (ty << 10u16) | flag
}

/// The encoding of a frame: stream id, type-and-flags word, body.
pub open spec fn frame_encoding(f: FrameView) -> Seq<u8> {
    be32(f.stream_id) + be16(header_word(frame_type(f.body), f.flag)) + body_encoding(f.body)
}

/// The flags that a type-and-flags word holds.
pub open spec fn word_flag(n: u16) -> u16 {
    n & 0x03FF
}

/// The type code that a type-and-flags word holds.
pub open spec fn word_type(n: u16) -> u16 {
    (n & 0xFC00) >> 10u16
}

/// How the body of a frame with type `ty` and flags `flag` decodes from `s`.
pub open spec fn decode_body(ty: u16, flag: u16, s: Seq<u8>) -> Decoding<BodyView> {
    if ty == TYPE_SETUP {
        setup::decode_setup(flag, s).map(|v| BodyView::Setup(v))
    } else if ty == TYPE_REQUEST_RESPONSE {
        payload::decode_payload_body(flag, s).map(|v| BodyView::RequestResponse(v))
    } else if ty == TYPE_REQUEST_STREAM {
        request_stream::decode_stream(flag, s).map(|v| BodyView::RequestStream(v))
    } else if ty == TYPE_REQUEST_CHANNEL {
        request_stream::decode_stream(flag, s).map(|v| BodyView::RequestChannel(v))
    } else if ty == TYPE_REQUEST_FNF {
        payload::decode_payload_body(flag, s).map(|v| BodyView::RequestFNF(v))
    } else if ty == TYPE_REQUEST_N {
        request_n::decode_request_n(s).map(|v| BodyView::RequestN(v))
    } else if ty == TYPE_METADATA_PUSH {
        Decoding::Done { value: BodyView::MetadataPush(Some(s)), rest: Seq::empty() }
    } else if ty == TYPE_KEEPALIVE {
        keepalive::decode_keepalive(s).map(|v| BodyView::Keepalive(v))
    } else if ty == TYPE_PAYLOAD {
        payload::decode_payload_body(flag, s).map(|v| BodyView::Payload(v))
    } else if ty == TYPE_LEASE {
        lease::decode_lease(flag, s).map(|v| BodyView::Lease(v))
    } else if ty == TYPE_CANCEL {
        Decoding::Done { value: BodyView::Cancel, rest: s }
    } else if ty == TYPE_ERROR {
        error::decode_error(s).map(|v| BodyView::Error(v))
    } else if ty == TYPE_RESUME_OK {
        resume_ok::decode_resume_ok(s).map(|v| BodyView::ResumeOK(v))
    } else if ty == TYPE_RESUME {
        resume::decode_resume(s).map(|v| BodyView::Resume(v))
    } else {
        Decoding::Undefined
    }
}

/// How a frame decodes from `s`: a header of six bytes, then the body that
/// its type names. An unknown type has no decoding.
pub open spec fn decode_frame(s: Seq<u8>) -> Decoding<FrameView> {
    if s.len() < 6 {
        Decoding::Incomplete { rest: s }
    } else {
        let sid = be32_value(s);
        let n = be16_value(s.skip(4));
        let flag = word_flag(n);
        decode_body(word_type(n), flag, s.skip(6)).map(
            |b| FrameView { stream_id: sid, body: b, flag: flag },
        )
    }
}

impl Writeable for Frame {
    open spec fn encoding(&self) -> Seq<u8> {
        frame_encoding(self@)
    }

    open spec fn writable(&self) -> bool {
        body_writable(self@.body)
    }

    open spec fn encoded_len(&self) -> int {
        LEN_HEADER + body_len(self@.body)
    }

    fn write_to(&self, bf: &mut BytesMut) {
        let ghost start = bytes_mut_view(*bf);
        put_u32(bf, self.stream_id);
        put_u16(bf, (to_frame_type(&self.body) << 10u16) | self.flag);
        let ghost mid = bytes_mut_view(*bf);
        match &self.body {
            Body::Setup(v) => v.write_to(bf),
            Body::RequestResponse(v) => v.write_to(bf),
            Body::RequestStream(v) => v.write_to(bf),
            Body::RequestChannel(v) => v.write_to(bf),
            Body::RequestFNF(v) => v.write_to(bf),
            Body::RequestN(v) => v.write_to(bf),
            Body::MetadataPush(v) => v.write_to(bf),
            Body::Keepalive(v) => v.write_to(bf),
            Body::Payload(v) => v.write_to(bf),
            Body::Lease(v) => v.write_to(bf),
            Body::Error(v) => v.write_to(bf),
            Body::Cancel() => (),
            Body::ResumeOK(v) => v.write_to(bf),
            Body::Resume(v) => v.write_to(bf),
        }
        proof {
            assert(mid =~= start + be32(self@.stream_id) + be16(
                header_word(frame_type(self@.body), self@.flag),
            ));
            assert(bytes_mut_view(*final(bf)) =~= start + frame_encoding(self@));
        }
    }

    fn len(&self) -> (n: usize) {
        let b: usize = match &self.body {
            Body::Setup(v) => v.len(),
            Body::RequestResponse(v) => v.len(),
            Body::RequestStream(v) => v.len(),
            Body::RequestChannel(v) => v.len(),
            Body::RequestFNF(v) => v.len(),
            Body::RequestN(v) => v.len(),
            Body::MetadataPush(v) => v.len(),
            Body::Keepalive(v) => v.len(),
            Body::Payload(v) => v.len(),
            Body::Lease(v) => v.len(),
            Body::Cancel() => 0,
            Body::Error(v) => v.len(),
            Body::ResumeOK(v) => v.len(),
            Body::Resume(v) => v.len(),
        };
        LEN_HEADER + b
    }
}

/// The type code of a body.
fn to_frame_type(body: &Body) -> (ty: u16)
    ensures
        ty == frame_type(body@),
{
    match body {
        Body::Setup(_) => TYPE_SETUP,
        Body::Lease(_) => TYPE_LEASE,
        Body::Keepalive(_) => TYPE_KEEPALIVE,
        Body::RequestResponse(_) => TYPE_REQUEST_RESPONSE,
        Body::RequestFNF(_) => TYPE_REQUEST_FNF,
        Body::RequestStream(_) => TYPE_REQUEST_STREAM,
        Body::RequestChannel(_) => TYPE_REQUEST_CHANNEL,
        Body::RequestN(_) => TYPE_REQUEST_N,
        Body::Cancel() => TYPE_CANCEL,
        Body::Payload(_) => TYPE_PAYLOAD,
        Body::Error(_) => TYPE_ERROR,
        Body::MetadataPush(_) => TYPE_METADATA_PUSH,
        Body::Resume(_) => TYPE_RESUME,
        Body::ResumeOK(_) => TYPE_RESUME_OK,
    }
}

impl Frame {
    /// The frame with these parts.
    pub fn new(stream_id: u32, body: Body, flag: u16) -> (f: Frame)
        ensures
            f@ == (FrameView { stream_id, body: body@, flag }),
    {
        Frame { stream_id, body, flag }
    }

    /// Decodes one frame from the front of `b`. A type code that no frame
    /// has is a precondition failure, as are lengths inside the frame that
    /// exceed its bytes; a frame that ends too early is `InCompleteFrame`.
    pub fn decode(b: &mut BytesMut) -> (r: Result<Frame, RSocketError>)
        requires
            !(decode_frame(bytes_mut_view(*old(b))) is Undefined),
        ensures
            match r {
                Ok(f) => decode_frame(bytes_mut_view(*old(b))) == Decoding::Done {
                    value: f@,
                    rest: bytes_mut_view(*final(b)),
                },
                Err(e) => e is InCompleteFrame && decode_frame(bytes_mut_view(*old(b)))
                    == Decoding::<FrameView>::Incomplete { rest: bytes_mut_view(*final(b)) },
            },
    {
        let ghost s = bytes_mut_view(*b);
        if bytes_mut_len(b) < LEN_HEADER {
            return Err(RSocketError::InCompleteFrame);
        }
        let sid = get_u32(b);
        let n = get_u16(b);
        let flag = n & 0x03FF;
        let kind = (n & 0xFC00) >> 10u16;
        proof {
            assert(bytes_mut_view(*b) =~= s.skip(6));
            assert(s.skip(4) =~= s.skip(4));
        }
        let body = if kind == TYPE_SETUP {
            match Setup::decode(flag, b) {
                Ok(v) => Ok(Body::Setup(v)),
                Err(e) => Err(e),
            }
        } else if kind == TYPE_REQUEST_RESPONSE {
            match RequestResponse::decode(flag, b) {
                Ok(v) => Ok(Body::RequestResponse(v)),
                Err(e) => Err(e),
            }
        } else if kind == TYPE_REQUEST_STREAM {
            match RequestStream::decode(flag, b) {
                Ok(v) => Ok(Body::RequestStream(v)),
                Err(e) => Err(e),
            }
        } else if kind == TYPE_REQUEST_CHANNEL {
            match RequestChannel::decode(flag, b) {
                Ok(v) => Ok(Body::RequestChannel(v)),
                Err(e) => Err(e),
            }
        } else if kind == TYPE_REQUEST_FNF {
            match RequestFNF::decode(flag, b) {
                Ok(v) => Ok(Body::RequestFNF(v)),
                Err(e) => Err(e),
            }
        } else if kind == TYPE_REQUEST_N {
            match RequestN::decode(flag, b) {
                Ok(v) => Ok(Body::RequestN(v)),
                Err(e) => Err(e),
            }
        } else if kind == TYPE_METADATA_PUSH {
            match MetadataPush::decode(flag, b) {
                Ok(v) => Ok(Body::MetadataPush(v)),
                Err(e) => Err(e),
            }
        } else if kind == TYPE_KEEPALIVE {
            match Keepalive::decode(flag, b) {
                Ok(v) => Ok(Body::Keepalive(v)),
                Err(e) => Err(e),
            }
        } else if kind == TYPE_PAYLOAD {
            match Payload::decode(flag, b) {
                Ok(v) => Ok(Body::Payload(v)),
                Err(e) => Err(e),
            }
        } else if kind == TYPE_LEASE {
            match Lease::decode(flag, b) {
                Ok(v) => Ok(Body::Lease(v)),
                Err(e) => Err(e),
            }
        } else if kind == TYPE_CANCEL {
            Ok(Body::Cancel())
        } else if kind == TYPE_ERROR {
            match Error::decode(flag, b) {
                Ok(v) => Ok(Body::Error(v)),
                Err(e) => Err(e),
            }
        } else if kind == TYPE_RESUME_OK {
            match ResumeOK::decode(flag, b) {
                Ok(v) => Ok(Body::ResumeOK(v)),
                Err(e) => Err(e),
            }
        } else {
            match Resume::decode(flag, b) {
                Ok(v) => Ok(Body::Resume(v)),
                Err(e) => Err(e),
            }
        };
        match body {
            Ok(it) => Ok(Frame::new(sid, it, flag)),
            Err(e) => Err(e),
        }
    }

    /// Whether the frame may be followed by fragments of it, and whether it
    /// is a PAYLOAD frame.
    pub fn is_followable_or_payload(&self) -> (r: (bool, bool))
        ensures
            r == followable_or_payload(self@.body),
    {
        match &self.body {
            Body::RequestFNF(_) => (true, false),
            Body::RequestResponse(_) => (true, false),
            Body::RequestStream(_) => (true, false),
            Body::RequestChannel(_) => (true, false),
            Body::Payload(_) => (true, true),
            _ => (false, false),
        }
    }

    /// The body, taking the frame apart.
    pub fn get_body(self) -> (b: Body)
        ensures
            b@ == self@.body,
    {
        self.body
    }

    /// The body.
    pub fn get_body_ref(&self) -> (b: &Body)
        ensures
            b@ == self@.body,
    {
        &self.body
    }

    /// The flags.
    pub fn get_flag(&self) -> (f: u16)
        ensures
            f == self@.flag,
    {
        self.flag
    }

    /// The stream id.
    pub fn get_stream_id(&self) -> (id: u32)
        ensures
            id == self@.stream_id,
    {
        self.stream_id
    }

    /// Whether the NEXT flag is set.
    pub fn has_next(&self) -> (r: bool)
        ensures
            r == (self@.flag & FLAG_NEXT != 0),
    {
        self.flag & Self::FLAG_NEXT != 0
    }

    /// Whether the COMPLETE flag is set.
    pub fn has_complete(&self) -> (r: bool)
        ensures
            r == (self@.flag & FLAG_COMPLETE != 0),
    {
        self.flag & Self::FLAG_COMPLETE != 0
    }
}

/// Whether a body may be followed by fragments (requests and payloads),
/// and whether it is a payload.
pub open spec fn followable_or_payload(b: BodyView) -> (bool, bool) {
    match b {
        BodyView::RequestFNF(_) => (true, false),
        BodyView::RequestResponse(_) => (true, false),
        BodyView::RequestStream(_) => (true, false),
        BodyView::RequestChannel(_) => (true, false),
        BodyView::Payload(_) => (true, true),
        _ => (false, false),
    }
}

} // verus!
