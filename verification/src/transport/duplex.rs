//! The decisions of a connection about each frame: where an arriving frame
//! goes, what a payload does to the request waiting for it, and the frames
//! that a connection sends of its own (the SETUP, the answers to a
//! KEEPALIVE, errors, cancellations and completions).

use crate::buffer::bytes_copy_from_slice;
use crate::error::{RSocketError, ERR_APPLICATION, ERR_REJECT_SETUP};
use crate::frame::setup::default_mime;
use crate::frame::utils::METADATA_BIT;
use crate::frame::{
    self, frame_type, Body, BodyView, ErrorView, Frame, FrameView, KeepaliveView, PayloadView,
    SetupView, FLAG_COMPLETE, FLAG_NEXT, FLAG_RESPOND, REQUEST_MAX, TYPE_CANCEL, TYPE_ERROR,
    TYPE_KEEPALIVE, TYPE_METADATA_PUSH, TYPE_PAYLOAD, TYPE_REQUEST_CHANNEL, TYPE_REQUEST_FNF,
    TYPE_REQUEST_RESPONSE, TYPE_REQUEST_STREAM, TYPE_SETUP,
};
use crate::payload::misc::utf8_present;
use crate::payload::setup::SetupPayloadView;
use crate::payload::{Payload, SetupPayload};
use super::fragmentation::Splitter;
use super::socket::{fragments, frame_views, mtu_of, planned_frames, SendKind};
use crate::frame::LEN_HEADER;
use vstd::prelude::*;
use vstd::string::StringSliceAdditionalSpecFns;
use vstd::utf8::{decode_utf8, decode_utf8_encode_utf8, encode_utf8, valid_utf8};

verus! {

/// Where an arriving frame goes.
#[derive(Debug, Clone, Copy, PartialEq, Eq, Structural)]
pub enum Route {
    /// A SETUP: the acceptor decides on the connection.
    Setup,
    /// A METADATA_PUSH for the responder.
    MetadataPush,
    /// A REQUEST_FNF for the responder.
    FireAndForget,
    /// A REQUEST_RESPONSE for the responder.
    RequestResponse,
    /// A REQUEST_STREAM for the responder.
    RequestStream,
    /// A REQUEST_CHANNEL for the responder.
    RequestChannel,
    /// A PAYLOAD for the request waiting on its stream.
    Payload,
    /// A KEEPALIVE that asks for an answer.
    Keepalive,
    /// An ERROR for the request waiting on its stream.
    Error,
    /// A CANCEL of the request on its stream.
    Cancel,
    /// Nothing is done with the frame.
    Ignore,
}

/// Where a frame goes: by the kind of its body; a KEEPALIVE only when it
/// asks for an answer; RESUME, RESUME_OK, REQUEST_N and LEASE nowhere.
pub open spec fn route_of(f: FrameView) -> Route {
    match f.body {
        BodyView::Setup(_) => Route::Setup,
        BodyView::MetadataPush(_) => Route::MetadataPush,
        BodyView::RequestFNF(_) => Route::FireAndForget,
        BodyView::RequestResponse(_) => Route::RequestResponse,
        BodyView::RequestStream(_) => Route::RequestStream,
        BodyView::RequestChannel(_) => Route::RequestChannel,
        BodyView::Payload(_) => Route::Payload,
        BodyView::Keepalive(_) => if f.flag & FLAG_RESPOND != 0 {
            Route::Keepalive
        } else {
            Route::Ignore
        },
        BodyView::Error(_) => Route::Error,
        BodyView::Cancel => Route::Cancel,
        _ => Route::Ignore,
    }
}

/// Decides where an arriving frame goes.
pub fn route(f: &Frame) -> (r: Route)
    ensures
        r == route_of(f@),
        (r == Route::Setup) <==> frame_type(f@.body) == TYPE_SETUP,
        (r == Route::MetadataPush) <==> frame_type(f@.body) == TYPE_METADATA_PUSH,
        (r == Route::FireAndForget) <==> frame_type(f@.body) == TYPE_REQUEST_FNF,
        (r == Route::RequestResponse) <==> frame_type(f@.body) == TYPE_REQUEST_RESPONSE,
        (r == Route::RequestStream) <==> frame_type(f@.body) == TYPE_REQUEST_STREAM,
        (r == Route::RequestChannel) <==> frame_type(f@.body) == TYPE_REQUEST_CHANNEL,
        (r == Route::Payload) <==> frame_type(f@.body) == TYPE_PAYLOAD,
        (r == Route::Error) <==> frame_type(f@.body) == TYPE_ERROR,
        (r == Route::Cancel) <==> frame_type(f@.body) == TYPE_CANCEL,
        (r == Route::Keepalive) <==> (frame_type(f@.body) == TYPE_KEEPALIVE && f@.flag
            & FLAG_RESPOND != 0),
{
    match f.get_body_ref() {
        Body::Setup(_) => Route::Setup,
        Body::MetadataPush(_) => Route::MetadataPush,
        Body::RequestFNF(_) => Route::FireAndForget,
        Body::RequestResponse(_) => Route::RequestResponse,
        Body::RequestStream(_) => Route::RequestStream,
        Body::RequestChannel(_) => Route::RequestChannel,
        Body::Payload(_) => Route::Payload,
        Body::Keepalive(_) => {
            if f.get_flag() & Frame::FLAG_RESPOND != 0 {
                Route::Keepalive
            } else {
                Route::Ignore
            }
        },
        Body::Error(_) => Route::Error,
        Body::Cancel() => Route::Cancel,
        _ => Route::Ignore,
    }
}

/// The kind of request that waits for frames on a stream.
#[derive(Debug, Clone, Copy, PartialEq, Eq, Structural)]
pub enum HandlerKind {
    RequestResponse,
    RequestStream,
    RequestChannel,
}

/// What a PAYLOAD hands to the request waiting on its stream.
#[derive(Debug, Clone, Copy, PartialEq, Eq, Structural)]
pub enum Delivery {
    /// Nothing.
    Nothing,
    /// The payload.
    Value,
    /// The end of a request-response without a payload.
    Empty,
}

/// What a PAYLOAD does: what it hands over, and whether the request stops
/// waiting on the stream.
#[derive(Debug, Clone, Copy, PartialEq, Eq, Structural)]
pub struct PayloadStep {
    pub deliver: Delivery,
    pub remove: bool,
}

/// What a PAYLOAD with flags `flag` does to the request `handler` waiting
/// on its stream: a request-response takes the payload (or its end, when
/// NEXT is not set) and stops waiting; a stream or a channel takes the
/// payload when NEXT is set and stops waiting when COMPLETE is set; with
/// no request waiting, nothing happens.
pub open spec fn payload_step_of(handler: Option<HandlerKind>, flag: u16) -> PayloadStep {
    match handler {
        None => PayloadStep { deliver: Delivery::Nothing, remove: false },
        Some(HandlerKind::RequestResponse) => PayloadStep {
            deliver: if flag & FLAG_NEXT != 0 {
                Delivery::Value
            } else {
                Delivery::Empty
            },
            remove: true,
        },
        Some(_) => PayloadStep {
            deliver: if flag & FLAG_NEXT != 0 {
                Delivery::Value
            } else {
                Delivery::Nothing
            },
            remove: flag & FLAG_COMPLETE != 0,
        },
    }
}

/// Decides what a PAYLOAD with flags `flag` does to the request `handler`
/// waiting on its stream.
pub fn on_payload(handler: Option<HandlerKind>, flag: u16) -> (r: PayloadStep)
    ensures
        r == payload_step_of(handler, flag),
        handler is None ==> r.deliver == Delivery::Nothing && !r.remove,
        handler == Some(HandlerKind::RequestResponse) ==> {
            &&& r.remove
            &&& r.deliver != Delivery::Nothing
            &&& (r.deliver == Delivery::Value <==> flag & FLAG_NEXT != 0)
        },
        (handler == Some(HandlerKind::RequestStream) || handler == Some(
            HandlerKind::RequestChannel,
        )) ==> {
            &&& r.deliver != Delivery::Empty
            &&& (r.deliver == Delivery::Value <==> flag & FLAG_NEXT != 0)
            &&& (r.remove <==> flag & FLAG_COMPLETE != 0)
        },
{
    let next = flag & Frame::FLAG_NEXT != 0;
    match handler {
        None => PayloadStep { deliver: Delivery::Nothing, remove: false },
        Some(HandlerKind::RequestResponse) => PayloadStep {
            deliver: if next {
                Delivery::Value
            } else {
                Delivery::Empty
            },
            remove: true,
        },
        Some(_) => PayloadStep {
            deliver: if next {
                Delivery::Value
            } else {
                Delivery::Nothing
            },
            remove: flag & Frame::FLAG_COMPLETE != 0,
        },
    }
}

/// The text that the data of an ERROR carries: the data when it is valid
/// UTF-8, else nothing.
pub open spec fn error_description(e: ErrorView) -> Seq<char> {
    if e.data is Some && valid_utf8(e.data->0) {
        decode_utf8(e.data->0)
    } else {
        Seq::empty()
    }
}

/// The error that an arriving ERROR frame denotes: the one of its code,
/// described by its data.
pub fn error_of(input: &frame::Error) -> (e: RSocketError)
    ensures
        e.is_from_code(input@.code, error_description(input@)),
{
    let desc = match input.get_data_utf8() {
        Some(t) => t.to_owned(),
        None => String::new(),
    };
    RSocketError::must_new_from_code(input.get_code(), desc)
}

/// The error that a request-response gets when it is cancelled.
pub fn cancelled_error() -> (e: RSocketError)
    ensures
        e matches RSocketError::RequestCancelled(s) && s@ == "request has been cancelled"@,
{
    RSocketError::RequestCancelled("request has been cancelled".to_owned())
}

/// What a CANCEL tells the request `handler` waiting on its stream, which
/// stops waiting in any case: a request-response gets the error of a
/// cancelled request; a stream, a channel or no request gets nothing.
pub fn on_cancel(handler: Option<HandlerKind>) -> (r: Option<RSocketError>)
    ensures
        r is Some <==> handler == Some(HandlerKind::RequestResponse),
        r matches Some(e) ==> (e matches RSocketError::RequestCancelled(s) && s@
            == "request has been cancelled"@),
{
    match handler {
        Some(HandlerKind::RequestResponse) => Some(cancelled_error()),
        _ => None,
    }
}

/// The MIME type that a SETUP announces for a payload's optional MIME type:
/// the type when it is set and valid UTF-8, else the default one.
pub open spec fn announced_mime(m: Option<Seq<u8>>) -> Seq<u8> {
    if utf8_present(m) {
        m->0
    } else {
        default_mime()
    }
}

/// Whether the MIME types of a SETUP payload fit the SETUP frame: each, when
/// it is announced, takes at most 256 bytes.
pub open spec fn setup_mimes_fit(p: SetupPayloadView) -> bool {
    &&& utf8_present(p.mime_data) ==> p.mime_data->0.len() <= 256
    &&& utf8_present(p.mime_metadata) ==> p.mime_metadata->0.len() <= 256
}

/// The SETUP frame that opens a connection with the payload `p`: stream 0,
/// version 1.0, its keepalive interval and lifetime kept to 32 bits, its
/// MIME types, data and metadata; the metadata flag set when there is
/// metadata.
pub open spec fn setup_frame_of(p: SetupPayloadView) -> FrameView {
    FrameView {
        stream_id: 0,
        body: BodyView::Setup(
            SetupView {
                version: (1u16, 0u16),
                keepalive: p.keepalive.0 as u32,
                lifetime: p.keepalive.1 as u32,
                token: None,
                mime_metadata: announced_mime(p.mime_metadata),
                mime_data: announced_mime(p.mime_data),
                metadata: p.metadata,
                data: p.data,
            },
        ),
        flag: if p.metadata is Some {
            METADATA_BIT
        } else {
            0
        },
    }
}

/// Builds the SETUP frame that opens a connection with `setup`.
pub fn setup_frame(setup: SetupPayload) -> (f: Frame)
    requires
        setup_mimes_fit(setup@),
    ensures
        f@ == setup_frame_of(setup@),
{
    let ghost p = setup@;
    let mut bu = frame::Setup::builder(0, 0);
    if let Some(s) = setup.data_mime_type() {
        proof {
            decode_utf8_encode_utf8(p.mime_data->0);
        }
        bu = bu.set_mime_data(s);
    }
    if let Some(s) = setup.metadata_mime_type() {
        proof {
            decode_utf8_encode_utf8(p.mime_metadata->0);
        }
        bu = bu.set_mime_metadata(s);
    }
    bu = bu.set_keepalive(setup.keepalive_interval());
    bu = bu.set_lifetime(setup.keepalive_lifetime());
    let (d, m) = setup.split();
    if let Some(b) = d {
        bu = bu.set_data(b);
    }
    if let Some(b) = m {
        bu = bu.set_metadata(b);
        assert(0u16 | 0x100u16 == 0x100u16) by (bit_vector);
    }
    bu.build()
}

/// The ERROR frame on stream `sid` with `code` whose data is the UTF-8
/// bytes of `msg`.
pub open spec fn error_frame_of(sid: u32, code: u32, msg: Seq<char>) -> FrameView {
    FrameView {
        stream_id: sid,
        body: BodyView::Error(ErrorView { code, data: Some(encode_utf8(msg)) }),
        flag: 0,
    }
}

/// Builds an ERROR frame on stream `sid` with `code` and the text `msg`.
fn error_frame(sid: u32, code: u32, msg: &str) -> (f: Frame)
    ensures
        f@ == error_frame_of(sid, code, msg@),
{
    let data = bytes_copy_from_slice(msg.as_bytes());
    frame::Error::builder(sid, 0).set_code(code).set_data(data).build()
}

/// The ERROR frame that rejects a SETUP, with the message of the refusal.
pub fn reject_setup_frame(msg: &str) -> (f: Frame)
    ensures
        f@ == error_frame_of(0, ERR_REJECT_SETUP, msg@),
{
    error_frame(0, ERR_REJECT_SETUP, msg)
}

/// The ERROR frame that answers a request on stream `sid` whose responder
/// failed, with the message of the failure.
pub fn application_error_frame(sid: u32, msg: &str) -> (f: Frame)
    ensures
        f@ == error_frame_of(sid, ERR_APPLICATION, msg@),
{
    error_frame(sid, ERR_APPLICATION, msg)
}

/// The KEEPALIVE that answers one asking for an answer: stream 0, no flag,
/// position 0, and the data of the one received.
pub fn keepalive_answer(received: frame::Keepalive) -> (f: Frame)
    ensures
        f@ == (FrameView {
            stream_id: 0,
            body: BodyView::Keepalive(
                KeepaliveView { last_received_position: 0, data: received@.data },
            ),
            flag: 0,
        }),
{
    let (data, _) = received.split();
    let mut sending = frame::Keepalive::builder(0, 0);
    if let Some(b) = data {
        sending = sending.set_data(b);
    }
    sending.build()
}

/// The CANCEL frame that stops the stream `sid`, flagged COMPLETE.
pub fn cancel_frame(sid: u32) -> (f: Frame)
    ensures
        f@ == (FrameView { stream_id: sid, body: BodyView::Cancel, flag: FLAG_COMPLETE }),
{
    frame::Cancel::builder(sid, Frame::FLAG_COMPLETE).build()
}

/// The empty PAYLOAD frame on stream `sid` with flags `flag`, which ends a
/// response when `flag` is COMPLETE.
pub fn complete_frame(sid: u32, flag: u16) -> (f: Frame)
    ensures
        f@ == (FrameView {
            stream_id: sid,
            body: BodyView::Payload(PayloadView { metadata: None, data: None }),
            flag,
        }),
{
    frame::Payload::builder(sid, flag).build()
}

/// The REQUEST_N frame that a channel's responder sends first: stream
/// `sid`, no flag, the largest number of items.
pub fn request_n_frame(sid: u32) -> (f: Frame)
    ensures
        f@ == (FrameView { stream_id: sid, body: BodyView::RequestN(REQUEST_MAX), flag: 0 }),
{
    frame::RequestN::builder(sid, 0).build()
}

/// The METADATA_PUSH frame that sends the metadata of `req` on stream
/// `sid` (its data is dropped).
pub fn metadata_push_frame(sid: u32, req: Payload) -> (f: Frame)
    ensures
        f@ == (FrameView { stream_id: sid, body: BodyView::MetadataPush(req@.metadata), flag: 0 }),
{
    let (_d, m) = req.split();
    let mut bu = frame::MetadataPush::builder(sid, 0);
    if let Some(b) = m {
        bu = bu.set_metadata(b);
    }
    bu.build()
}

/// The PAYLOAD frame flagged NEXT that a channel's responder sends for
/// each item: its data and metadata, with the metadata flag when there is
/// metadata.
pub fn channel_next_frame(sid: u32, payload: Payload) -> (f: Frame)
    ensures
        f@ == (FrameView {
            stream_id: sid,
            body: BodyView::Payload(payload@),
            flag: if payload@.metadata is Some {
                FLAG_NEXT | METADATA_BIT
            } else {
                FLAG_NEXT
            },
        }),
{
    let (data, metadata) = payload.split();
    let mut bu = frame::Payload::builder(sid, Frame::FLAG_NEXT);
    if let Some(b) = data {
        bu = bu.set_data(b);
    }
    if let Some(b) = metadata {
        bu = bu.set_metadata(b);
    }
    bu.build()
}

/// The frames that answer a request-response on stream `sid` once the
/// responder is done: its payload flagged NEXT and COMPLETE (cut into
/// fragments when there is a splitter); an empty PAYLOAD flagged COMPLETE
/// when there is no payload; an application ERROR with the message of a
/// failure.
pub open spec fn response_frames_of(
    mtu: Option<nat>,
    sid: u32,
    result: Result<Option<PayloadView>, Seq<char>>,
) -> Seq<FrameView> {
    match result {
        Ok(Some(p)) => planned_frames(mtu, SendKind::Payload, sid, FLAG_NEXT | FLAG_COMPLETE, p),
        Ok(None) => seq![
            FrameView {
                stream_id: sid,
                body: BodyView::Payload(PayloadView { metadata: None, data: None }),
                flag: FLAG_COMPLETE,
            },
        ],
        Err(m) => seq![error_frame_of(sid, ERR_APPLICATION, m)],
    }
}

/// The view of what a responder gives back to a request-response.
pub open spec fn response_view(result: &Result<Option<Payload>, String>) -> Result<
    Option<PayloadView>,
    Seq<char>,
> {
    match result {
        Ok(Some(p)) => Ok(Some(p@)),
        Ok(None) => Ok(None),
        Err(m) => Err(m@),
    }
}

/// Builds the frames that answer a request-response on stream `sid`.
pub fn response_frames(
    splitter: &Option<Splitter>,
    sid: u32,
    result: Result<Option<Payload>, String>,
) -> (r: Vec<Frame>)
    requires
        splitter matches Some(sp) ==> sp@ > LEN_HEADER,
    ensures
        frame_views(r@) == response_frames_of(mtu_of(*splitter), sid, response_view(&result)),
{
    let ghost view = response_view(&result);
    match result {
        Ok(Some(p)) => fragments(
            splitter,
            SendKind::Payload,
            sid,
            Frame::FLAG_NEXT | Frame::FLAG_COMPLETE,
            p,
        ),
        Ok(None) => {
            let v = vec![complete_frame(sid, Frame::FLAG_COMPLETE)];
            assert(frame_views(v@) =~= response_frames_of(mtu_of(*splitter), sid, view));
            v
        },
        Err(m) => {
            let v = vec![application_error_frame(sid, m.as_str())];
            assert(frame_views(v@) =~= response_frames_of(mtu_of(*splitter), sid, view));
            v
        },
    }
}

/// The frames that send one item of a stream on stream `sid`: the payload
/// flagged `flag` (cut into fragments when there is a splitter), or an
/// application ERROR with the message of a failure.
pub open spec fn item_frames_of(
    mtu: Option<nat>,
    sid: u32,
    flag: u16,
    item: Result<PayloadView, Seq<char>>,
) -> Seq<FrameView> {
    match item {
        Ok(p) => planned_frames(mtu, SendKind::Payload, sid, flag, p),
        Err(m) => seq![error_frame_of(sid, ERR_APPLICATION, m)],
    }
}

/// The view of one item of a stream.
pub open spec fn item_view(item: &Result<Payload, String>) -> Result<PayloadView, Seq<char>> {
    match item {
        Ok(p) => Ok(p@),
        Err(m) => Err(m@),
    }
}

/// Builds the frames that send one item of a stream on stream `sid`.
pub fn item_frames(
    splitter: &Option<Splitter>,
    sid: u32,
    flag: u16,
    item: Result<Payload, String>,
) -> (r: Vec<Frame>)
    requires
        splitter matches Some(sp) ==> sp@ > LEN_HEADER,
    ensures
        frame_views(r@) == item_frames_of(mtu_of(*splitter), sid, flag, item_view(&item)),
{
    let ghost view = item_view(&item);
    match item {
        Ok(p) => fragments(splitter, SendKind::Payload, sid, flag, p),
        Err(m) => {
            let v = vec![application_error_frame(sid, m.as_str())];
            assert(frame_views(v@) =~= item_frames_of(mtu_of(*splitter), sid, flag, view));
            v
        },
    }
}

/// The frame that a channel's responder sends for one item of its answer:
/// the item flagged NEXT, or an application ERROR with the message of a
/// failure.
pub open spec fn channel_item_frame_of(sid: u32, item: Result<PayloadView, Seq<char>>) -> FrameView {
    match item {
        Ok(p) => FrameView {
            stream_id: sid,
            body: BodyView::Payload(p),
            flag: if p.metadata is Some {
                FLAG_NEXT | METADATA_BIT
            } else {
                FLAG_NEXT
            },
        },
        Err(m) => error_frame_of(sid, ERR_APPLICATION, m),
    }
}

/// Builds the frame that a channel's responder sends for one item of its
/// answer.
pub fn channel_item_frame(sid: u32, item: Result<Payload, String>) -> (f: Frame)
    ensures
        f@ == channel_item_frame_of(sid, item_view(&item)),
{
    match item {
        Ok(payload) => channel_next_frame(sid, payload),
        Err(m) => application_error_frame(sid, m.as_str()),
    }
}

} // verus!
