use bytes::{Bytes, BytesMut};
use rsocket_rust::transport::codec::{decode, encode, first_frame_ok, frame_defined};
use rsocket_rust::error::RSocketError;
use rsocket_rust::frame::{self, Body, Frame};
use rsocket_rust::transport::duplex::{
    cancel_frame, cancelled_error, channel_item_frame, channel_next_frame, complete_frame, error_of, item_frames, on_cancel,
    keepalive_answer, on_payload, reject_setup_frame, request_n_frame, response_frames, route,
    setup_frame, Delivery, HandlerKind, PayloadStep, Route,
};
use rsocket_rust::transport::fragmentation::{Joiner, Splitter};
use rsocket_rust::transport::misc::{Counter, StreamID};
use rsocket_rust::transport::socket::{fragments, join_frame, SendKind};
use rsocket_rust::utils::Writeable;
use rsocket_rust::{Payload, SetupPayload};

#[test]
fn test_joiner() {
    let first = frame::Payload::builder(1, Frame::FLAG_FOLLOW)
        .set_data(Bytes::from("(ROOT)"))
        .set_metadata(Bytes::from("(ROOT)"))
        .build();
    let mut joiner = Joiner::new();
    joiner.push(first);

    for i in 0..10 {
        let flag = if i == 9 { 0u16 } else { Frame::FLAG_FOLLOW };
        let next = frame::Payload::builder(1, flag)
            .set_data(Bytes::from(format!("(data{:04})", i)))
            .set_metadata(Bytes::from(format!("(data{:04})", i)))
            .build();
        joiner.push(next);
    }
    let pa: Payload = joiner.into_payload();
    println!("payload: {:?}", pa);
}

#[test]
fn test_splitter() {
    let input = Payload::builder()
        .set_data_utf8("helloworld")
        .set_metadata_utf8("foobar")
        .build();
    let mut sp = Splitter::new(13);
    for (i, it) in sp.cut(input.clone(), 0).iter().enumerate() {
        println!("{}: {:?}", i, it);
    }
    println!("MODE 100");
    sp = Splitter::new(100);
    for (i, it) in sp.cut(input.clone(), 0).iter().enumerate() {
        println!("{}: {:?}", i, it);
    }
}

fn text(b: Option<&Bytes>) -> Option<String> {
    b.map(|x| String::from_utf8(x.to_vec()).unwrap())
}

#[test]
fn joiner_joins_all_parts() {
    let mut joiner = Joiner::new();
    joiner.push(
        frame::Payload::builder(1, Frame::FLAG_FOLLOW | Frame::FLAG_NEXT)
            .set_data(Bytes::from("ab"))
            .set_metadata(Bytes::from("x"))
            .build(),
    );
    joiner.push(frame::Payload::builder(1, 0).set_data(Bytes::from("cd")).build());
    assert_eq!(joiner.get_stream_id(), 1);
    assert_eq!(joiner.get_flag(), Frame::FLAG_NEXT | Frame::FLAG_METADATA);
    let pa = joiner.into_payload();
    assert_eq!(pa.data_utf8(), Some("abcd"));
    assert_eq!(pa.metadata_utf8(), Some("x"));
}

#[test]
fn splitter_cuts_into_frame_sized_pieces() {
    let input = Payload::builder()
        .set_data_utf8("helloworld")
        .set_metadata_utf8("foobar")
        .build();
    let pieces = Splitter::new(13).cut(input.clone(), 0);
    let got: Vec<(Option<String>, Option<String>)> = pieces
        .iter()
        .map(|p| (text(p.metadata()), text(p.data())))
        .collect();
    assert_eq!(
        got,
        vec![
            (Some("foobar".to_string()), Some("h".to_string())),
            (None, Some("ellowor".to_string())),
            (None, Some("ld".to_string())),
        ]
    );
    let whole = Splitter::new(100).cut(input, 0);
    assert_eq!(whole.len(), 1);
    assert_eq!(whole[0].data_utf8(), Some("helloworld"));
    assert_eq!(whole[0].metadata_utf8(), Some("foobar"));
    let none = Splitter::new(100).cut(Payload::builder().build(), 0);
    assert!(none.is_empty());
}

#[test]
fn fragments_rejoin_into_the_request() {
    let input = Payload::from_strs("0123456789abcdefghij", "meta-meta-meta");
    let sp = Some(Splitter::new(16));
    let frames = fragments(&sp, SendKind::RequestStream, 7, 0, input);
    assert!(frames.len() > 2);
    assert_eq!(frames[0].get_flag() & Frame::FLAG_FOLLOW, Frame::FLAG_FOLLOW);
    assert!(matches!(frames[0].get_body_ref(), Body::RequestStream(_)));
    assert!(matches!(frames[1].get_body_ref(), Body::Payload(_)));
    assert_eq!(frames.last().unwrap().get_flag() & Frame::FLAG_FOLLOW, 0);
    let mut pending: Option<Joiner> = None;
    let mut out = Vec::new();
    for f in frames {
        let (ready, held) = join_frame(pending, f);
        pending = held;
        if let Some(x) = ready {
            out.push(x);
        }
    }
    assert!(pending.is_none());
    assert_eq!(out.len(), 1);
    assert_eq!(out[0].get_stream_id(), 7);
    match out[0].get_body_ref() {
        Body::RequestStream(r) => {
            assert_eq!(text(r.get_data()), Some("0123456789abcdefghij".to_string()));
            assert_eq!(text(r.get_metadata()), Some("meta-meta-meta".to_string()));
        }
        other => panic!("unexpected {:?}", other),
    }
}

#[test]
fn fragments_without_splitter_is_one_frame() {
    let frames = fragments(&None, SendKind::RequestFNF, 3, 0, Payload::from_str("x"));
    assert_eq!(frames.len(), 1);
    assert!(matches!(frames[0].get_body_ref(), Body::RequestFNF(_)));
    assert_eq!(frames[0].get_flag(), 0);
}

#[test]
fn frames_that_cannot_be_fragments_pass() {
    let f = frame::RequestN::builder(1, Frame::FLAG_FOLLOW).build();
    let (ready, held) = join_frame(None, f);
    assert!(ready.is_some());
    assert!(held.is_none());
}

#[test]
fn stream_ids_go_two_at_a_time() {
    let mut s = StreamID::new(1);
    assert_eq!(s.next(), 1);
    assert_eq!(s.next(), 3);
    assert_eq!(s.next(), 5);
    let mut w = StreamID::new(u32::MAX);
    assert_eq!(w.next(), u32::MAX);
    assert_eq!(w.next(), 1);
}

#[test]
fn counter_counts_down() {
    let mut c = Counter::new(2);
    assert_eq!(c.count_down(), 1);
    assert_eq!(c.count_down(), 0);
    assert_eq!(c.count_down(), -1);
    let mut m = Counter::new(i64::MIN);
    assert_eq!(m.count_down(), i64::MAX);
}

#[test]
fn frames_are_routed_by_kind() {
    assert_eq!(route(&frame::Setup::builder(0, 0).build()), Route::Setup);
    assert_eq!(route(&frame::Payload::builder(1, 0).build()), Route::Payload);
    assert_eq!(route(&frame::Cancel::builder(1, 0).build()), Route::Cancel);
    assert_eq!(route(&frame::Keepalive::builder(0, Frame::FLAG_RESPOND).build()), Route::Keepalive);
    assert_eq!(route(&frame::Keepalive::builder(0, 0).build()), Route::Ignore);
    assert_eq!(route(&frame::RequestN::builder(1, 0).build()), Route::Ignore);
    assert_eq!(route(&frame::RequestFNF::builder(1, 0).build()), Route::FireAndForget);
}

#[test]
fn payloads_go_to_the_waiting_request() {
    assert_eq!(
        on_payload(Some(HandlerKind::RequestResponse), Frame::FLAG_NEXT | Frame::FLAG_COMPLETE),
        PayloadStep { deliver: Delivery::Value, remove: true }
    );
    assert_eq!(
        on_payload(Some(HandlerKind::RequestResponse), Frame::FLAG_COMPLETE),
        PayloadStep { deliver: Delivery::Empty, remove: true }
    );
    assert_eq!(
        on_payload(Some(HandlerKind::RequestStream), Frame::FLAG_NEXT),
        PayloadStep { deliver: Delivery::Value, remove: false }
    );
    assert_eq!(
        on_payload(Some(HandlerKind::RequestChannel), Frame::FLAG_COMPLETE),
        PayloadStep { deliver: Delivery::Nothing, remove: true }
    );
    assert_eq!(
        on_payload(None, Frame::FLAG_NEXT),
        PayloadStep { deliver: Delivery::Nothing, remove: false }
    );
}

#[test]
fn errors_of_error_frames() {
    let f = frame::Error::builder(1, 0).set_code(0x0201).set_data(Bytes::from("bad")).build();
    match f.get_body() {
        Body::Error(e) => match error_of(&e) {
            RSocketError::ApplicationException(s) => assert_eq!(s, "bad"),
            other => panic!("unexpected {:?}", other),
        },
        _ => unreachable!(),
    }
    let f = frame::Error::builder(1, 0).set_code(0x0999).build();
    match f.get_body() {
        Body::Error(e) => match error_of(&e) {
            RSocketError::Reserved(c, s) => {
                assert_eq!(c, 0x0999);
                assert_eq!(s, "");
            }
            other => panic!("unexpected {:?}", other),
        },
        _ => unreachable!(),
    }
    match cancelled_error() {
        RSocketError::RequestCancelled(s) => assert_eq!(s, "request has been cancelled"),
        other => panic!("unexpected {:?}", other),
    }
}

#[test]
fn answers_and_notices() {
    let ka = frame::Keepalive::builder(0, Frame::FLAG_RESPOND)
        .set_last_received_position(5)
        .set_data(Bytes::from("hi"))
        .build();
    let answer = match ka.get_body() {
        Body::Keepalive(k) => keepalive_answer(k),
        _ => unreachable!(),
    };
    assert_eq!(answer.get_flag(), 0);
    match answer.get_body() {
        Body::Keepalive(k) => {
            assert_eq!(k.get_last_received_position(), 0);
            assert_eq!(text(k.get_data()), Some("hi".to_string()));
        }
        _ => unreachable!(),
    }
    let c = cancel_frame(9);
    assert_eq!(c.get_flag(), Frame::FLAG_COMPLETE);
    assert_eq!(c.get_stream_id(), 9);
    let done = complete_frame(4, Frame::FLAG_COMPLETE);
    assert!(done.has_complete());
    assert_eq!(done.bytes(), vec![0, 0, 0, 4, 0x28, 0x40]);
    match request_n_frame(2).get_body() {
        Body::RequestN(n) => assert_eq!(n.get_n(), 0x7FFF_FFFF),
        _ => unreachable!(),
    }
    let r = reject_setup_frame("no");
    match r.get_body() {
        Body::Error(e) => {
            assert_eq!(e.get_code(), 0x0003);
            assert_eq!(e.get_data_utf8(), Some("no"));
        }
        _ => unreachable!(),
    }
    let n = channel_next_frame(6, Payload::from_strs("d", "m"));
    assert_eq!(n.get_flag(), Frame::FLAG_NEXT | Frame::FLAG_METADATA);
}

#[test]
fn responses_by_outcome() {
    let ok = response_frames(&None, 3, Ok(Some(Payload::from_str("r"))));
    assert_eq!(ok.len(), 1);
    assert_eq!(ok[0].get_flag(), Frame::FLAG_NEXT | Frame::FLAG_COMPLETE);
    let empty = response_frames(&None, 3, Ok(None));
    assert_eq!(empty[0].get_flag(), Frame::FLAG_COMPLETE);
    let failed = response_frames(&None, 3, Err("oops".to_string()));
    match failed[0].get_body_ref() {
        Body::Error(e) => {
            assert_eq!(e.get_code(), 0x0201);
            assert_eq!(e.get_data_utf8(), Some("oops"));
        }
        other => panic!("unexpected {:?}", other),
    }
    let item = item_frames(&None, 3, Frame::FLAG_NEXT, Ok(Payload::from_str("i")));
    assert_eq!(item[0].get_flag(), Frame::FLAG_NEXT);
}

#[test]
fn setup_frame_from_payload() {
    let p = SetupPayload::builder()
        .set_data_utf8("d")
        .set_metadata_utf8("m")
        .set_keepalive(1_000, 2_000, 3)
        .set_data_mime_type("text/plain")
        .build();
    let f = setup_frame(p);
    assert_eq!(f.get_stream_id(), 0);
    assert_eq!(f.get_flag(), Frame::FLAG_METADATA);
    match f.get_body() {
        Body::Setup(s) => {
            assert_eq!(s.get_keepalive(), 1_000);
            assert_eq!(s.get_lifetime(), 6_000);
            assert_eq!(s.get_mime_data(), Some("text/plain"));
            assert_eq!(s.get_mime_metadata(), Some("application/binary"));
        }
        _ => unreachable!(),
    }
}

#[test]
fn length_prefixed_frames() {
    let f = frame::RequestN::builder(5, 0).set_n(8).build();
    let g = cancel_frame(5);
    let mut buf = BytesMut::new();
    encode(&f, &mut buf);
    encode(&g, &mut buf);
    assert_eq!(&buf[..13], &[0, 0, 10, 0, 0, 0, 5, 0x20, 0x00, 0, 0, 0, 8]);
    let mut part = BytesMut::from(&buf[..5]);
    assert!(decode(&mut part).unwrap().is_none());
    assert_eq!(part.len(), 5);
    let first = decode(&mut buf).unwrap().unwrap();
    match first.get_body_ref() {
        Body::RequestN(n) => assert_eq!(n.get_n(), 8),
        other => panic!("unexpected {:?}", other),
    }
    let second = decode(&mut buf).unwrap().unwrap();
    assert!(matches!(second.get_body_ref(), Body::Cancel()));
    assert!(buf.is_empty());
    assert!(decode(&mut buf).unwrap().is_none());
    let mut short = BytesMut::from(&[0u8, 0, 2, 0, 0][..]);
    assert!(matches!(decode(&mut short), Err(RSocketError::InCompleteFrame)));
}

#[test]
fn frames_that_decoding_accepts() {
    // an unknown type
    assert!(!frame_defined(&[0, 0, 0, 1, 0x3C, 0x00]));
    // a REQUEST_RESPONSE that announces 9 bytes of metadata but holds 1
    assert!(!frame_defined(&[0, 0, 0, 1, 0x11, 0x00, 0, 0, 9, b'm']));
    assert!(frame_defined(&[0, 0, 0, 1, 0x11, 0x00, 0, 0, 1, b'm']));
    // too short to tell
    assert!(frame_defined(&[0, 0, 0]));
    let setup = frame::Setup::builder(0, 0).set_metadata(Bytes::from("abc")).build();
    let mut bytes = setup.bytes();
    assert!(frame_defined(&bytes));
    let last = bytes.len() - 4;
    bytes[last] = 0xFF;
    assert!(!frame_defined(&bytes));
    let buf = BytesMut::from(&[0u8, 0, 6, 0, 0, 0, 1, 0x3C, 0x00][..]);
    assert!(!first_frame_ok(&buf));
    let buf = BytesMut::from(&[0u8, 0, 6, 0, 0, 0][..]);
    assert!(first_frame_ok(&buf));
}

#[test]
fn setup_payload_survives_its_frame() {
    let p = SetupPayload::builder()
        .set_data_utf8("hello")
        .set_keepalive(500, 100, 7)
        .set_metadata_mime_type("application/json")
        .build();
    let f = setup_frame(p);
    let back = match f.get_body() {
        Body::Setup(s) => SetupPayload::from_setup(s),
        _ => unreachable!(),
    };
    assert_eq!(back.keepalive_interval(), 500);
    assert_eq!(back.keepalive_lifetime(), 700);
    assert_eq!(back.metadata_mime_type(), Some("application/json"));
    assert_eq!(back.data_mime_type(), Some("application/binary"));
    assert_eq!(text(back.data()), Some("hello".to_string()));
    assert!(back.metadata().is_none());
}

#[test]
fn fragmented_response_reaches_the_requester() {
    let sp = Some(Splitter::new(64));
    let big = "x".repeat(300);
    let frames = response_frames(&sp, 9, Ok(Some(Payload::from_strs(&big, "meta"))));
    assert!(frames.len() > 1);
    let mut pending: Option<Joiner> = None;
    let mut out = Vec::new();
    for f in frames {
        let (ready, held) = join_frame(pending, f);
        pending = held;
        out.extend(ready);
    }
    assert!(pending.is_none());
    assert_eq!(out.len(), 1);
    assert_eq!(route(&out[0]), Route::Payload);
    let step = on_payload(Some(HandlerKind::RequestResponse), out[0].get_flag());
    assert_eq!(step, PayloadStep { deliver: Delivery::Value, remove: true });
    match out.remove(0).get_body() {
        Body::Payload(p) => {
            let pa = Payload::from_frame_payload(p);
            assert_eq!(pa.data_utf8(), Some(big.as_str()));
            assert_eq!(pa.metadata_utf8(), Some("meta"));
        }
        _ => unreachable!(),
    }
}

#[test]
fn channel_items_become_frames() {
    let ok = channel_item_frame(4, Ok(Payload::from_strs("d", "m")));
    assert_eq!(ok.get_flag(), Frame::FLAG_NEXT | Frame::FLAG_METADATA);
    assert!(matches!(ok.get_body_ref(), Body::Payload(_)));
    let failed = channel_item_frame(4, Err("bad".to_string()));
    match failed.get_body() {
        Body::Error(e) => {
            assert_eq!(e.get_code(), 0x0201);
            assert_eq!(e.get_data_utf8(), Some("bad"));
        }
        _ => unreachable!(),
    }
}

#[test]
fn splitter_fills_pieces_and_joiner_undoes_it() {
    let input = Payload::from_strs("0123456789abcdefghijklmnopqrstuvwxyz", "metametameta");
    let pieces = Splitter::new(16).cut(input, 0);
    let n = pieces.len();
    let mut seen_data = false;
    let mut joiner = Joiner::new();
    for (i, p) in pieces.into_iter().enumerate() {
        let size = p.metadata().map(|b| b.len()).unwrap_or(0) + p.data().map(|b| b.len()).unwrap_or(0);
        if i + 1 < n {
            assert_eq!(size, 10);
        } else {
            assert!(size <= 10);
        }
        if seen_data {
            assert!(p.metadata().is_none());
        }
        seen_data |= p.data().is_some();
        joiner.push(frame::Payload::builder(3, 0).set_all(p.split()).build());
    }
    let back = joiner.into_payload();
    assert_eq!(back.data_utf8(), Some("0123456789abcdefghijklmnopqrstuvwxyz"));
    assert_eq!(back.metadata_utf8(), Some("metametameta"));
}

#[test]
fn rejoined_channel_is_the_lone_frame() {
    let lone = fragments(&None, SendKind::RequestChannel, 5, Frame::FLAG_NEXT, Payload::from_strs("x".repeat(100).as_str(), "mm"));
    let frames = fragments(&Some(Splitter::new(20)), SendKind::RequestChannel, 5, Frame::FLAG_NEXT, Payload::from_strs("x".repeat(100).as_str(), "mm"));
    assert!(frames.len() > 2);
    let mut pending: Option<Joiner> = None;
    let mut out = Vec::new();
    for f in frames {
        let (ready, held) = join_frame(pending, f);
        pending = held;
        out.extend(ready);
    }
    assert!(pending.is_none());
    assert_eq!(out.len(), 1);
    assert_eq!(out[0].bytes(), lone[0].bytes());
}

#[test]
fn any_run_of_fragments_joins() {
    let mut pending: Option<Joiner> = None;
    let parts = [
        frame::RequestResponse::builder(8, Frame::FLAG_FOLLOW).set_data(Bytes::from("ab")).build(),
        frame::Payload::builder(8, Frame::FLAG_FOLLOW).set_metadata(Bytes::from("m")).build(),
        frame::Payload::builder(8, 0).set_data(Bytes::from("cd")).build(),
    ];
    let mut out = Vec::new();
    for f in parts {
        let (ready, held) = join_frame(pending, f);
        pending = held;
        out.extend(ready);
    }
    assert!(pending.is_none());
    assert_eq!(out.len(), 1);
    assert_eq!(out[0].get_flag(), Frame::FLAG_METADATA);
    match out.remove(0).get_body() {
        Body::RequestResponse(r) => {
            assert_eq!(text(r.get_data()), Some("abcd".to_string()));
            assert_eq!(text(r.get_metadata()), Some("m".to_string()));
        }
        other => panic!("unexpected {:?}", other),
    }
}

#[test]
fn cancel_tells_only_a_request_response() {
    match on_cancel(Some(HandlerKind::RequestResponse)) {
        Some(RSocketError::RequestCancelled(s)) => assert_eq!(s, "request has been cancelled"),
        other => panic!("unexpected {:?}", other),
    }
    assert!(on_cancel(Some(HandlerKind::RequestStream)).is_none());
    assert!(on_cancel(Some(HandlerKind::RequestChannel)).is_none());
    assert!(on_cancel(None).is_none());
}

#[test]
fn stream_ids_follow_the_sequence() {
    let v = 0xFFFF_FFF0u32;
    let mut s = StreamID::new(v);
    for k in 0u32..20 {
        assert_eq!(s.next(), v.wrapping_add(2 * k));
    }
}
