use bytes::{Bytes, BytesMut};
use rsocket_rust::error::RSocketError;
use rsocket_rust::frame::{
    self, Body, Cancel, Frame, Keepalive, Lease, MetadataPush, RequestN, RequestResponse,
    RequestStream, Resume, ResumeOK, Setup, Version,
};
use rsocket_rust::utils::{u24, Writeable, DEFAULT_MIME_TYPE};

fn roundtrip(f: &Frame) -> Frame {
    let bytes = f.bytes();
    assert_eq!(f.len(), bytes.len());
    let mut bf = BytesMut::from(&bytes[..]);
    let back = Frame::decode(&mut bf).unwrap();
    assert_eq!(back.bytes(), bytes);
    back
}

#[test]
fn request_response_bytes() {
    let f = RequestResponse::builder(5, 0)
        .set_all((Some(Bytes::from_static(b"d")), Some(Bytes::from_static(b"m"))))
        .build();
    assert_eq!(f.bytes(), vec![0, 0, 0, 5, 0x11, 0x00, 0, 0, 1, b'm', b'd']);
    let back = roundtrip(&f);
    assert_eq!(back.get_stream_id(), 5);
    assert_eq!(back.get_flag(), Frame::FLAG_METADATA);
    match back.get_body_ref() {
        Body::RequestResponse(rr) => {
            assert_eq!(rr.get_metadata().map(|b| b.to_vec()), Some(b"m".to_vec()));
            assert_eq!(rr.get_data().map(|b| b.to_vec()), Some(b"d".to_vec()));
        }
        other => panic!("unexpected {:?}", other),
    }
}

#[test]
fn default_setup_frame() {
    let f = Setup::builder(0, 0).build();
    let back = roundtrip(&f);
    assert_eq!(f.len(), 6 + 4 + 4 + 4 + 1 + 18 + 1 + 18);
    match back.get_body() {
        Body::Setup(s) => {
            assert_eq!(s.get_version().get_major(), 1);
            assert_eq!(s.get_version().get_minor(), 0);
            assert_eq!(s.get_keepalive(), 30_000);
            assert_eq!(s.get_lifetime(), 90_000);
            assert_eq!(s.get_mime_data(), Some(DEFAULT_MIME_TYPE));
            assert_eq!(s.get_mime_metadata(), Some(DEFAULT_MIME_TYPE));
            assert!(s.get_token().is_none());
        }
        other => panic!("unexpected {:?}", other),
    }
}

#[test]
fn setup_frame_with_token_and_payload() {
    let f = Setup::builder(0, 0)
        .set_token(Bytes::from_static(b"tok"))
        .set_keepalive(1_000)
        .set_lifetime(5_000)
        .set_mime_data("text/plain")
        .set_metadata(Bytes::from_static(b"meta"))
        .set_data(Bytes::from_static(b"data"))
        .build();
    assert_eq!(f.get_flag(), Frame::FLAG_RESUME | Frame::FLAG_METADATA);
    match roundtrip(&f).get_body() {
        Body::Setup(s) => {
            assert_eq!(s.get_token().map(|b| b.to_vec()), Some(b"tok".to_vec()));
            assert_eq!(s.get_keepalive(), 1_000);
            assert_eq!(s.get_lifetime(), 5_000);
            assert_eq!(s.get_mime_data(), Some("text/plain"));
            let (d, m) = s.split();
            assert_eq!(d.unwrap().to_vec(), b"data".to_vec());
            assert_eq!(m.unwrap().to_vec(), b"meta".to_vec());
        }
        other => panic!("unexpected {:?}", other),
    }
}

#[test]
fn small_frames_roundtrip() {
    let f = RequestN::builder(7, 0).set_n(42).build();
    match roundtrip(&f).get_body() {
        Body::RequestN(n) => assert_eq!(n.get_n(), 42),
        other => panic!("unexpected {:?}", other),
    }
    let f = Cancel::builder(9, Frame::FLAG_COMPLETE).build();
    let back = roundtrip(&f);
    assert_eq!(back.get_stream_id(), 9);
    assert!(matches!(back.get_body_ref(), Body::Cancel()));
    let f = Keepalive::builder(0, Frame::FLAG_RESPOND)
        .set_last_received_position(77)
        .set_data(Bytes::from_static(b"ping"))
        .build();
    match roundtrip(&f).get_body() {
        Body::Keepalive(k) => {
            assert_eq!(k.get_last_received_position(), 77);
            assert_eq!(k.get_data().map(|b| b.to_vec()), Some(b"ping".to_vec()));
        }
        other => panic!("unexpected {:?}", other),
    }
    let f = Lease::builder(0, 0).set_ttl(10).set_number_of_requests(3).build();
    match roundtrip(&f).get_body() {
        Body::Lease(l) => {
            assert_eq!(l.get_ttl(), 10);
            assert_eq!(l.get_number_of_requests(), 3);
        }
        other => panic!("unexpected {:?}", other),
    }
    let f = MetadataPush::builder(0, 0).set_metadata(Bytes::from_static(b"mp")).build();
    match roundtrip(&f).get_body() {
        Body::MetadataPush(m) => assert_eq!(m.get_metadata().map(|b| b.to_vec()), Some(b"mp".to_vec())),
        other => panic!("unexpected {:?}", other),
    }
    let f = ResumeOK::builder(0, 0).set_last_received_client_position(123).build();
    match roundtrip(&f).get_body() {
        Body::ResumeOK(r) => assert_eq!(r.get_last_received_client_position(), 123),
        other => panic!("unexpected {:?}", other),
    }
    let f = Resume::builder(0, 0)
        .set_token(Bytes::from_static(b"t"))
        .set_last_received_server_position(1)
        .set_first_available_client_position(2)
        .build();
    match roundtrip(&f).get_body() {
        Body::Resume(r) => {
            assert_eq!(r.get_last_received_server_position(), 1);
            assert_eq!(r.get_first_available_client_position(), 2);
            assert_eq!(r.get_token().as_ref().map(|b| b.to_vec()), Some(b"t".to_vec()));
        }
        other => panic!("unexpected {:?}", other),
    }
}

#[test]
fn request_stream_keeps_initial_request_n() {
    let f = RequestStream::builder(3, 0)
        .set_initial_request_n(16)
        .set_data(Bytes::from_static(b"q"))
        .build();
    match roundtrip(&f).get_body() {
        Body::RequestStream(r) => {
            assert_eq!(r.get_initial_request_n(), 16);
            assert_eq!(r.get_data().map(|b| b.to_vec()), Some(b"q".to_vec()));
            assert!(r.get_metadata().is_none());
        }
        other => panic!("unexpected {:?}", other),
    }
}

#[test]
fn error_frame_text() {
    let f = frame::Error::builder(1, 0)
        .set_code(0x0201)
        .set_data(Bytes::from_static(b"boom"))
        .build();
    match roundtrip(&f).get_body() {
        Body::Error(e) => {
            assert_eq!(e.get_code(), 0x0201);
            assert_eq!(e.get_data_utf8(), Some("boom"));
        }
        other => panic!("unexpected {:?}", other),
    }
}

#[test]
fn data_takes_the_rest_of_the_frame() {
    let f = frame::Payload::builder(2, 0).set_data(Bytes::from_static(b"ab")).build();
    let mut bf = BytesMut::from(&f.bytes()[..]);
    bf.extend_from_slice(b"cd");
    match Frame::decode(&mut bf).unwrap().get_body() {
        Body::Payload(p) => assert_eq!(p.get_data().map(|b| b.to_vec()), Some(b"abcd".to_vec())),
        other => panic!("unexpected {:?}", other),
    }
    assert!(bf.is_empty());
}

#[test]
fn short_frame_is_incomplete() {
    let mut bf = BytesMut::from(&[0u8, 0, 0][..]);
    assert!(matches!(Frame::decode(&mut bf), Err(RSocketError::InCompleteFrame)));
    let mut bf = BytesMut::from(&[0u8, 0, 0, 1, 0x20, 0, 0, 0][..]);
    assert!(matches!(Frame::decode(&mut bf), Err(RSocketError::InCompleteFrame)));
}

#[test]
fn followable_kinds() {
    let f = frame::Payload::builder(1, Frame::FLAG_NEXT).build();
    assert_eq!(f.is_followable_or_payload(), (true, true));
    assert!(f.has_next());
    assert!(!f.has_complete());
    let f = RequestN::builder(1, 0).build();
    assert_eq!(f.is_followable_or_payload(), (false, false));
    let f = RequestStream::builder(1, 0).build();
    assert_eq!(f.is_followable_or_payload(), (true, false));
}

#[test]
fn u24_values() {
    assert_eq!(u24::parse(&[1, 2, 3]).as_u32(), 0x010203);
    assert_eq!(u24::from_usize(0xFF_FFFF).as_usize(), 0xFF_FFFF);
    let mut bf = BytesMut::new();
    u24::from_u32(0x0A0B0C).write_to(&mut bf);
    assert_eq!(&bf[..], &[0x0A, 0x0B, 0x0C]);
    let mut bf = BytesMut::from(&[9u8, 8, 7, 6][..]);
    assert_eq!(u24::read(&mut bf).as_u32(), 0x090807);
    assert_eq!(bf.len(), 4);
    assert_eq!(u24::read_advance(&mut bf).as_u32(), 0x090807);
    assert_eq!(&bf[..], &[6]);
    assert_eq!(Version::new(2, 3).get_major(), 2);
}
