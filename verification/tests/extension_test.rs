use bytes::BytesMut;
use rsocket_rust::error::RSocketError;
use rsocket_rust::extension::composite::entries_readable;
use rsocket_rust::extension::mime::list_all;
use rsocket_rust::extension::routing::tags_readable;
use rsocket_rust::extension::{CompositeMetadata, MimeType, RoutingMetadata};
use rsocket_rust::utils::Writeable;

#[test]
fn test_routing() {
    let t = RoutingMetadata::builder()
        .push_str("a")
        .push_str("b")
        .push_str("c")
        .build();
    let tags = t.get_tags();
    println!("{:?}", tags);
    assert_eq!("a,b,c", t.get_tags().join(","))
}

#[test]
fn test_composite() {
    let c = CompositeMetadata::builder()
        .push(MimeType::from("application/json"), "123".as_bytes())
        .push(MimeType::from("text/plain"), "ccc".as_bytes())
        .build();
    let vv: Vec<_> = c
        .iter()
        .iter()
        .map(|it| {
            format!(
                "{}={}",
                it.get_mime_type().to_string(),
                it.get_metadata_utf8().unwrap_or_default()
            )
        })
        .collect();
    assert_eq!(vv.join(","), "application/json=123,text/plain=ccc");
}

#[test]
fn mime_lookup_by_name_and_identifier() {
    assert_eq!(MimeType::from("application/json"), MimeType::WellKnown(0x05));
    assert_eq!(MimeType::from("text/plain"), MimeType::WellKnown(0x21));
    assert_eq!(MimeType::from("application/avro"), MimeType::WellKnown(0x00));
    assert_eq!(MimeType::from("application/cbor"), MimeType::WellKnown(0x01));
    assert_eq!(
        MimeType::from("application/x-custom"),
        MimeType::Normal("application/x-custom".to_string())
    );
    assert_eq!(MimeType::parse(0x7F), Some(MimeType::WellKnown(0x7F)));
    assert_eq!(MimeType::parse(0x29), None);
    assert_eq!(MimeType::WellKnown(0x1B).as_str(), Some("image/png"));
    assert_eq!(MimeType::WellKnown(0x60).as_str(), None);
    assert_eq!(MimeType::WellKnown(0x0A).as_u8(), Some(0x0A));
    assert_eq!(MimeType::Normal("x/y".to_string()).as_u8(), None);
    assert_eq!(MimeType::Normal("x/y".to_string()).as_str(), Some("x/y"));
}

#[test]
fn mime_text_of_unknown_identifier() {
    assert_eq!(MimeType::WellKnown(0x60).into_string(), "UNKNOWN");
    assert_eq!(MimeType::WellKnown(0x7E).into_string(), "message/x.rsocket.routing.v0");
    assert_eq!(MimeType::Normal("a/b".to_string()).to_string(), "a/b");
}

#[test]
fn mime_list_has_every_entry_in_order() {
    let all = list_all();
    assert_eq!(all.len(), 47);
    assert_eq!(all[0], (0x00, "application/avro"));
    assert_eq!(all[1], (0x01, "application/cbor"));
    assert_eq!(all[5], (0x05, "application/json"));
    for (i, (n, _)) in all.iter().enumerate() {
        let expected = if i < 41 { i } else { i + 81 };
        assert_eq!(*n as usize, expected);
    }
    for i in 0..all.len() {
        for j in (i + 1)..all.len() {
            assert_ne!(all[i].1, all[j].1);
        }
    }
    assert_eq!(all[46], (0x7F, "message/x.rsocket.composite-metadata.v0"));
    for (n, s) in all {
        assert_eq!(MimeType::parse(n).unwrap().as_str(), Some(s));
    }
}

#[test]
fn routing_encodes_and_reads_back() {
    let t = RoutingMetadata::builder().push_str("ab").push_str("").push_str("héllo").build();
    let bytes = t.bytes();
    assert_eq!(bytes, vec![2, b'a', b'b', 0, 6, b'h', 0xC3, 0xA9, b'l', b'l', b'o']);
    assert_eq!(t.len(), bytes.len());
    let mut bf = BytesMut::from(&bytes[..]);
    let back = RoutingMetadata::decode(&mut bf).unwrap();
    assert_eq!(back.get_tags(), &vec!["ab".to_string(), "".to_string(), "héllo".to_string()]);
    assert!(bf.is_empty());
}

#[test]
fn routing_reports_a_cut_tag() {
    let mut bf = BytesMut::from(&[1u8, b'x', 5, b'a', b'b'][..]);
    match RoutingMetadata::decode(&mut bf) {
        Err(RSocketError::WithDescription(s)) => assert_eq!(s, "require more bytes!"),
        other => panic!("unexpected {:?}", other),
    }
    assert_eq!(&bf[..], b"ab");
}

#[test]
fn composite_encodes_and_reads_back() {
    let c = CompositeMetadata::builder()
        .push(MimeType::from("application/json"), b"{}")
        .push(MimeType::from("x/y"), b"abc")
        .build();
    let bytes = c.bytes();
    assert_eq!(
        bytes,
        vec![0x85, 0, 0, 2, b'{', b'}', 2, b'x', b'/', b'y', 0, 0, 3, b'a', b'b', b'c']
    );
    assert_eq!(c.len(), bytes.len());
    let mut bf = BytesMut::from(&bytes[..]);
    let back = CompositeMetadata::decode(&mut bf).unwrap();
    assert_eq!(back, c);
    assert!(bf.is_empty());
    assert_eq!(c.clone().into_vec(), bytes);
}

fn decode_error(input: &[u8]) -> (String, Vec<u8>) {
    let mut bf = BytesMut::from(input);
    match CompositeMetadata::decode(&mut bf) {
        Err(RSocketError::WithDescription(s)) => (s, bf.to_vec()),
        other => panic!("unexpected {:?}", other),
    }
}

#[test]
fn composite_reports_each_broken_entry() {
    assert_eq!(
        decode_error(&[0xAA, 0, 0, 0]),
        ("invalid Well-Known MIME type: identifier=2a".to_string(), vec![0, 0, 0])
    );
    assert_eq!(
        decode_error(&[3, b'a', b'b']),
        ("broken composite metadata: empty MIME type!".to_string(), vec![b'a', b'b'])
    );
    assert_eq!(
        decode_error(&[0x85, 0, 1]),
        ("broken composite metadata: not enough bytes!".to_string(), vec![0, 1])
    );
    assert_eq!(
        decode_error(&[0x85, 0, 0x01, 0x2C, b'z']),
        ("broken composite metadata: require 300 bytes!".to_string(), vec![b'z'])
    );
}

#[test]
fn composite_entry_metadata_text() {
    let c = CompositeMetadata::builder()
        .push(MimeType::WellKnown(0x21), &[0xFF, 0xFE])
        .build();
    let e = &c.iter()[0];
    assert_eq!(e.get_metadata_utf8(), None);
    assert_eq!(&e.get_metadata()[..], &[0xFF, 0xFE]);
    assert_eq!(e.get_mime_type(), &MimeType::WellKnown(0x21));
}

#[test]
fn mime_names_lead_back_to_their_identifiers() {
    for (n, s) in list_all() {
        assert_eq!(MimeType::from(s), MimeType::WellKnown(n));
        assert_eq!(MimeType::WellKnown(n).to_string(), s);
    }
}

#[test]
fn mime_text_leads_back_to_itself() {
    for s in ["application/avro", "application/json", "x/unknown", "text/xml"] {
        assert_eq!(MimeType::from(s).as_str(), Some(s));
        assert_eq!(MimeType::from(s).into_string(), s);
    }
}

#[test]
fn test_wellknown() {
    let got = MimeType::from("application/json");
    assert_eq!(MimeType::WellKnown(0x05), got);
    for (n, _) in list_all() {
        let m = MimeType::WellKnown(n);
        let mut result = MimeType::from(m.as_str().unwrap());
        assert_eq!(m, result);
        result = MimeType::from(m.to_string().as_str());
        assert_eq!(m, result);
    }
}

#[test]
fn readable_buffers() {
    assert!(tags_readable(&BytesMut::from(&[1u8, b'a', 2, b'b', b'c'][..])));
    assert!(!tags_readable(&BytesMut::from(&[1u8, b'a', 1, 0xFF][..])));
    assert!(tags_readable(&BytesMut::from(&[1u8, b'a', 9, 0xFF][..])));
    assert!(entries_readable(&BytesMut::from(&[2u8, b'x', b'/', b'y', 0, 0, 0][..])));
    assert!(!entries_readable(&BytesMut::from(&[0x85u8, 0, 0, 0, 1, 0xFF, 0, 0, 0][..])));
    assert!(entries_readable(&BytesMut::from(&[0x85u8, 0, 0, 9][..])));
}
