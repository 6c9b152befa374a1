use bytes::BytesMut;
use propolis_server::codec::{LiveMigrationFramer, Message, MessageType, ProtocolError};

fn roundtrip(m: Message) -> Message {
    let mut framer = LiveMigrationFramer::new();
    let mut buf = BytesMut::new();
    framer.encode(m, &mut buf);
    let out = framer.decode(&mut buf).unwrap().unwrap();
    assert!(buf.is_empty());
    out
}

#[test]
fn okay_frame_bytes() {
    let mut framer = LiveMigrationFramer::new();
    let mut buf = BytesMut::new();
    framer.encode(Message::Okay, &mut buf);
    assert_eq!(&buf[..], &[5, 0, 0, 0, 0]);
}

#[test]
fn mem_query_frame_bytes() {
    let mut framer = LiveMigrationFramer::new();
    let mut buf = BytesMut::new();
    framer.encode(Message::MemQuery(0x1000, 0x2000), &mut buf);
    let mut want = vec![21u8, 0, 0, 0, 5];
    want.extend_from_slice(&0x1000u64.to_le_bytes());
    want.extend_from_slice(&0x2000u64.to_le_bytes());
    assert_eq!(&buf[..], &want[..]);
}

#[test]
fn every_message_decodes_back() {
    assert!(matches!(roundtrip(Message::Okay), Message::Okay));
    assert!(matches!(roundtrip(Message::MemDone), Message::MemDone));
    match roundtrip(Message::Error("Phase".to_string())) {
        Message::Error(s) => assert_eq!(s, "Phase"),
        m => panic!("unexpected {:?}", m),
    }
    match roundtrip(Message::Serialized("(vcpus: [0, 1])".to_string())) {
        Message::Serialized(s) => assert_eq!(s, "(vcpus: [0, 1])"),
        m => panic!("unexpected {:?}", m),
    }
    match roundtrip(Message::Blob(vec![1, 2, 3])) {
        Message::Blob(b) => assert_eq!(b, vec![1, 2, 3]),
        m => panic!("unexpected {:?}", m),
    }
    match roundtrip(Message::Page(vec![7u8; 4096])) {
        Message::Page(p) => assert_eq!(p, vec![7u8; 4096]),
        m => panic!("unexpected {:?}", m),
    }
    match roundtrip(Message::MemQuery(0, u64::MAX)) {
        Message::MemQuery(s, e) => assert_eq!((s, e), (0, u64::MAX)),
        m => panic!("unexpected {:?}", m),
    }
    match roundtrip(Message::MemEnd(4096, 8192)) {
        Message::MemEnd(s, e) => assert_eq!((s, e), (4096, 8192)),
        m => panic!("unexpected {:?}", m),
    }
    match roundtrip(Message::MemOffer(0, 8 * 4096, vec![0b1010_0101])) {
        Message::MemOffer(s, e, b) => assert_eq!((s, e, b), (0, 8 * 4096, vec![0b1010_0101])),
        m => panic!("unexpected {:?}", m),
    }
    match roundtrip(Message::MemFetch(4096, 4096 * 9, vec![0xff])) {
        Message::MemFetch(s, e, b) => assert_eq!((s, e, b), (4096, 4096 * 9, vec![0xff])),
        m => panic!("unexpected {:?}", m),
    }
    match roundtrip(Message::MemXfer(0, 4096, vec![1])) {
        Message::MemXfer(s, e, b) => assert_eq!((s, e, b), (0, 4096, vec![1])),
        m => panic!("unexpected {:?}", m),
    }
}

#[test]
fn partial_frame_waits_and_keeps_bytes() {
    let mut framer = LiveMigrationFramer::new();
    let mut full = BytesMut::new();
    framer.encode(Message::Blob(vec![9, 9, 9]), &mut full);
    for k in 0..full.len() {
        let mut part = BytesMut::from(&full[..k]);
        assert!(framer.decode(&mut part).unwrap().is_none());
        assert_eq!(&part[..], &full[..k]);
    }
}

#[test]
fn two_frames_decode_in_order() {
    let mut framer = LiveMigrationFramer::new();
    let mut buf = BytesMut::new();
    framer.encode(Message::Blob(vec![1]), &mut buf);
    framer.encode(Message::Okay, &mut buf);
    assert!(matches!(framer.decode(&mut buf).unwrap(), Some(Message::Blob(b)) if b == vec![1]));
    assert!(matches!(framer.decode(&mut buf).unwrap(), Some(Message::Okay)));
    assert!(framer.decode(&mut buf).unwrap().is_none());
}

#[test]
fn invalid_tag_is_rejected() {
    let mut framer = LiveMigrationFramer::new();
    let mut buf = BytesMut::from(&[5u8, 0, 0, 0, 42][..]);
    assert_eq!(framer.decode(&mut buf).unwrap_err(), ProtocolError::InvalidMessageType(42));
    assert_eq!(buf.len(), 5);
}

#[test]
fn short_length_field_is_rejected() {
    let mut framer = LiveMigrationFramer::new();
    let mut buf = BytesMut::from(&[4u8, 0, 0, 0, 3][..]);
    assert_eq!(framer.decode(&mut buf).unwrap_err(), ProtocolError::UnexpectedMessageLen);
}

#[test]
fn page_of_wrong_size_is_rejected() {
    let mut framer = LiveMigrationFramer::new();
    let mut buf = BytesMut::from(&[8u8, 0, 0, 0, 4, 1, 2, 3][..]);
    assert_eq!(framer.decode(&mut buf).unwrap_err(), ProtocolError::UnexpectedMessageLen);
    assert_eq!(&buf[..], &[1, 2, 3]);
}

#[test]
fn short_range_is_rejected() {
    let mut framer = LiveMigrationFramer::new();
    let mut buf = BytesMut::from(&[9u8, 0, 0, 0, 5, 1, 2, 3, 4][..]);
    assert_eq!(framer.decode(&mut buf).unwrap_err(), ProtocolError::UnexpectedMessageLen);
}

#[test]
fn invalid_utf8_text_is_rejected() {
    let mut framer = LiveMigrationFramer::new();
    let mut buf = BytesMut::from(&[7u8, 0, 0, 0, 2, 0xff, 0xfe][..]);
    assert_eq!(framer.decode(&mut buf).unwrap_err(), ProtocolError::Utf8);
    assert_eq!(&buf[..], &[0xff, 0xfe]);
}

#[test]
fn query_with_trailing_data_consumes_the_whole_frame() {
    let mut framer = LiveMigrationFramer::new();
    let mut raw = vec![23u8, 0, 0, 0, 5];
    raw.extend_from_slice(&1u64.to_le_bytes());
    raw.extend_from_slice(&2u64.to_le_bytes());
    raw.extend_from_slice(&[0xaa, 0xbb, 0xcc]);
    let mut buf = BytesMut::from(&raw[..]);
    assert!(matches!(framer.decode(&mut buf).unwrap(), Some(Message::MemQuery(1, 2))));
    assert_eq!(&buf[..], &[0xcc]);
}

#[test]
fn tags_name_types_back() {
    for b in 0u8..=10 {
        let t = MessageType::try_from(b).unwrap();
        assert_eq!(t.tag(), b);
    }
    assert_eq!(MessageType::try_from(11), Err(11));
    assert_eq!(MessageType::of(&Message::MemDone), MessageType::MemDone);
    assert_eq!(MessageType::of(&Message::Page(vec![])).tag(), 4);
}

#[test]
fn long_mem_query_frame_is_consumed_whole() {
    let mut framer = LiveMigrationFramer::new();
    let mut buf = BytesMut::from(
        &[0x16u8, 0, 0, 0, 0x05, 1, 0, 0, 0, 0, 0, 0, 0, 2, 0, 0, 0, 0, 0, 0, 0, 0x99][..],
    );
    match framer.decode(&mut buf) {
        Ok(Some(Message::MemQuery(1, 2))) => {}
        other => panic!("unexpected {:?}", other),
    }
    assert!(buf.is_empty());
}
