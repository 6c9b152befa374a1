use propolis_server::rfb::{
    ClientInit, Encoding, FramebufferUpdate, Message, PixelFormat, ProtoVersion, Rectangle,
    RfbError, SecurityResult, SecurityType, SecurityTypes, ServerInit, ServerMessageType,
};

fn bytes_of<M: Message>(m: &M) -> Vec<u8> {
    let mut out = Vec::new();
    m.write_to(&mut out);
    out
}

#[test]
fn proto_version_bytes_and_back() {
    let b = bytes_of(&ProtoVersion::Rfb38);
    assert_eq!(b, b"RFB 003.008\n".to_vec());
    let (v, n) = ProtoVersion::read_from(&b).unwrap();
    assert_eq!(v, ProtoVersion::Rfb38);
    assert_eq!(n, 12);
}

#[test]
fn other_proto_versions_are_refused() {
    assert_eq!(ProtoVersion::read_from(b"RFB 003.003\n").unwrap_err(), RfbError::UnexpectedProtoVersion);
    assert_eq!(ProtoVersion::read_from(b"RFB 003").unwrap_err(), RfbError::UnexpectedProtoVersion);
}

#[test]
fn security_type_bytes_and_back() {
    assert_eq!(bytes_of(&SecurityType::NoSecurity), vec![1]);
    assert_eq!(SecurityType::read_from(&[1]).unwrap(), (SecurityType::NoSecurity, 1));
    assert_eq!(SecurityType::read_from(&[2]).unwrap_err(), RfbError::UnexpectedSecurityType(2));
    assert_eq!(SecurityType::read_from(&[]).unwrap_err(), RfbError::Incomplete);
}

#[test]
fn security_types_bytes_and_back() {
    let types = SecurityTypes(vec![SecurityType::NoSecurity, SecurityType::NoSecurity]);
    let b = bytes_of(&types);
    assert_eq!(b, vec![2, 1, 1]);
    let (back, n) = SecurityTypes::read_from(&b).unwrap();
    assert_eq!(back.0, vec![SecurityType::NoSecurity, SecurityType::NoSecurity]);
    assert_eq!(n, 3);
    assert_eq!(SecurityTypes::read_from(&[2, 1]).unwrap_err(), RfbError::Incomplete);
    assert_eq!(SecurityTypes::read_from(&[3, 1, 5, 1]).unwrap_err(), RfbError::UnexpectedSecurityType(5));
    assert_eq!(SecurityTypes::read_from(&[]).unwrap_err(), RfbError::Incomplete);
    let (none, n) = SecurityTypes::read_from(&[0]).unwrap();
    assert!(none.0.is_empty());
    assert_eq!(n, 1);
}

#[test]
fn security_result_bytes() {
    assert_eq!(bytes_of(&SecurityResult::Success), vec![0, 0, 0, 0]);
    assert_eq!(bytes_of(&SecurityResult::Failed), vec![0, 0, 0, 1]);
}

#[test]
fn client_init_reads() {
    assert_eq!(ClientInit::read_from(&[0]).unwrap(), (ClientInit::Exclusive, 1));
    assert_eq!(ClientInit::read_from(&[1]).unwrap(), (ClientInit::Shared, 1));
    assert_eq!(ClientInit::read_from(&[7]).unwrap_err(), RfbError::InvalidClientInit(7));
    assert_eq!(ClientInit::read_from(&[]).unwrap_err(), RfbError::Incomplete);
}

#[test]
fn pixel_format_bytes() {
    assert_eq!(
        bytes_of(&PixelFormat::default()),
        vec![32, 24, 0, 1, 0, 255, 0, 255, 0, 255, 0, 8, 16, 0, 0, 0]
    );
}

#[test]
fn server_init_bytes() {
    let b = bytes_of(&ServerInit::default());
    let mut want = vec![4, 0, 2, 236];
    want.extend_from_slice(&[32, 24, 0, 1, 0, 255, 0, 255, 0, 255, 0, 8, 16, 0, 0, 0]);
    want.extend_from_slice(&[0, 0, 0, 19]);
    want.extend_from_slice(b"propolis-vnc-server");
    assert_eq!(b, want);
}

#[test]
fn rectangle_and_update_bytes() {
    let r = Rectangle::new(1, 2, 3, 4, Encoding::Raw, vec![9, 8]);
    assert_eq!(bytes_of(&r), vec![0, 1, 0, 2, 0, 3, 0, 4, 0, 0, 0, 0, 9, 8]);
    let u = FramebufferUpdate::new(vec![
        Rectangle::new(0, 0, 1, 1, Encoding::Raw, vec![1, 2, 3, 4]),
        Rectangle::new(0x102, 0, 1, 1, Encoding::Raw, vec![]),
    ]);
    assert_eq!(
        bytes_of(&u),
        vec![0, 0, 0, 2, 0, 0, 0, 0, 0, 1, 0, 1, 0, 0, 0, 0, 1, 2, 3, 4, 1, 2, 0, 0, 0, 1, 0, 1, 0, 0, 0, 0]
    );
}

#[test]
fn message_type_numbers() {
    assert_eq!(u8::from(ServerMessageType::FramebufferUpdate), 0);
    assert_eq!(u8::from(ServerMessageType::SetColorMapEntries), 1);
    assert_eq!(u8::from(ServerMessageType::Bell), 2);
    assert_eq!(u8::from(ServerMessageType::ServerCutText), 3);
    assert_eq!(i32::from(Encoding::Raw), 0);
}
