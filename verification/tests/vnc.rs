use propolis_server::rfb::{Message, RfbError, ServerInit};
use propolis_server::vnc::{blank_update, guest_update, Framebuffer, HandshakeError, RamFb, VncHandshake, VncPhase};

#[test]
fn full_handshake() {
    let mut h = VncHandshake::new();
    assert_eq!(h.phase(), VncPhase::Start);
    assert_eq!(h.start(), b"RFB 003.008\n".to_vec());
    assert_eq!(h.input_len(), 12);
    let (out, n) = h.on_input(b"RFB 003.008\nextra").unwrap();
    assert_eq!((out, n), (vec![1, 1], 12));
    assert_eq!(h.input_len(), 1);
    assert_eq!(h.on_input(&[1]).unwrap(), (vec![0, 0, 0, 0], 1));
    assert_eq!(h.phase(), VncPhase::AwaitClientInit);
    let (out, n) = h.on_input(&[1]).unwrap();
    let mut init = Vec::new();
    ServerInit::default().write_to(&mut init);
    assert_eq!((out, n), (init, 1));
    assert_eq!(h.phase(), VncPhase::Running);
    assert_eq!(h.input_len(), 0);
}

#[test]
fn handshake_errors_keep_the_phase() {
    let mut h = VncHandshake::new();
    h.start();
    assert_eq!(h.on_input(b"RFB 003.007\n").unwrap_err(), HandshakeError::Read(RfbError::UnexpectedProtoVersion));
    assert_eq!(h.phase(), VncPhase::AwaitProtoVersion);
    h.on_input(b"RFB 003.008\n").unwrap();
    assert_eq!(h.on_input(&[2]).unwrap_err(), HandshakeError::Read(RfbError::UnexpectedSecurityType(2)));
    h.on_input(&[1]).unwrap();
    assert_eq!(h.on_input(&[0]).unwrap_err(), HandshakeError::ClientNotShared);
    assert_eq!(h.on_input(&[]).unwrap_err(), HandshakeError::Read(RfbError::Incomplete));
    assert_eq!(h.phase(), VncPhase::AwaitClientInit);
}

#[test]
fn blank_update_is_white_1024_by_768() {
    let mut out = Vec::new();
    blank_update().write_to(&mut out);
    assert_eq!(&out[..16], &[0, 0, 0, 1, 0, 0, 0, 0, 4, 0, 3, 0, 0, 0, 0, 0]);
    assert_eq!(out.len(), 16 + 1024 * 768 * 4);
    assert!(out[16..].iter().all(|&b| b == 0xff));
}

#[test]
fn guest_update_shows_the_framebuffer() {
    let fb = RamFb::new(0x1000, 2, 1);
    assert_eq!(fb.frame_len(), 8);
    let mut out = Vec::new();
    guest_update(&fb, vec![1, 2, 3, 4, 5, 6, 7, 8]).write_to(&mut out);
    assert_eq!(out, vec![0, 0, 0, 1, 0, 0, 0, 0, 0, 2, 0, 1, 0, 0, 0, 0, 1, 2, 3, 4, 5, 6, 7, 8]);
}

#[test]
fn framebuffer_at_address_zero_is_ignored() {
    let mut fb = Framebuffer::Uninitialized;
    fb.initialize(RamFb::new(0, 1024, 768));
    assert!(matches!(fb, Framebuffer::Uninitialized));
    fb.initialize(RamFb::new(0x8000, 640, 480));
    match &fb {
        Framebuffer::Initialized(f) => assert_eq!(f.addr(), 0x8000),
        _ => panic!("framebuffer not set"),
    }
}
