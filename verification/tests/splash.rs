use propolis_server::splash::{
    splash_for_image, splash_from_jpeg, splash_update, SplashError, SplashImageError, SplashPhase,
    SplashSession, SPLASH_HEIGHT, SPLASH_LEN, SPLASH_TOP, SPLASH_WIDTH,
};

fn jpeg_of(w: u32, h: u32) -> Vec<u8> {
    let rgb = vec![200u8; (w * h * 3) as usize];
    let mut out = Vec::new();
    image::codecs::jpeg::JpegEncoder::new(&mut out)
        .encode(&rgb, w, h, image::ColorType::Rgb8)
        .unwrap();
    out
}

#[test]
fn splash_handshake() {
    let (mut s, hello) = SplashSession::new();
    assert_eq!(hello, b"RFB 003.008\n".to_vec());
    assert_eq!(s.phase(), SplashPhase::AwaitProtoVersion);
    assert_eq!(s.input_len(), 12);
    assert_eq!(s.on_input(b"RFB 003.008\n"), Ok(vec![1, 1]));
    assert_eq!(s.input_len(), 1);
    assert_eq!(s.on_input(&[1]), Ok(vec![0, 0, 0, 0]));
    assert_eq!(s.phase(), SplashPhase::AwaitClientInit);
    let init = s.on_input(&[0]).unwrap();
    let mut want = vec![4, 0, 3, 0, 32, 24, 0, 1, 0, 255, 0, 255, 0, 255, 16, 8, 0, 0, 0, 0, 0, 0, 0, 21];
    want.extend_from_slice(b"jordan's tiny desktop");
    assert_eq!(init, want);
    assert_eq!(s.phase(), SplashPhase::Streaming);
    assert_eq!(s.input_len(), 0);
}

#[test]
fn splash_refusals() {
    let (mut s, _) = SplashSession::new();
    assert_eq!(s.on_input(b"RFB 003.003\n"), Err(SplashError::UnexpectedProtoVersion));
    assert_eq!(s.phase(), SplashPhase::AwaitProtoVersion);
    s.on_input(b"RFB 003.008\n").unwrap();
    assert_eq!(s.on_input(&[2]), Ok(vec![0, 0, 0, 1]));
    assert_eq!(s.phase(), SplashPhase::Refused);
}

#[test]
fn splash_frame_places_the_image() {
    // A 2x1 image: one red and one green pixel.
    let rgba = [255, 0, 0, 255, 0, 255, 0, 255];
    let frame = splash_update(2, 1, &rgba);
    assert_eq!(&frame[..16], &[0, 0, 0, 1, 0, 0, 0, 0, 4, 0, 3, 0, 0, 0, 0, 0]);
    assert_eq!(frame.len(), 16 + SPLASH_LEN);
    let pixels = &frame[16..];
    let at = SPLASH_TOP * SPLASH_WIDTH * 4;
    assert_eq!(&pixels[at..at + 8], &rgba);
    assert_eq!(pixels[at + 8], 0xff);
    assert!(pixels[..at].iter().all(|&b| b == 0xff));
    assert!(pixels[at + SPLASH_WIDTH * 4..].iter().all(|&b| b == 0xff));
    assert_eq!(SPLASH_HEIGHT, 768);
}

#[test]
fn splash_frame_without_image_is_white() {
    let frame = splash_update(0, 0, &[]);
    assert!(frame[16..].iter().all(|&b| b == 0xff));
}

#[test]
fn wide_image_rows_run_on() {
    // A 1025x1 image: its last pixel lands at the start of the next screen row.
    let mut rgba = vec![7u8; 1025 * 4];
    rgba[1024 * 4..].copy_from_slice(&[1, 2, 3, 4]);
    let frame = splash_for_image(Some((1025, 1, rgba))).unwrap();
    let pixels = &frame[16..];
    let row = SPLASH_WIDTH * 4;
    assert!(pixels[SPLASH_TOP * row..(SPLASH_TOP + 1) * row].iter().all(|&b| b == 7));
    assert_eq!(&pixels[(SPLASH_TOP + 1) * row..(SPLASH_TOP + 1) * row + 4], &[1, 2, 3, 4]);
    assert_eq!(pixels[(SPLASH_TOP + 1) * row + 4], 0xff);
}

#[test]
fn splash_images_that_cannot_be_shown() {
    assert_eq!(splash_for_image(None), Err(SplashImageError::Undecodable));
    assert_eq!(
        splash_for_image(Some((1, SPLASH_HEIGHT - SPLASH_TOP + 1, vec![0; (SPLASH_HEIGHT - SPLASH_TOP + 1) * 4]))),
        Err(SplashImageError::TooLarge)
    );
    assert!(splash_for_image(Some((1, SPLASH_HEIGHT - SPLASH_TOP, vec![0; (SPLASH_HEIGHT - SPLASH_TOP) * 4]))).is_ok());
    assert_eq!(splash_from_jpeg(b"not a jpeg"), Err(SplashImageError::Undecodable));
    assert_eq!(splash_from_jpeg(&jpeg_of(1, 700)), Err(SplashImageError::TooLarge));
}

#[test]
fn splash_from_a_jpeg() {
    let frame = splash_from_jpeg(&jpeg_of(4, 2)).unwrap();
    assert_eq!(frame.len(), 16 + SPLASH_LEN);
    let at = SPLASH_TOP * SPLASH_WIDTH * 4;
    let px = &frame[16 + at..16 + at + 4];
    assert!(px[0] > 180 && px[0] < 220);
    assert_eq!(px[3], 255);
    assert_eq!(frame[16 + at + 16], 0xff);
}
