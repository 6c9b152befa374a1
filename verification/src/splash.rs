//! The standalone VNC server that shows a splash screen: its handshake with
//! a client, written byte for byte, and the frame it then streams, a white
//! 1024x768 screen with an RGBA image drawn 100 rows from the top.

use image::GenericImageView;
use vstd::prelude::*;

verus! {

/// Where the splash server stands with a client.
#[derive(Debug, PartialEq, Eq, Structural, Clone, Copy)]
pub enum SplashPhase {
    /// The server sent its protocol version and awaits the client's.
    AwaitProtoVersion,
    /// The server offered no security and awaits the client's choice.
    AwaitSecurityType,
    /// The server accepted the choice and awaits the client's initialisation.
    AwaitClientInit,
    /// The server streams splash frames.
    Streaming,
    /// The client chose another security type; the server told it so and
    /// ends the session.
    Refused,
}

/// The client answered with another protocol version than the server's.
#[derive(Debug, PartialEq, Eq, Structural, Clone, Copy)]
pub enum SplashError {
    UnexpectedProtoVersion,
}

/// `RFB 003.008\n`: the protocol version the server sends and expects back.
pub open spec fn version_bytes() -> Seq<u8> {
    seq![0x52u8, 0x46, 0x42, 0x20, 0x30, 0x30, 0x33, 0x2e, 0x30, 0x30, 0x38, 0x0a]
}

fn version_vec() -> (v: Vec<u8>)
    ensures
        v@ == version_bytes(),
{
    vec![0x52u8, 0x46, 0x42, 0x20, 0x30, 0x30, 0x33, 0x2e, 0x30, 0x30, 0x38, 0x0a]
}

/// Whether `input` is the server's protocol version.
fn is_version(input: &[u8]) -> (r: bool)
    ensures
        r == (input@ == version_bytes()),
{
    let version = version_vec();
    if input.len() != 12 {
        return false;
    }
    let mut i: usize = 0;
    while i < 12
        invariant
            i <= 12,
            input@.len() == 12,
            version@ == version_bytes(),
            forall|j: int| 0 <= j < i ==> input@[j] == version@[j],
        decreases 12 - i,
    {
        if input[i] != version[i] {
            assert(input@[i as int] != version_bytes()[i as int]);
            return false;
        }
        i += 1;
    }
    assert(input@ =~= version_bytes());
    true
}

/// The security types offered: one, "none".
pub open spec fn security_types_bytes() -> Seq<u8> {
    seq![1u8, 1]
}

/// The security result for a client that chose "none".
pub open spec fn security_ok_bytes() -> Seq<u8> {
    seq![0u8, 0, 0, 0]
}

/// The security result for a client that chose anything else.
pub open spec fn security_failed_bytes() -> Seq<u8> {
    seq![0u8, 0, 0, 1]
}

/// The desktop the server describes: 1024x768, 32 bits per pixel with
/// depth 24, little-endian true colour with 8 bits per channel (red at 16,
/// green at 8, blue at 0), named "jordan's tiny desktop".
pub open spec fn server_init_bytes() -> Seq<u8> {
    seq![
        0x04u8, 0x00, 0x03, 0x00, 32, 24, 0, 1, 0, 255, 0, 255, 0, 255, 16, 8, 0, 0, 0, 0, 0, 0, 0,
        21, 0x6a, 0x6f, 0x72, 0x64, 0x61, 0x6e, 0x27, 0x73, 0x20, 0x74, 0x69, 0x6e, 0x79, 0x20,
        0x64, 0x65, 0x73, 0x6b, 0x74, 0x6f, 0x70,
    ]
}

fn server_init_vec() -> (v: Vec<u8>)
    ensures
        v@ == server_init_bytes(),
{
    vec![
        0x04u8, 0x00, 0x03, 0x00, 32, 24, 0, 1, 0, 255, 0, 255, 0, 255, 16, 8, 0, 0, 0, 0, 0, 0, 0,
        21, 0x6a, 0x6f, 0x72, 0x64, 0x61, 0x6e, 0x27, 0x73, 0x20, 0x74, 0x69, 0x6e, 0x79, 0x20,
        0x64, 0x65, 0x73, 0x6b, 0x74, 0x6f, 0x70,
    ]
}

/// The number of bytes the client's next message takes in a phase.
pub open spec fn splash_input_len(p: SplashPhase) -> nat {
    match p {
        SplashPhase::AwaitProtoVersion => 12,
        SplashPhase::AwaitSecurityType => 1,
        SplashPhase::AwaitClientInit => 1,
        _ => 0,
    }
}

/// One handshake step on the client's message `input`: the next phase and
/// the bytes to send, or the error (which leaves the phase as it was).
pub open spec fn splash_step(p: SplashPhase, input: Seq<u8>) -> (
    SplashPhase,
    Result<Seq<u8>, SplashError>,
) {
    match p {
        SplashPhase::AwaitProtoVersion => if input == version_bytes() {
            (SplashPhase::AwaitSecurityType, Ok(security_types_bytes()))
        } else {
            (p, Err(SplashError::UnexpectedProtoVersion))
        },
        SplashPhase::AwaitSecurityType => if input[0] != 1 {
            (SplashPhase::Refused, Ok(security_failed_bytes()))
        } else {
            (SplashPhase::AwaitClientInit, Ok(security_ok_bytes()))
        },
        _ => (SplashPhase::Streaming, Ok(server_init_bytes())),
    }
}

/// The splash server reads each client message whole: in the version phase
/// it takes exactly the 12 bytes of `RFB 003.008\n` and nothing else; the
/// security type and the client's initialisation are one byte each, the
/// first deciding between going on and refusing, the second answered with
/// the server's initialisation whatever it holds.
pub proof fn lemma_splash_reads_whole_messages(p: SplashPhase, input: Seq<u8>)
    requires
        p == SplashPhase::AwaitProtoVersion || p == SplashPhase::AwaitSecurityType || p
            == SplashPhase::AwaitClientInit,
    ensures
        p == SplashPhase::AwaitProtoVersion ==> {
            &&& version_bytes().len() == splash_input_len(p)
            &&& (splash_step(p, input).1 is Ok <==> input == version_bytes())
        },
        p == SplashPhase::AwaitSecurityType ==> {
            &&& splash_input_len(p) == 1
            &&& input.len() == 1 ==> splash_step(p, input).0 == if input[0] == 1 {
                SplashPhase::AwaitClientInit
            } else {
                SplashPhase::Refused
            }
        },
        p == SplashPhase::AwaitClientInit ==> {
            &&& splash_input_len(p) == 1
            &&& splash_step(p, input) == (SplashPhase::Streaming, Ok::<Seq<u8>, SplashError>(
                server_init_bytes(),
            ))
        },
{
}

/// The splash server's handshake with one client.
pub struct SplashSession {
    phase: SplashPhase,
}

impl View for SplashSession {
    type V = SplashPhase;

    closed spec fn view(&self) -> SplashPhase {
        self.phase
    }
}

impl SplashSession {
    /// A session that has sent the server's protocol version, which it
    /// returns to be written first.
    pub fn new() -> (r: (SplashSession, Vec<u8>))
        ensures
            r.0@ == SplashPhase::AwaitProtoVersion,
            r.1@ == version_bytes(),
    {
        (SplashSession { phase: SplashPhase::AwaitProtoVersion }, version_vec())
    }

    /// The current phase.
    pub fn phase(&self) -> (p: SplashPhase)
        ensures
            p == self@,
    {
        self.phase
    }

    /// The number of bytes the client's next message takes.
    pub fn input_len(&self) -> (n: usize)
        ensures
            n == splash_input_len(self@),
    {
        match self.phase {
            SplashPhase::AwaitProtoVersion => 12,
            SplashPhase::AwaitSecurityType => 1,
            SplashPhase::AwaitClientInit => 1,
            _ => 0,
        }
    }

    /// Takes the client's message and gives the bytes to answer with (see
    /// [`splash_step`]).
    pub fn on_input(&mut self, input: &[u8]) -> (r: Result<Vec<u8>, SplashError>)
        requires
            old(self)@ == SplashPhase::AwaitProtoVersion || old(self)@
                == SplashPhase::AwaitSecurityType || old(self)@ == SplashPhase::AwaitClientInit,
            input@.len() == splash_input_len(old(self)@),
        ensures
            final(self)@ == splash_step(old(self)@, input@).0,
            match splash_step(old(self)@, input@).1 {
                Ok(bytes) => r matches Ok(out) && out@ == bytes,
                Err(e) => r == Err::<Vec<u8>, SplashError>(e),
            },
    {
        match self.phase {
            SplashPhase::AwaitProtoVersion => {
                if !is_version(input) {
                    return Err(SplashError::UnexpectedProtoVersion);
                }
                self.phase = SplashPhase::AwaitSecurityType;
                Ok(vec![1u8, 1])
            },
            SplashPhase::AwaitSecurityType => {
                if input[0] != 1 {
                    self.phase = SplashPhase::Refused;
                    Ok(vec![0u8, 0, 0, 1])
                } else {
                    self.phase = SplashPhase::AwaitClientInit;
                    Ok(vec![0u8, 0, 0, 0])
                }
            },
            _ => {
                self.phase = SplashPhase::Streaming;
                Ok(server_init_vec())
            },
        }
    }
}

/// Width of the splash screen, in pixels.
pub const SPLASH_WIDTH: usize = 1024;

/// Height of the splash screen, in pixels.
pub const SPLASH_HEIGHT: usize = 768;

/// Rows above the image.
pub const SPLASH_TOP: usize = 100;

/// Bytes of the splash screen's pixels: 4 per pixel.
pub const SPLASH_LEN: usize = 1024 * 768 * 4;

/// An image of `w` by `h` pixels, with its RGBA bytes, whose pixels all
/// land on the screen when drawn from the top rows on (see
/// [`splash_byte`]).
pub open spec fn image_fits(w: int, h: int, rgba: Seq<u8>) -> bool {
    &&& rgba.len() == w * h * 4
    &&& (w == 0 || h == 0 || (h - 1 + SPLASH_TOP) * SPLASH_WIDTH + w <= SPLASH_WIDTH
        * SPLASH_HEIGHT)
}

/// The image row whose pixel is drawn last at screen pixel `q`, if any
/// image row reaches that far.
pub open spec fn drawn_row(h: int, q: int) -> int {
    let row = q / (SPLASH_WIDTH as int);
    if row - SPLASH_TOP < h {
        row - SPLASH_TOP
    } else {
        h - 1
    }
}

/// Byte `i` of the splash screen.  The image's pixels are drawn row after
/// row, pixel `(x, y)` at screen pixel `(y + 100) * 1024 + x`, so that a
/// row wider than the screen runs on into the next screen row and a later
/// pixel covers an earlier one; the byte is that of the last pixel drawn
/// at its screen pixel, and white where none is.
pub open spec fn splash_byte(w: int, h: int, rgba: Seq<u8>, i: int) -> u8 {
    let q = i / 4;
    let c = i % 4;
    if h > 0 && q / (SPLASH_WIDTH as int) >= SPLASH_TOP {
        let y = drawn_row(h, q);
        let x = q - (y + SPLASH_TOP) * SPLASH_WIDTH;
        if x < w {
            rgba[(y * w + x) * 4 + c]
        } else {
            0xff
        }
    } else {
        0xff
    }
}

/// The header of a splash frame: a framebuffer update of one 1024x768
/// rectangle at the origin in raw encoding.
pub open spec fn splash_header() -> Seq<u8> {
    seq![0u8, 0, 0, 1, 0, 0, 0, 0, 0x04, 0x00, 0x03, 0x00, 0, 0, 0, 0]
}

/// A splash frame for the image: its header, then the screen's pixels.
pub open spec fn splash_frame(w: int, h: int, rgba: Seq<u8>) -> Seq<u8> {
    splash_header() + Seq::new(SPLASH_LEN as nat, |i: int| splash_byte(w, h, rgba, i))
}

proof fn lemma_image_index(w: int, h: int, y: int, x: int, c: int)
    requires
        0 <= y < h,
        0 <= x < w,
        0 <= c < 4,
    ensures
        0 <= (y * w + x) * 4 + c < w * h * 4,
{
    assert(0 <= y * w) by (nonlinear_arith)
        requires
            0 <= y,
            0 <= w,
    ;
    assert(y * w + x < w * h) by (nonlinear_arith)
        requires
            0 <= y < h,
            0 <= x < w,
    ;
}

/// An image no wider than the screen is drawn upright, 100 rows from the
/// top: channel `c` of image pixel `(x, y)` is byte
/// `16 + ((y + 100) * 1024 + x) * 4 + c` of the frame, the top image row
/// first.
pub proof fn lemma_splash_pixel(w: int, h: int, rgba: Seq<u8>, x: int, y: int, c: int)
    requires
        0 < w <= 1024,
        image_fits(w, h, rgba),
        0 <= x < w,
        0 <= y < h,
        0 <= c < 4,
    ensures
        0 <= (y * w + x) * 4 + c < rgba.len(),
        16 + ((y + 100) * 1024 + x) * 4 + c < splash_frame(w, h, rgba).len(),
        splash_frame(w, h, rgba)[16 + ((y + 100) * 1024 + x) * 4 + c] == rgba[(y * w + x) * 4 + c],
{
    let q = (y + 100) * 1024 + x;
    let i = q * 4 + c;
    lemma_image_index(w, h, y, x, c);
    assert(i / 4 == q && i % 4 == c) by (nonlinear_arith)
        requires
            i == q * 4 + c,
            0 <= c < 4,
    ;
    assert(q / 1024 == y + 100) by (nonlinear_arith)
        requires
            q == (y + 100) * 1024 + x,
            0 <= x < 1024,
    ;
    assert(q < 1024 * 768) by (nonlinear_arith)
        requires
            q == (y + 100) * 1024 + x,
            0 <= y <= h - 1,
            x < w,
            (h - 1 + 100) * 1024 + w <= 1024 * 768,
    ;
    assert(drawn_row(h, q) == y);
    assert(splash_byte(w, h, rgba, i) == rgba[(y * w + x) * 4 + c]);
    assert(splash_header().len() == 16);
    assert(splash_frame(w, h, rgba)[16 + i] == splash_byte(w, h, rgba, i));
}

/// The splash frame for an image of `w` by `h` pixels whose RGBA bytes are
/// `rgba`, row by row.
pub fn splash_update(w: usize, h: usize, rgba: &[u8]) -> (out: Vec<u8>)
    requires
        image_fits(w as int, h as int, rgba@),
    ensures
        out@ == splash_frame(w as int, h as int, rgba@),
{
    let mut out: Vec<u8> = vec![0u8, 0, 0, 1, 0, 0, 0, 0, 0x04, 0x00, 0x03, 0x00, 0, 0, 0, 0];
    let img_len = rgba.len();
    let mut i: usize = 0;
    while i < SPLASH_LEN
        invariant
            image_fits(w as int, h as int, rgba@),
            img_len == rgba@.len(),
            i <= SPLASH_LEN,
            out@.len() == 16 + i,
            out@.subrange(0, 16) == splash_header(),
            forall|j: int| 0 <= j < i ==> out@[16 + j] == splash_byte(w as int, h as int, rgba@, j),
        decreases SPLASH_LEN - i,
    {
        let q = i / 4;
        let c = i % 4;
        let row = q / SPLASH_WIDTH;
        let b = if h > 0 && row >= SPLASH_TOP {
            let y = if row - SPLASH_TOP < h {
                row - SPLASH_TOP
            } else {
                h - 1
            };
            let x = q - (y + SPLASH_TOP) * SPLASH_WIDTH;
            if x < w {
                proof {
                    lemma_image_index(w as int, h as int, y as int, x as int, c as int);
                    assert(y * w <= y * w + x);
                }
                rgba[(y * w + x) * 4 + c]
            } else {
                0xff
            }
        } else {
            0xff
        };
        out.push(b);
        i += 1;
    }
    assert(out@ =~= splash_frame(w as int, h as int, rgba@));
    out
}

/// What decoding some bytes as a JPEG image gives: its width, its height
/// and its RGBA bytes, row by row; none when they hold no such image.
pub uninterp spec fn jpeg_decoded(bytes: Seq<u8>) -> Option<(nat, nat, Seq<u8>)>;

/// `image::load_from_memory_with_format` for a JPEG (the format the image
/// crate gives a `.jpg` file), with the image's dimensions and its bytes as
/// RGBA (`to_rgba8`), 4 per pixel.
#[verifier::external_body]
fn decode_jpeg(bytes: &[u8]) -> (r: Option<(usize, usize, Vec<u8>)>)
    ensures
        match jpeg_decoded(bytes@) {
            Some((w, h, p)) => r matches Some((w2, h2, p2)) && w2 == w && h2 == h && p2@ == p,
            None => r is None,
        },
        r matches Some((w, h, p)) ==> p@.len() == w * h * 4,
{
    match image::load_from_memory_with_format(bytes, image::ImageFormat::Jpeg) {
        Ok(img) => {
            let (w, h) = img.dimensions();
            Some((w as usize, h as usize, img.to_rgba8().into_raw()))
        },
        Err(_) => None,
    }
}

/// Why the splash image cannot be shown.
#[derive(Debug, PartialEq, Eq, Structural, Clone, Copy)]
pub enum SplashImageError {
    /// The bytes hold no JPEG image.
    Undecodable,
    /// Some pixel of the image would land past the screen's end.
    TooLarge,
}

/// The splash frame for a decoded image, given by its width, height and
/// RGBA bytes, or nothing when there was no image.
pub fn splash_for_image(decoded: Option<(usize, usize, Vec<u8>)>) -> (r: Result<
    Vec<u8>,
    SplashImageError,
>)
    requires
        decoded matches Some((w, h, p)) ==> p@.len() == w * h * 4,
    ensures
        match decoded {
            None => r == Err::<Vec<u8>, SplashImageError>(SplashImageError::Undecodable),
            Some((w, h, p)) => if image_fits(w as int, h as int, p@) {
                r matches Ok(f) && f@ == splash_frame(w as int, h as int, p@)
            } else {
                r == Err::<Vec<u8>, SplashImageError>(SplashImageError::TooLarge)
            },
        },
{
    match decoded {
        None => Err(SplashImageError::Undecodable),
        Some((w, h, p)) => {
            let fits = w == 0 || h == 0 || (w <= SPLASH_WIDTH * SPLASH_HEIGHT && h - 1
                <= SPLASH_HEIGHT && (h - 1 + SPLASH_TOP) * SPLASH_WIDTH + w <= SPLASH_WIDTH
                * SPLASH_HEIGHT);
            if !fits {
                return Err(SplashImageError::TooLarge);
            }
            Ok(splash_update(w, h, p.as_slice()))
        },
    }
}

/// The splash frame for the JPEG image held in `bytes`.
pub fn splash_from_jpeg(bytes: &[u8]) -> (r: Result<Vec<u8>, SplashImageError>)
    ensures
        match jpeg_decoded(bytes@) {
            None => r == Err::<Vec<u8>, SplashImageError>(SplashImageError::Undecodable),
            Some((w, h, p)) => if image_fits(w as int, h as int, p) {
                r matches Ok(f) && f@ == splash_frame(w as int, h as int, p)
            } else {
                r == Err::<Vec<u8>, SplashImageError>(SplashImageError::TooLarge)
            },
        },
{
    splash_for_image(decode_jpeg(bytes))
}

} // verus!
