//! The VNC server's session with one client: the RFB handshake as a state
//! machine, and the framebuffer updates it streams afterwards.  Reading and
//! writing the connection is the caller's part; each step here says what to
//! send for what was received.

use crate::rfb::{
    ClientInit, Encoding, FramebufferUpdate, Message, ProtoVersion, Rectangle, RectangleView,
    RfbError, SecurityResult, SecurityType, SecurityTypes, ServerInit, ServerInitView,
};
use vstd::prelude::*;

verus! {

/// Where the server stands in the handshake with a client.
#[derive(Debug, PartialEq, Eq, Structural, Clone, Copy)]
pub enum VncPhase {
    /// Nothing has been sent yet.
    Start,
    /// The server sent its protocol version and awaits the client's.
    AwaitProtoVersion,
    /// The server offered its security types and awaits the client's choice.
    AwaitSecurityType,
    /// The server accepted the security type and awaits the client's
    /// initialisation message.
    AwaitClientInit,
    /// The handshake is done; framebuffer updates follow.
    Running,
}

/// Why a handshake step failed.
#[derive(Debug, PartialEq, Eq, Structural, Clone, Copy)]
pub enum HandshakeError {
    /// The client's message could not be read.
    Read(RfbError),
    /// The client asked for exclusive access; the server only shares.
    ClientNotShared,
}

/// The server's desktop description, as sent at the end of the handshake.
pub open spec fn server_init_view() -> ServerInitView {
    ServerInitView {
        fb_width: 1024,
        fb_height: 748,
        pixel_fmt: crate::rfb::default_pixel_format(),
        name: "propolis-vnc-server"@,
    }
}

/// The number of bytes the client's next message takes in a phase.
pub open spec fn spec_input_len(p: VncPhase) -> nat {
    match p {
        VncPhase::AwaitProtoVersion => 12,
        VncPhase::AwaitSecurityType => 1,
        VncPhase::AwaitClientInit => 1,
        _ => 0,
    }
}

/// One handshake step: the phase after the client's message `input`, and
/// either the bytes to send back with the number of input bytes consumed,
/// or the error.  An error leaves the phase as it was.
pub open spec fn handshake_step(p: VncPhase, input: Seq<u8>) -> (
    VncPhase,
    Result<(Seq<u8>, nat), HandshakeError>,
) {
    match p {
        VncPhase::AwaitProtoVersion => match <ProtoVersion as Message>::parse(input) {
            Ok((v, n)) => (
                VncPhase::AwaitSecurityType,
                Ok((<SecurityTypes as Message>::wire(seq![SecurityType::NoSecurity]), n)),
            ),
            Err(e) => (p, Err(HandshakeError::Read(e))),
        },
        VncPhase::AwaitSecurityType => match <SecurityType as Message>::parse(input) {
            Ok((t, n)) => (
                VncPhase::AwaitClientInit,
                Ok((<SecurityResult as Message>::wire(SecurityResult::Success), n)),
            ),
            Err(e) => (p, Err(HandshakeError::Read(e))),
        },
        _ => match <ClientInit as Message>::parse(input) {
            Ok((ClientInit::Shared, n)) => (
                VncPhase::Running,
                Ok((<ServerInit as Message>::wire(server_init_view()), n)),
            ),
            Ok((ClientInit::Exclusive, n)) => (p, Err(HandshakeError::ClientNotShared)),
            Err(e) => (p, Err(HandshakeError::Read(e))),
        },
    }
}

/// In each phase that awaits a client message, the input length is the
/// length of that message: a step that succeeds consumes exactly
/// `spec_input_len(p)` bytes (12 for the protocol version, one for the
/// security type, one for the client's initialisation), and an input of
/// that many bytes is never too short to be read.
pub proof fn lemma_input_len_consumed(p: VncPhase, input: Seq<u8>)
    requires
        p == VncPhase::AwaitProtoVersion || p == VncPhase::AwaitSecurityType || p
            == VncPhase::AwaitClientInit,
    ensures
        handshake_step(p, input).1 matches Ok((_, n)) ==> n == spec_input_len(p),
        input.len() >= spec_input_len(p) ==> handshake_step(p, input).1 != Err::<
            (Seq<u8>, nat),
            HandshakeError,
        >(HandshakeError::Read(RfbError::Incomplete)),
        p == VncPhase::AwaitClientInit && input.len() >= spec_input_len(p) && input[0] == 1
            ==> handshake_step(p, input).0 == VncPhase::Running,
{
}

/// The handshake of the VNC server with one client.
pub struct VncHandshake {
    phase: VncPhase,
}

impl View for VncHandshake {
    type V = VncPhase;

    closed spec fn view(&self) -> VncPhase {
        self.phase
    }
}

impl VncHandshake {
    pub fn new() -> (h: VncHandshake)
        ensures
            h@ == VncPhase::Start,
    {
        VncHandshake { phase: VncPhase::Start }
    }

    /// The current phase.
    pub fn phase(&self) -> (p: VncPhase)
        ensures
            p == self@,
    {
        self.phase
    }

    /// The number of bytes the client's next message takes.
    pub fn input_len(&self) -> (n: usize)
        ensures
            n == spec_input_len(self@),
    {
        match self.phase {
            VncPhase::AwaitProtoVersion => 12,
            VncPhase::AwaitSecurityType => 1,
            VncPhase::AwaitClientInit => 1,
            _ => 0,
        }
    }

    /// Opens the handshake: the server's protocol version, to be sent first.
    pub fn start(&mut self) -> (out: Vec<u8>)
        requires
            old(self)@ == VncPhase::Start,
        ensures
            final(self)@ == VncPhase::AwaitProtoVersion,
            out@ == <ProtoVersion as Message>::wire(ProtoVersion::Rfb38),
    {
        let mut out = Vec::new();
        ProtoVersion::Rfb38.write_to(&mut out);
        self.phase = VncPhase::AwaitProtoVersion;
        out
    }

    /// Takes the client's message at the front of `input` and gives the
    /// bytes to answer with (see [`handshake_step`]).
    pub fn on_input(&mut self, input: &[u8]) -> (r: Result<(Vec<u8>, usize), HandshakeError>)
        requires
            old(self)@ == VncPhase::AwaitProtoVersion || old(self)@ == VncPhase::AwaitSecurityType
                || old(self)@ == VncPhase::AwaitClientInit,
        ensures
            final(self)@ == handshake_step(old(self)@, input@).0,
            match handshake_step(old(self)@, input@).1 {
                Ok((bytes, n)) => r matches Ok((out, k)) && out@ == bytes && k == n,
                Err(e) => r == Err::<(Vec<u8>, usize), HandshakeError>(e),
            },
    {
        let mut out = Vec::new();
        match self.phase {
            VncPhase::AwaitProtoVersion => {
                match ProtoVersion::read_from(input) {
                    Ok((_, n)) => {
                        let types = SecurityTypes(vec![SecurityType::NoSecurity]);
                        proof {
                            assert(types@ =~= seq![SecurityType::NoSecurity]);
                        }
                        types.write_to(&mut out);
                        self.phase = VncPhase::AwaitSecurityType;
                        Ok((out, n))
                    },
                    Err(e) => Err(HandshakeError::Read(e)),
                }
            },
            VncPhase::AwaitSecurityType => {
                match SecurityType::read_from(input) {
                    Ok((_, n)) => {
                        SecurityResult::Success.write_to(&mut out);
                        self.phase = VncPhase::AwaitClientInit;
                        Ok((out, n))
                    },
                    Err(e) => Err(HandshakeError::Read(e)),
                }
            },
            _ => {
                match ClientInit::read_from(input) {
                    Ok((ClientInit::Shared, n)) => {
                        let init = ServerInit::default();
                        assert(init@ == server_init_view());
                        assert(<ServerInit as Message>::writable(init@)) by {
                            reveal_strlit("propolis-vnc-server");
                            vstd::utf8::is_ascii_chars_encode_utf8(init@.name);
                        }
                        init.write_to(&mut out);
                        self.phase = VncPhase::Running;
                        Ok((out, n))
                    },
                    Ok((ClientInit::Exclusive, _)) => Err(HandshakeError::ClientNotShared),
                    Err(e) => Err(HandshakeError::Read(e)),
                }
            },
        }
    }
}

/// The guest's RAM framebuffer: where it lies in guest memory and its size
/// in pixels (4 bytes each).
#[derive(Debug)]
pub struct RamFb {
    addr: u64,
    width: usize,
    height: usize,
}

/// The fields of a [`RamFb`].
pub struct RamFbView {
    pub addr: u64,
    pub width: usize,
    pub height: usize,
}

impl View for RamFb {
    type V = RamFbView;

    closed spec fn view(&self) -> RamFbView {
        RamFbView { addr: self.addr, width: self.width, height: self.height }
    }
}

impl RamFb {
    pub fn new(addr: u64, width: usize, height: usize) -> (fb: RamFb)
        ensures
            fb@ == (RamFbView { addr, width, height }),
    {
        RamFb { addr, width, height }
    }

    /// Guest address of the framebuffer.
    pub fn addr(&self) -> (a: u64)
        ensures
            a == self@.addr,
    {
        self.addr
    }

    /// Width in pixels.
    pub fn width(&self) -> (w: usize)
        ensures
            w == self@.width,
    {
        self.width
    }

    /// Height in pixels.
    pub fn height(&self) -> (h: usize)
        ensures
            h == self@.height,
    {
        self.height
    }

    /// The number of bytes of the framebuffer: 4 per pixel.
    pub fn frame_len(&self) -> (n: usize)
        requires
            self@.width * self@.height * 4 <= usize::MAX,
        ensures
            n == self@.width * self@.height * 4,
    {
        proof {
            vstd::arithmetic::mul::lemma_mul_is_commutative(self.width as int, self.height as int);
            assert(self.height * self.width <= self.width * self.height * 4) by (nonlinear_arith)
                requires
                    self.height * self.width == self.width * self.height,
            ;
        }
        self.height * self.width * 4
    }
}

/// What the VNC server knows of the guest's framebuffer.
#[derive(Debug)]
pub enum Framebuffer {
    Uninitialized,
    Initialized(RamFb),
}

impl Framebuffer {
    /// Takes note of the guest's framebuffer; one at guest address 0 is not
    /// set up yet, and leaves things as they were.
    pub fn initialize(&mut self, fb: RamFb)
        ensures
            fb@.addr != 0 ==> (*final(self) matches Framebuffer::Initialized(f) && f@ == fb@),
            fb@.addr == 0 ==> *final(self) == *old(self),
    {
        if fb.addr != 0 {
            *self = Framebuffer::Initialized(fb);
        }
    }
}

/// Width of the blank screen shown before the guest sets up its framebuffer.
pub const BLANK_WIDTH: u16 = 1024;

/// Height of the blank screen shown before the guest sets up its framebuffer.
pub const BLANK_HEIGHT: u16 = 768;

/// The update sent while the guest has no framebuffer: one white
/// 1024x768 rectangle in raw encoding.
pub fn blank_update() -> (u: FramebufferUpdate)
    ensures
        u@ == seq![
            RectangleView {
                x_pos: 0,
                y_pos: 0,
                width: 1024,
                height: 768,
                encoding: Encoding::Raw,
                pixels: Seq::new(1024 * 768 * 4, |i: int| 0xffu8),
            },
        ],
{
    let len: usize = 1024 * 768 * 4;
    let pixels = vec![0xffu8; len];
    proof {
        assert(pixels@ =~= Seq::new(1024 * 768 * 4, |i: int| 0xffu8));
    }
    let r = Rectangle::new(0, 0, BLANK_WIDTH, BLANK_HEIGHT, Encoding::Raw, pixels);
    let rects = vec![r];
    let u = FramebufferUpdate::new(rects);
    proof {
        assert(u@ =~= seq![r@]);
    }
    u
}

/// The update that shows the guest framebuffer `fb` whose bytes were read
/// into `pixels`: one rectangle at the origin, its size cut to 16 bits.
pub fn guest_update(fb: &RamFb, pixels: Vec<u8>) -> (u: FramebufferUpdate)
    ensures
        u@ == seq![
            RectangleView {
                x_pos: 0,
                y_pos: 0,
                width: fb@.width as u16,
                height: fb@.height as u16,
                encoding: Encoding::Raw,
                pixels: pixels@,
            },
        ],
{
    let r = Rectangle::new(
        0,
        0,
        #[verifier::truncate] (fb.width as u16),
        #[verifier::truncate] (fb.height as u16),
        Encoding::Raw,
        pixels,
    );
    let rects = vec![r];
    let u = FramebufferUpdate::new(rects);
    proof {
        assert(u@ =~= seq![r@]);
    }
    u
}

} // verus!
