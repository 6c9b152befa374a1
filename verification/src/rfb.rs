//! Messages of the RFB (remote framebuffer) protocol that the VNC server
//! exchanges with its clients, as bytes.

use crate::wire::{be16, be32, push_be16, push_be32, push_bytes};
use vstd::prelude::*;
use vstd::pervasive::unreached;

verus! {

broadcast use vstd::seq_lib::group_seq_properties;

/// Errors in reading RFB messages.
#[derive(Debug, PartialEq, Eq, Structural, Clone, Copy)]
pub enum RfbError {
    /// The input ended before the message did.
    Incomplete,
    /// The client named a protocol version other than 3.8.
    UnexpectedProtoVersion,
    /// The client chose an unknown security type.
    UnexpectedSecurityType(u8),
    /// The client's initialisation flag was neither 0 nor 1.
    InvalidClientInit(u8),
}

/// An RFB message, read from and written to bytes.
pub trait Message: Sized + View {
    /// Whether reading this message is supported.
    spec fn can_read() -> bool;

    /// Whether writing this message is supported.
    spec fn can_write() -> bool;

    /// What reading the front of `bytes` yields: the message and the number
    /// of bytes it takes, or the error.
    spec fn parse(bytes: Seq<u8>) -> Result<(Self::V, nat), RfbError>;

    /// The messages that can be written.
    spec fn writable(v: Self::V) -> bool;

    /// The bytes of a message.
    spec fn wire(v: Self::V) -> Seq<u8>;

    /// Reads a message from the front of `bytes`.
    fn read_from(bytes: &[u8]) -> (r: Result<(Self, usize), RfbError>)
        requires
            Self::can_read(),
        ensures
            match Self::parse(bytes@) {
                Ok((v, n)) => r matches Ok((m, k)) && m@ == v && k == n,
                Err(e) => r == Err::<(Self, usize), RfbError>(e),
            },
    ;

    /// Appends the bytes of the message to `out`.
    fn write_to(&self, out: &mut Vec<u8>)
        requires
            Self::can_write(),
            Self::writable(self@),
        ensures
            final(out)@ == old(out)@ + Self::wire(self@),
    ;
}

/// The protocol versions the server speaks.
#[derive(Debug, PartialEq, Eq, Structural, Clone, Copy)]
pub enum ProtoVersion {
    Rfb38,
}

impl View for ProtoVersion {
    type V = ProtoVersion;

    open spec fn view(&self) -> ProtoVersion {
        *self
    }
}

/// The 12 bytes `RFB 003.008\n`.
pub open spec fn rfb38_bytes() -> Seq<u8> {
    seq![0x52u8, 0x46, 0x42, 0x20, 0x30, 0x30, 0x33, 0x2e, 0x30, 0x30, 0x38, 0x0a]
}

fn rfb38() -> (v: Vec<u8>)
    ensures
        v@ == rfb38_bytes(),
{
    vec![0x52u8, 0x46, 0x42, 0x20, 0x30, 0x30, 0x33, 0x2e, 0x30, 0x30, 0x38, 0x0a]
}

impl Message for ProtoVersion {
    open spec fn can_read() -> bool {
        true
    }

    open spec fn can_write() -> bool {
        true
    }

    /// Any input other than the 12 version bytes, a short one too, is an
    /// unexpected version.
    open spec fn parse(bytes: Seq<u8>) -> Result<(ProtoVersion, nat), RfbError> {
        if bytes.len() >= 12 && bytes.take(12) == rfb38_bytes() {
            Ok((ProtoVersion::Rfb38, 12))
        } else {
            Err(RfbError::UnexpectedProtoVersion)
        }
    }

    open spec fn writable(v: ProtoVersion) -> bool {
        true
    }

    open spec fn wire(v: ProtoVersion) -> Seq<u8> {
        rfb38_bytes()
    }

    fn read_from(bytes: &[u8]) -> (r: Result<(ProtoVersion, usize), RfbError>) {
        if bytes.len() < 12 {
            return Err(RfbError::UnexpectedProtoVersion);
        }
        let expected = rfb38();
        let mut i: usize = 0;
        while i < 12
            invariant
                i <= 12,
                bytes@.len() >= 12,
                expected@ == rfb38_bytes(),
                forall|j: int| 0 <= j < i ==> bytes@[j] == rfb38_bytes()[j],
            decreases 12 - i,
        {
            if bytes[i] != expected[i] {
                proof {
                    assert(bytes@.take(12)[i as int] != rfb38_bytes()[i as int]);
                }
                return Err(RfbError::UnexpectedProtoVersion);
            }
            i += 1;
        }
        assert(bytes@.take(12) =~= rfb38_bytes());
        Ok((ProtoVersion::Rfb38, 12))
    }

    fn write_to(&self, out: &mut Vec<u8>) {
        match self {
            ProtoVersion::Rfb38 => {
                let v = rfb38();
                push_bytes(out, v.as_slice());
            },
        }
    }
}

/// The security types the server offers.
#[derive(Debug, PartialEq, Eq, Structural, Clone, Copy)]
pub enum SecurityType {
    NoSecurity,
}

impl View for SecurityType {
    type V = SecurityType;

    open spec fn view(&self) -> SecurityType {
        *self
    }
}

impl Message for SecurityType {
    open spec fn can_read() -> bool {
        true
    }

    open spec fn can_write() -> bool {
        true
    }

    open spec fn parse(bytes: Seq<u8>) -> Result<(SecurityType, nat), RfbError> {
        if bytes.len() < 1 {
            Err(RfbError::Incomplete)
        } else if bytes[0] == 1 {
            Ok((SecurityType::NoSecurity, 1))
        } else {
            Err(RfbError::UnexpectedSecurityType(bytes[0]))
        }
    }

    open spec fn writable(v: SecurityType) -> bool {
        true
    }

    open spec fn wire(v: SecurityType) -> Seq<u8> {
        seq![1u8]
    }

    fn read_from(bytes: &[u8]) -> (r: Result<(SecurityType, usize), RfbError>) {
        if bytes.len() < 1 {
            return Err(RfbError::Incomplete);
        }
        match bytes[0] {
            1 => Ok((SecurityType::NoSecurity, 1)),
            v => Err(RfbError::UnexpectedSecurityType(v)),
        }
    }

    fn write_to(&self, out: &mut Vec<u8>) {
        match self {
            SecurityType::NoSecurity => out.push(1u8),
        }
        assert(out@ =~= old(out)@ + seq![1u8]);
    }
}

/// The list of security types that the server offers.
#[derive(Debug, Clone)]
pub struct SecurityTypes(pub Vec<SecurityType>);

impl View for SecurityTypes {
    type V = Seq<SecurityType>;

    open spec fn view(&self) -> Seq<SecurityType> {
        self.0@
    }
}

/// The first of the `k` bytes after the count that is present but no
/// security type.
pub open spec fn first_bad_type(rest: Seq<u8>, k: int) -> int {
    choose|i: int|
        0 <= i < k && i < rest.len() && rest[i] != 1 && forall|j: int| 0 <= j < i ==> rest[j] == 1
}

/// Reading `k` security types from `rest`, each one byte.
pub open spec fn parse_types(rest: Seq<u8>, k: int) -> Result<(Seq<SecurityType>, nat), RfbError> {
    if forall|i: int| 0 <= i < k && i < rest.len() ==> rest[i] == 1 {
        if k <= rest.len() {
            Ok((Seq::new(k as nat, |i: int| SecurityType::NoSecurity), (k + 1) as nat))
        } else {
            Err(RfbError::Incomplete)
        }
    } else {
        Err(RfbError::UnexpectedSecurityType(rest[first_bad_type(rest, k)]))
    }
}

/// The bytes of a list of security types: the count, cut to 8 bits, then
/// one byte per type.
pub open spec fn types_wire(types: Seq<SecurityType>) -> Seq<u8> {
    seq![(types.len() % 256) as u8] + Seq::new(types.len(), |i: int| 1u8)
}

impl Message for SecurityTypes {
    open spec fn can_read() -> bool {
        true
    }

    open spec fn can_write() -> bool {
        true
    }

    open spec fn parse(bytes: Seq<u8>) -> Result<(Seq<SecurityType>, nat), RfbError> {
        if bytes.len() < 1 {
            Err(RfbError::Incomplete)
        } else {
            parse_types(bytes.skip(1), bytes[0] as int)
        }
    }

    open spec fn writable(v: Seq<SecurityType>) -> bool {
        true
    }

    open spec fn wire(v: Seq<SecurityType>) -> Seq<u8> {
        types_wire(v)
    }

    fn read_from(bytes: &[u8]) -> (r: Result<(SecurityTypes, usize), RfbError>) {
        if bytes.len() < 1 {
            return Err(RfbError::Incomplete);
        }
        let n = bytes[0];
        let ghost rest = bytes@.skip(1);
        let mut types: Vec<SecurityType> = Vec::new();
        let mut i: u8 = 0;
        while i < n
            invariant
                i <= n,
                n == bytes@[0],
                bytes@.len() >= 1,
                rest == bytes@.skip(1),
                i <= rest.len(),
                forall|j: int| 0 <= j < i ==> rest[j] == 1,
                types@ == Seq::new(i as nat, |j: int| SecurityType::NoSecurity),
            decreases n - i,
        {
            let at = 1 + i as usize;
            if at >= bytes.len() {
                return Err(RfbError::Incomplete);
            }
            match SecurityType::read_from(slice_from(bytes, at)) {
                Ok((t, _)) => {
                    types.push(t);
                },
                Err(e) => {
                    proof {
                        assert(rest[i as int] != 1);
                        assert(first_bad_type(rest, n as int) == i) by {
                            let f = first_bad_type(rest, n as int);
                            assert(0 <= i < n && i < rest.len() && rest[i as int] != 1
                                && forall|j: int| 0 <= j < i ==> rest[j] == 1);
                            if f < i {
                                assert(rest[f] == 1);
                            } else if f > i {
                            }
                        }
                    }
                    return Err(e);
                },
            }
            i += 1;
            assert(types@ =~= Seq::new(i as nat, |j: int| SecurityType::NoSecurity));
        }
        Ok((SecurityTypes(types), 1 + n as usize))
    }

    fn write_to(&self, out: &mut Vec<u8>) {
        let ntypes = self.0.len();
        out.push((ntypes % 256) as u8);
        let ghost start = out@;
        let mut i: usize = 0;
        while i < self.0.len()
            invariant
                i <= self@.len(),
                out@ == start + Seq::new(i as nat, |j: int| 1u8),
            decreases self@.len() - i,
        {
            self.0[i].write_to(out);
            i += 1;
            assert(out@ =~= start + Seq::new(i as nat, |j: int| 1u8));
        }
        assert(out@ =~= old(out)@ + types_wire(self@));
    }
}

/// The bytes of `bytes` from position `at` on.
fn slice_from(bytes: &[u8], at: usize) -> (s: &[u8])
    requires
        at <= bytes@.len(),
    ensures
        s@ == bytes@.skip(at as int),
{
    vstd::slice::slice_subrange(bytes, at, bytes.len())
}

/// The server's verdict on the security handshake.
#[derive(Debug, PartialEq, Eq, Structural, Clone, Copy)]
pub enum SecurityResult {
    Success,
    Failed,
}

impl View for SecurityResult {
    type V = SecurityResult;

    open spec fn view(&self) -> SecurityResult {
        *self
    }
}

impl Message for SecurityResult {
    open spec fn can_read() -> bool {
        false
    }

    open spec fn can_write() -> bool {
        true
    }

    open spec fn parse(bytes: Seq<u8>) -> Result<(SecurityResult, nat), RfbError> {
        Err(RfbError::Incomplete)
    }

    open spec fn writable(v: SecurityResult) -> bool {
        true
    }

    /// A 32-bit big-endian word: 0 for success, 1 for failure.
    open spec fn wire(v: SecurityResult) -> Seq<u8> {
        match v {
            SecurityResult::Success => be32(0),
            SecurityResult::Failed => be32(1),
        }
    }

    fn read_from(bytes: &[u8]) -> (r: Result<(SecurityResult, usize), RfbError>) {
        unreached()
    }

    fn write_to(&self, out: &mut Vec<u8>) {
        match self {
            SecurityResult::Success => push_be32(out, 0),
            SecurityResult::Failed => push_be32(out, 1),
        }
    }
}

/// Whether the client asks to share the desktop with other clients.
#[derive(Debug, PartialEq, Eq, Structural, Clone, Copy)]
pub enum ClientInit {
    Exclusive,
    Shared,
}

impl View for ClientInit {
    type V = ClientInit;

    open spec fn view(&self) -> ClientInit {
        *self
    }
}

impl Message for ClientInit {
    open spec fn can_read() -> bool {
        true
    }

    open spec fn can_write() -> bool {
        false
    }

    open spec fn parse(bytes: Seq<u8>) -> Result<(ClientInit, nat), RfbError> {
        if bytes.len() < 1 {
            Err(RfbError::Incomplete)
        } else if bytes[0] == 0 {
            Ok((ClientInit::Exclusive, 1))
        } else if bytes[0] == 1 {
            Ok((ClientInit::Shared, 1))
        } else {
            Err(RfbError::InvalidClientInit(bytes[0]))
        }
    }

    open spec fn writable(v: ClientInit) -> bool {
        true
    }

    open spec fn wire(v: ClientInit) -> Seq<u8> {
        Seq::empty()
    }

    fn read_from(bytes: &[u8]) -> (r: Result<(ClientInit, usize), RfbError>) {
        if bytes.len() < 1 {
            return Err(RfbError::Incomplete);
        }
        match bytes[0] {
            0 => Ok((ClientInit::Exclusive, 1)),
            1 => Ok((ClientInit::Shared, 1)),
            v => Err(RfbError::InvalidClientInit(v)),
        }
    }

    fn write_to(&self, out: &mut Vec<u8>) {
        unreached()
    }
}

/// How pixels are laid out in the framebuffer data sent to the client.
#[derive(Debug, Clone)]
pub struct PixelFormat {
    bits_per_pixel: u8,
    depth: u8,
    big_endian: bool,
    true_color: bool,
    red_max: u16,
    green_max: u16,
    blue_max: u16,
    red_shift: u8,
    blue_shift: u8,
    green_shift: u8,
}

/// The fields of a [`PixelFormat`].
pub struct PixelFormatView {
    pub bits_per_pixel: u8,
    pub depth: u8,
    pub big_endian: bool,
    pub true_color: bool,
    pub red_max: u16,
    pub green_max: u16,
    pub blue_max: u16,
    pub red_shift: u8,
    pub blue_shift: u8,
    pub green_shift: u8,
}

impl View for PixelFormat {
    type V = PixelFormatView;

    closed spec fn view(&self) -> PixelFormatView {
        PixelFormatView {
            bits_per_pixel: self.bits_per_pixel,
            depth: self.depth,
            big_endian: self.big_endian,
            true_color: self.true_color,
            red_max: self.red_max,
            green_max: self.green_max,
            blue_max: self.blue_max,
            red_shift: self.red_shift,
            blue_shift: self.blue_shift,
            green_shift: self.green_shift,
        }
    }
}

/// A flag as one byte.
pub open spec fn flag_byte(b: bool) -> u8 {
    if b {
        1
    } else {
        0
    }
}

/// The bytes of a pixel format: the maxima in the order red, blue, green,
/// the shifts in the order red, blue, green, then 3 bytes of padding.
pub open spec fn pixel_format_wire(v: PixelFormatView) -> Seq<u8> {
    seq![v.bits_per_pixel, v.depth, flag_byte(v.big_endian), flag_byte(v.true_color)] + be16(
        v.red_max,
    ) + be16(v.blue_max) + be16(v.green_max) + seq![v.red_shift, v.blue_shift, v.green_shift]
        + seq![0u8, 0u8, 0u8]
}

impl Message for PixelFormat {
    open spec fn can_read() -> bool {
        false
    }

    open spec fn can_write() -> bool {
        true
    }

    open spec fn parse(bytes: Seq<u8>) -> Result<(PixelFormatView, nat), RfbError> {
        Err(RfbError::Incomplete)
    }

    open spec fn writable(v: PixelFormatView) -> bool {
        true
    }

    open spec fn wire(v: PixelFormatView) -> Seq<u8> {
        pixel_format_wire(v)
    }

    fn read_from(bytes: &[u8]) -> (r: Result<(PixelFormat, usize), RfbError>) {
        unreached()
    }

    fn write_to(&self, out: &mut Vec<u8>) {
        out.push(self.bits_per_pixel);
        out.push(self.depth);
        out.push(if self.big_endian { 1u8 } else { 0u8 });
        out.push(if self.true_color { 1u8 } else { 0u8 });
        push_be16(out, self.red_max);
        push_be16(out, self.blue_max);
        push_be16(out, self.green_max);
        out.push(self.red_shift);
        out.push(self.blue_shift);
        out.push(self.green_shift);
        out.push(0u8);
        out.push(0u8);
        out.push(0u8);
        assert(out@ =~= old(out)@ + pixel_format_wire(self@));
    }
}

/// The pixel format the server uses: 32 bits per pixel, depth 24, true
/// colour, 8 bits per channel.
pub open spec fn default_pixel_format() -> PixelFormatView {
    PixelFormatView {
        bits_per_pixel: 32,
        depth: 24,
        big_endian: false,
        true_color: true,
        red_max: 255,
        green_max: 255,
        blue_max: 255,
        red_shift: 0,
        blue_shift: 8,
        green_shift: 16,
    }
}

impl Default for PixelFormat {
    fn default() -> (p: PixelFormat)
        ensures
            p@ == default_pixel_format(),
    {
        PixelFormat {
            bits_per_pixel: 32,
            depth: 24,
            big_endian: false,
            true_color: true,
            red_max: 255,
            green_max: 255,
            blue_max: 255,
            red_shift: 0,
            blue_shift: 8,
            green_shift: 16,
        }
    }
}

/// The server's description of its desktop, sent once the client is ready.
#[derive(Debug, Clone)]
pub struct ServerInit {
    fb_width: u16,
    fb_height: u16,
    pixel_fmt: PixelFormat,
    name: String,
}

/// The fields of a [`ServerInit`].
pub struct ServerInitView {
    pub fb_width: u16,
    pub fb_height: u16,
    pub pixel_fmt: PixelFormatView,
    pub name: Seq<char>,
}

impl View for ServerInit {
    type V = ServerInitView;

    closed spec fn view(&self) -> ServerInitView {
        ServerInitView {
            fb_width: self.fb_width,
            fb_height: self.fb_height,
            pixel_fmt: self.pixel_fmt@,
            name: self.name@,
        }
    }
}

impl Message for ServerInit {
    open spec fn can_read() -> bool {
        false
    }

    open spec fn can_write() -> bool {
        true
    }

    open spec fn parse(bytes: Seq<u8>) -> Result<(ServerInitView, nat), RfbError> {
        Err(RfbError::Incomplete)
    }

    /// The name's length travels as 32 bits.
    open spec fn writable(v: ServerInitView) -> bool {
        vstd::utf8::encode_utf8(v.name).len() <= u32::MAX
    }

    /// Width and height, the pixel format, then the name's length in bytes
    /// and its UTF-8 bytes.
    open spec fn wire(v: ServerInitView) -> Seq<u8> {
        be16(v.fb_width) + be16(v.fb_height) + pixel_format_wire(v.pixel_fmt) + be32(
            vstd::utf8::encode_utf8(v.name).len() as u32,
        ) + vstd::utf8::encode_utf8(v.name)
    }

    fn read_from(bytes: &[u8]) -> (r: Result<(ServerInit, usize), RfbError>) {
        unreached()
    }

    fn write_to(&self, out: &mut Vec<u8>) {
        push_be16(out, self.fb_width);
        push_be16(out, self.fb_height);
        self.pixel_fmt.write_to(out);
        let bytes = self.name.as_str().as_bytes();
        let len = bytes.len() as u32;
        push_be32(out, len);
        push_bytes(out, bytes);
        assert(out@ =~= old(out)@ + Self::wire(self@));
    }
}

impl Default for ServerInit {
    fn default() -> (s: ServerInit)
        ensures
            s@.fb_width == 1024,
            s@.fb_height == 748,
            s@.pixel_fmt == default_pixel_format(),
            s@.name == "propolis-vnc-server"@,
    {
        ServerInit {
            fb_width: 1024,
            fb_height: 748,
            pixel_fmt: PixelFormat::default(),
            name: "propolis-vnc-server".to_string(),
        }
    }
}

/// Types of the messages the server sends once the session runs.
#[derive(Debug, PartialEq, Eq, Structural, Clone, Copy)]
pub enum ServerMessageType {
    FramebufferUpdate,
    SetColorMapEntries,
    Bell,
    ServerCutText,
}

/// The type byte of a server message.
pub open spec fn server_message_tag(t: ServerMessageType) -> u8 {
    match t {
        ServerMessageType::FramebufferUpdate => 0,
        ServerMessageType::SetColorMapEntries => 1,
        ServerMessageType::Bell => 2,
        ServerMessageType::ServerCutText => 3,
    }
}

impl From<ServerMessageType> for u8 {
    fn from(t: ServerMessageType) -> (r: u8) {
        match t {
            ServerMessageType::FramebufferUpdate => 0,
            ServerMessageType::SetColorMapEntries => 1,
            ServerMessageType::Bell => 2,
            ServerMessageType::ServerCutText => 3,
        }
    }
}

impl vstd::std_specs::convert::FromSpecImpl<ServerMessageType> for u8 {
    open spec fn obeys_from_spec() -> bool {
        true
    }

    open spec fn from_spec(t: ServerMessageType) -> u8 {
        server_message_tag(t)
    }
}

/// Encodings of rectangle data.
#[derive(Debug, PartialEq, Eq, Structural, Clone, Copy)]
pub enum Encoding {
    Raw,
}

/// The 32-bit signed number of an encoding.
pub open spec fn encoding_number(e: Encoding) -> i32 {
    match e {
        Encoding::Raw => 0,
    }
}

impl From<Encoding> for i32 {
    fn from(e: Encoding) -> (r: i32) {
        match e {
            Encoding::Raw => 0,
        }
    }
}

impl vstd::std_specs::convert::FromSpecImpl<Encoding> for i32 {
    open spec fn obeys_from_spec() -> bool {
        true
    }

    open spec fn from_spec(e: Encoding) -> i32 {
        encoding_number(e)
    }
}

/// A rectangle of pixel data in a framebuffer update.
#[derive(Debug, Clone)]
pub struct Rectangle {
    x_pos: u16,
    y_pos: u16,
    width: u16,
    height: u16,
    encoding: Encoding,
    pixels: Vec<u8>,
}

/// The fields of a [`Rectangle`].
pub struct RectangleView {
    pub x_pos: u16,
    pub y_pos: u16,
    pub width: u16,
    pub height: u16,
    pub encoding: Encoding,
    pub pixels: Seq<u8>,
}

impl View for Rectangle {
    type V = RectangleView;

    closed spec fn view(&self) -> RectangleView {
        RectangleView {
            x_pos: self.x_pos,
            y_pos: self.y_pos,
            width: self.width,
            height: self.height,
            encoding: self.encoding,
            pixels: self.pixels@,
        }
    }
}

/// The bytes of a rectangle: position, size, the encoding as a 32-bit
/// big-endian signed number, then the pixel data.
pub open spec fn rectangle_wire(r: RectangleView) -> Seq<u8> {
    be16(r.x_pos) + be16(r.y_pos) + be16(r.width) + be16(r.height) + be32(
        encoding_number(r.encoding) as u32,
    ) + r.pixels
}

impl Message for Rectangle {
    open spec fn can_read() -> bool {
        false
    }

    open spec fn can_write() -> bool {
        true
    }

    open spec fn parse(bytes: Seq<u8>) -> Result<(RectangleView, nat), RfbError> {
        Err(RfbError::Incomplete)
    }

    open spec fn writable(v: RectangleView) -> bool {
        true
    }

    open spec fn wire(v: RectangleView) -> Seq<u8> {
        rectangle_wire(v)
    }

    fn read_from(bytes: &[u8]) -> (r: Result<(Rectangle, usize), RfbError>) {
        unreached()
    }

    fn write_to(&self, out: &mut Vec<u8>) {
        push_be16(out, self.x_pos);
        push_be16(out, self.y_pos);
        push_be16(out, self.width);
        push_be16(out, self.height);
        let e: i32 = self.encoding.into();
        push_be32(out, e as u32);
        push_bytes(out, self.pixels.as_slice());
        assert(out@ =~= old(out)@ + rectangle_wire(self@));
    }
}

impl Rectangle {
    pub fn new(x: u16, y: u16, w: u16, h: u16, e: Encoding, pixels: Vec<u8>) -> (r: Rectangle)
        ensures
            r@ == (RectangleView {
                x_pos: x,
                y_pos: y,
                width: w,
                height: h,
                encoding: e,
                pixels: pixels@,
            }),
    {
        Rectangle { x_pos: x, y_pos: y, width: w, height: h, encoding: e, pixels }
    }
}

/// An update of framebuffer contents, made of rectangles.
#[derive(Debug, Clone)]
pub struct FramebufferUpdate {
    rectangles: Vec<Rectangle>,
}

impl View for FramebufferUpdate {
    type V = Seq<RectangleView>;

    closed spec fn view(&self) -> Seq<RectangleView> {
        self.rectangles@.map_values(|r: Rectangle| r@)
    }
}

/// The bytes of the rectangles, one after another.
pub open spec fn rectangles_wire(rs: Seq<RectangleView>) -> Seq<u8>
    decreases rs.len(),
{
    if rs.len() == 0 {
        Seq::empty()
    } else {
        rectangles_wire(rs.drop_last()) + rectangle_wire(rs.last())
    }
}

impl Message for FramebufferUpdate {
    open spec fn can_read() -> bool {
        false
    }

    open spec fn can_write() -> bool {
        true
    }

    open spec fn parse(bytes: Seq<u8>) -> Result<(Seq<RectangleView>, nat), RfbError> {
        Err(RfbError::Incomplete)
    }

    /// The number of rectangles travels as 16 bits.
    open spec fn writable(v: Seq<RectangleView>) -> bool {
        v.len() <= u16::MAX
    }

    /// The message type, a byte of padding, the number of rectangles, then
    /// the rectangles.
    open spec fn wire(v: Seq<RectangleView>) -> Seq<u8> {
        seq![server_message_tag(ServerMessageType::FramebufferUpdate), 0u8] + be16(v.len() as u16)
            + rectangles_wire(v)
    }

    fn read_from(bytes: &[u8]) -> (r: Result<(FramebufferUpdate, usize), RfbError>) {
        unreached()
    }

    fn write_to(&self, out: &mut Vec<u8>) {
        let t: u8 = ServerMessageType::FramebufferUpdate.into();
        out.push(t);
        out.push(0u8);
        let num_rectangles = self.rectangles.len() as u16;
        push_be16(out, num_rectangles);
        let ghost start = out@;
        let mut i: usize = 0;
        while i < self.rectangles.len()
            invariant
                i <= self.rectangles@.len(),
                out@ == start + rectangles_wire(self@.take(i as int)),
            decreases self.rectangles@.len() - i,
        {
            self.rectangles[i].write_to(out);
            i += 1;
            assert(self@.take(i as int).drop_last() =~= self@.take(i - 1));
        }
        assert(self@.take(i as int) =~= self@);
        assert(out@ =~= old(out)@ + Self::wire(self@));
    }
}

impl FramebufferUpdate {
    pub fn new(rectangles: Vec<Rectangle>) -> (u: FramebufferUpdate)
        ensures
            u@ == rectangles@.map_values(|r: Rectangle| r@),
    {
        FramebufferUpdate { rectangles }
    }
}

/// A client's request for framebuffer contents.
#[derive(Debug, Clone)]
pub struct FramebufferUpdateRequest {
    pub incremental: bool,
    pub x_position: u16,
    pub y_position: u16,
    pub width: u16,
    pub height: u16,
}

/// Raw pixel data of a rectangle.
#[derive(Debug, Clone)]
pub struct RawEncoding {
    pub width: u16,
    pub height: u16,
    pub bytes_per_pixel: u8,
    pub pixels: Vec<u32>,
}

/// Reading what was written gives the protocol version back.
pub proof fn lemma_proto_version_roundtrip(v: ProtoVersion, rest: Seq<u8>)
    ensures
        <ProtoVersion as Message>::parse(<ProtoVersion as Message>::wire(v) + rest) == Ok::<
            (ProtoVersion, nat),
            RfbError,
        >((v, 12)),
{
    let w = <ProtoVersion as Message>::wire(v) + rest;
    assert(w.take(12) =~= rfb38_bytes());
    match v {
        ProtoVersion::Rfb38 => {},
    }
}

/// Reading what was written gives the security type back.
pub proof fn lemma_security_type_roundtrip(t: SecurityType, rest: Seq<u8>)
    ensures
        <SecurityType as Message>::parse(<SecurityType as Message>::wire(t) + rest) == Ok::<
            (SecurityType, nat),
            RfbError,
        >((t, 1)),
{
    match t {
        SecurityType::NoSecurity => {},
    }
}

/// Reading what was written gives the list of security types back, when the
/// list is short enough for its count to fit in a byte.
pub proof fn lemma_security_types_roundtrip(types: Seq<SecurityType>, rest: Seq<u8>)
    requires
        types.len() <= 255,
    ensures
        <SecurityTypes as Message>::parse(<SecurityTypes as Message>::wire(types) + rest)
            == Ok::<(Seq<SecurityType>, nat), RfbError>((types, types.len() + 1)),
{
    let w = types_wire(types) + rest;
    assert(w[0] == types.len());
    let r = w.skip(1);
    assert forall|i: int| 0 <= i < types.len() && i < r.len() implies r[i] == 1 by {
        assert(r[i] == w[i + 1]);
    }
    assert forall|i: int| 0 <= i < types.len() implies types[i] == SecurityType::NoSecurity by {
        match types[i] {
            SecurityType::NoSecurity => {},
        }
    }
    assert(Seq::new(types.len(), |i: int| SecurityType::NoSecurity) =~= types);
}

} // verus!
