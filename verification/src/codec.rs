//! Framing of messages in the live-migration protocol.
//!
//! A frame is a 5-byte header, a 32-bit little-endian length that counts the
//! header too, followed by a tag byte naming the frame type, and then the
//! frame data.  Structured values travel as text, blobs and 4 KiB pages as
//! uninterpreted bytes, and the memory-transfer messages as a start and an
//! end address (each 64-bit little endian) followed by a page bitmap.  The
//! framer does not check that a bitmap agrees with its address range:
//! higher layers do (see [`crate::memx`]).

use crate::buf::{
    buf_advance, buf_as_slice, buf_contents, buf_get_u64_le, buf_put, buf_put_u64_le, buf_put_u32_le,
    buf_put_u8, buf_remaining, buf_reserve,
};
use bytes::BytesMut;
use vstd::bytes::*;
use vstd::prelude::*;
use vstd::slice::{slice_subrange, slice_to_vec};
use vstd::utf8::*;

verus! {

broadcast use vstd::seq_lib::group_seq_properties;

/// Errors of the migration wire format.
#[derive(Debug, PartialEq, Eq, Structural, Clone, Copy)]
pub enum ProtocolError {
    /// The tag byte names no message type.
    InvalidMessageType(u8),
    /// The frame's length does not suit its type.
    UnexpectedMessageLen,
    /// A text frame did not hold UTF-8.
    Utf8,
}

/// Tags that identify frame types on the wire.  They are in bijection with
/// the variants of [`Message`].
#[derive(Debug, PartialEq, Eq, Structural, Clone, Copy)]
pub enum MessageType {
    Okay,
    Error,
    Serialized,
    Blob,
    Page,
    MemQuery,
    MemOffer,
    MemEnd,
    MemFetch,
    MemXfer,
    MemDone,
}

/// The messages of the live-migration protocol.  An `Error` frame carries
/// the text form of the sender's error.
#[derive(Debug)]
pub enum Message {
    Okay,
    Error(String),
    Serialized(String),
    Blob(Vec<u8>),
    Page(Vec<u8>),
    MemQuery(u64, u64),
    MemOffer(u64, u64, Vec<u8>),
    MemEnd(u64, u64),
    MemFetch(u64, u64, Vec<u8>),
    MemXfer(u64, u64, Vec<u8>),
    MemDone,
}

/// The mathematical value of a [`Message`].
pub enum MessageView {
    Okay,
    Error(Seq<char>),
    Serialized(Seq<char>),
    Blob(Seq<u8>),
    Page(Seq<u8>),
    MemQuery(u64, u64),
    MemOffer(u64, u64, Seq<u8>),
    MemEnd(u64, u64),
    MemFetch(u64, u64, Seq<u8>),
    MemXfer(u64, u64, Seq<u8>),
    MemDone,
}

impl View for Message {
    type V = MessageView;

    open spec fn view(&self) -> MessageView {
        match self {
            Message::Okay => MessageView::Okay,
            Message::Error(s) => MessageView::Error(s@),
            Message::Serialized(s) => MessageView::Serialized(s@),
            Message::Blob(b) => MessageView::Blob(b@),
            Message::Page(p) => MessageView::Page(p@),
            Message::MemQuery(s, e) => MessageView::MemQuery(*s, *e),
            Message::MemOffer(s, e, b) => MessageView::MemOffer(*s, *e, b@),
            Message::MemEnd(s, e) => MessageView::MemEnd(*s, *e),
            Message::MemFetch(s, e, b) => MessageView::MemFetch(*s, *e, b@),
            Message::MemXfer(s, e, b) => MessageView::MemXfer(*s, *e, b@),
            Message::MemDone => MessageView::MemDone,
        }
    }
}

impl MessageType {
    /// The tag byte of a message type.
    pub open spec fn spec_tag(self) -> u8 {
        match self {
            MessageType::Okay => 0,
            MessageType::Error => 1,
            MessageType::Serialized => 2,
            MessageType::Blob => 3,
            MessageType::Page => 4,
            MessageType::MemQuery => 5,
            MessageType::MemOffer => 6,
            MessageType::MemEnd => 7,
            MessageType::MemFetch => 8,
            MessageType::MemXfer => 9,
            MessageType::MemDone => 10,
        }
    }

    /// The message type that a tag byte names, if any.
    pub open spec fn spec_from_tag(tag: u8) -> Option<MessageType> {
        if tag == 0 {
            Some(MessageType::Okay)
        } else if tag == 1 {
            Some(MessageType::Error)
        } else if tag == 2 {
            Some(MessageType::Serialized)
        } else if tag == 3 {
            Some(MessageType::Blob)
        } else if tag == 4 {
            Some(MessageType::Page)
        } else if tag == 5 {
            Some(MessageType::MemQuery)
        } else if tag == 6 {
            Some(MessageType::MemOffer)
        } else if tag == 7 {
            Some(MessageType::MemEnd)
        } else if tag == 8 {
            Some(MessageType::MemFetch)
        } else if tag == 9 {
            Some(MessageType::MemXfer)
        } else if tag == 10 {
            Some(MessageType::MemDone)
        } else {
            None
        }
    }

    /// The type of a message.
    pub open spec fn spec_of(m: MessageView) -> MessageType {
        match m {
            MessageView::Okay => MessageType::Okay,
            MessageView::Error(_) => MessageType::Error,
            MessageView::Serialized(_) => MessageType::Serialized,
            MessageView::Blob(_) => MessageType::Blob,
            MessageView::Page(_) => MessageType::Page,
            MessageView::MemQuery(_, _) => MessageType::MemQuery,
            MessageView::MemOffer(_, _, _) => MessageType::MemOffer,
            MessageView::MemEnd(_, _) => MessageType::MemEnd,
            MessageView::MemFetch(_, _, _) => MessageType::MemFetch,
            MessageView::MemXfer(_, _, _) => MessageType::MemXfer,
            MessageView::MemDone => MessageType::MemDone,
        }
    }

    /// The tag byte of this message type.
    pub fn tag(self) -> (t: u8)
        ensures
            t == self.spec_tag(),
    {
        match self {
            MessageType::Okay => 0,
            MessageType::Error => 1,
            MessageType::Serialized => 2,
            MessageType::Blob => 3,
            MessageType::Page => 4,
            MessageType::MemQuery => 5,
            MessageType::MemOffer => 6,
            MessageType::MemEnd => 7,
            MessageType::MemFetch => 8,
            MessageType::MemXfer => 9,
            MessageType::MemDone => 10,
        }
    }

    /// The message type named by a tag byte; the byte itself when it names none.
    pub fn try_from(number: u8) -> (r: Result<MessageType, u8>)
        ensures
            match MessageType::spec_from_tag(number) {
                Some(t) => r == Ok::<MessageType, u8>(t),
                None => r == Err::<MessageType, u8>(number),
            },
    {
        match number {
            0 => Ok(MessageType::Okay),
            1 => Ok(MessageType::Error),
            2 => Ok(MessageType::Serialized),
            3 => Ok(MessageType::Blob),
            4 => Ok(MessageType::Page),
            5 => Ok(MessageType::MemQuery),
            6 => Ok(MessageType::MemOffer),
            7 => Ok(MessageType::MemEnd),
            8 => Ok(MessageType::MemFetch),
            9 => Ok(MessageType::MemXfer),
            10 => Ok(MessageType::MemDone),
            _ => Err(number),
        }
    }

    /// The type of a message.
    pub fn of(m: &Message) -> (t: MessageType)
        ensures
            t == MessageType::spec_of(m@),
    {
        match m {
            Message::Okay => MessageType::Okay,
            Message::Error(_) => MessageType::Error,
            Message::Serialized(_) => MessageType::Serialized,
            Message::Blob(_) => MessageType::Blob,
            Message::Page(_) => MessageType::Page,
            Message::MemQuery(_, _) => MessageType::MemQuery,
            Message::MemOffer(_, _, _) => MessageType::MemOffer,
            Message::MemEnd(_, _) => MessageType::MemEnd,
            Message::MemFetch(_, _, _) => MessageType::MemFetch,
            Message::MemXfer(_, _, _) => MessageType::MemXfer,
            Message::MemDone => MessageType::MemDone,
        }
    }
}

/// Start and end address as they travel on the wire.
pub open spec fn range_bytes(start: u64, end: u64) -> Seq<u8> {
    spec_u64_to_le_bytes(start) + spec_u64_to_le_bytes(end)
}

/// The frame data of a message.
pub open spec fn payload(m: MessageView) -> Seq<u8> {
    match m {
        MessageView::Okay => Seq::empty(),
        MessageView::Error(text) => encode_utf8(text),
        MessageView::Serialized(text) => encode_utf8(text),
        MessageView::Blob(b) => b,
        MessageView::Page(p) => p,
        MessageView::MemQuery(s, e) => range_bytes(s, e),
        MessageView::MemOffer(s, e, b) => range_bytes(s, e) + b,
        MessageView::MemEnd(s, e) => range_bytes(s, e),
        MessageView::MemFetch(s, e, b) => range_bytes(s, e) + b,
        MessageView::MemXfer(s, e, b) => range_bytes(s, e) + b,
        MessageView::MemDone => Seq::empty(),
    }
}

/// The complete frame of a message: the length (header included, cut to
/// 32 bits), the tag, and the frame data.
pub open spec fn frame(m: MessageView) -> Seq<u8> {
    spec_u32_to_le_bytes(#[verifier::truncate] ((payload(m).len() + 5) as u32)) + seq![MessageType::spec_of(m).spec_tag()]
        + payload(m)
}

/// What decoding the front of a buffer yields.
pub enum Decoded {
    /// The buffer does not yet hold a complete frame; nothing is consumed.
    Incomplete,
    /// A message, and the number of bytes consumed from the front.
    Frame(MessageView, nat),
    /// An error, and the number of bytes consumed from the front before it.
    Failed(ProtocolError, nat),
}

/// The length field of the frame at the front of `s`.
pub open spec fn frame_len(s: Seq<u8>) -> int {
    spec_u32_from_le_bytes(s.take(4)) as int
}

/// Decoding the data `d` (`n` bytes) of a frame of type `t`, once its header
/// has been consumed.  Start and end addresses take 16 bytes; every frame
/// consumes the bytes its length field gives, the header included.
pub open spec fn decode_data(t: MessageType, d: Seq<u8>, n: int) -> Decoded {
    match t {
        MessageType::Okay => Decoded::Frame(MessageView::Okay, 5),
        MessageType::MemDone => Decoded::Frame(MessageView::MemDone, 5),
        MessageType::Error => if valid_utf8(d.take(n)) {
            Decoded::Frame(MessageView::Error(decode_utf8(d.take(n))), (5 + n) as nat)
        } else {
            Decoded::Failed(ProtocolError::Utf8, 5)
        },
        MessageType::Serialized => if valid_utf8(d.take(n)) {
            Decoded::Frame(MessageView::Serialized(decode_utf8(d.take(n))), (5 + n) as nat)
        } else {
            Decoded::Failed(ProtocolError::Utf8, 5)
        },
        MessageType::Blob => Decoded::Frame(MessageView::Blob(d.take(n)), (5 + n) as nat),
        MessageType::Page => if n != 4096 {
            Decoded::Failed(ProtocolError::UnexpectedMessageLen, 5)
        } else {
            Decoded::Frame(MessageView::Page(d.take(n)), (5 + n) as nat)
        },
        _ => if n < 16 {
            Decoded::Failed(ProtocolError::UnexpectedMessageLen, 5)
        } else {
            let start = spec_u64_from_le_bytes(d.take(8));
            let end = spec_u64_from_le_bytes(d.subrange(8, 16));
            let bitmap = d.subrange(16, n);
            match t {
                MessageType::MemQuery => Decoded::Frame(MessageView::MemQuery(start, end), (5 + n) as nat),
                MessageType::MemEnd => Decoded::Frame(MessageView::MemEnd(start, end), (5 + n) as nat),
                MessageType::MemOffer => Decoded::Frame(MessageView::MemOffer(start, end, bitmap), (5 + n) as nat),
                MessageType::MemFetch => Decoded::Frame(MessageView::MemFetch(start, end, bitmap), (5 + n) as nat),
                _ => Decoded::Frame(MessageView::MemXfer(start, end, bitmap), (5 + n) as nat),
            }
        },
    }
}

/// Decoding the front of the byte sequence `s`.
pub open spec fn decode_front(s: Seq<u8>) -> Decoded {
    if s.len() < 5 {
        Decoded::Incomplete
    } else {
        match MessageType::spec_from_tag(s[4]) {
            None => Decoded::Failed(ProtocolError::InvalidMessageType(s[4]), 0),
            Some(t) => if frame_len(s) < 5 {
                Decoded::Failed(ProtocolError::UnexpectedMessageLen, 0)
            } else if s.len() < frame_len(s) {
                Decoded::Incomplete
            } else {
                decode_data(t, s.skip(5), frame_len(s) - 5)
            },
        }
    }
}

/// A buffer that holds a valid header but not yet the whole frame it
/// announces: decoding then makes room for the rest of the frame.
pub open spec fn decode_waits(s: Seq<u8>) -> bool {
    &&& s.len() >= 5
    &&& MessageType::spec_from_tag(s[4]) is Some
    &&& frame_len(s) >= 5
    &&& s.len() < frame_len(s)
}

/// The frames on which decoding stops the program: an `Okay` or a `MemDone`
/// frame that carries data.
pub open spec fn decode_aborts(s: Seq<u8>) -> bool {
    &&& s.len() >= 5
    &&& (MessageType::spec_from_tag(s[4]) == Some(MessageType::Okay)
        || MessageType::spec_from_tag(s[4]) == Some(MessageType::MemDone))
    &&& frame_len(s) > 5
    &&& s.len() >= frame_len(s)
}

/// `std::str::from_utf8`: the text that `v` encodes, when `v` is valid UTF-8.
#[verifier::external_body]
fn str_from_utf8(v: &[u8]) -> (r: Option<&str>)
    ensures
        r is Some <==> valid_utf8(v@),
        r matches Some(s) ==> s@ == decode_utf8(v@),
{
    std::str::from_utf8(v).ok()
}

/// Encoder and decoder of migration frames over a [`bytes::BytesMut`].
pub struct LiveMigrationFramer {}

impl LiveMigrationFramer {
    /// Creates a framer, the right to encode and decode messages.
    pub fn new() -> LiveMigrationFramer {
        LiveMigrationFramer {}
    }

    /// Reserves room in `dst` for a whole frame with `len` bytes of data,
    /// then writes the frame's header.
    fn put_header(&mut self, tag: MessageType, len: usize, dst: &mut BytesMut)
        requires
            buf_contents(*old(dst)).len() + len + 5 <= isize::MAX,
        ensures
            buf_contents(*final(dst)) == buf_contents(*old(dst)) + spec_u32_to_le_bytes(
                #[verifier::truncate] ((len + 5) as u32),
            ) + seq![tag.spec_tag()],
    {
        let len = len + 5;
        buf_reserve(dst, len);
        proof {
            lemma_auto_spec_u32_to_from_le_bytes();
        }
        buf_put_u32_le(dst, #[verifier::truncate] (len as u32));
        buf_put_u8(dst, tag.tag());
    }

    fn put_start_end(&mut self, start: u64, end: u64, dst: &mut BytesMut)
        requires
            buf_contents(*old(dst)).len() + 16 <= isize::MAX,
        ensures
            buf_contents(*final(dst)) == buf_contents(*old(dst)) + range_bytes(start, end),
    {
        proof {
            lemma_auto_spec_u64_to_from_le_bytes();
        }
        buf_put_u64_le(dst, start);
        buf_put_u64_le(dst, end);
    }

    fn put_bitmap(&mut self, bitmap: &[u8], dst: &mut BytesMut)
        requires
            buf_contents(*old(dst)).len() + bitmap@.len() <= isize::MAX,
        ensures
            buf_contents(*final(dst)) == buf_contents(*old(dst)) + bitmap@,
    {
        buf_put(dst, bitmap);
    }

    /// Appends the frame of `m` to `dst`.
    pub fn encode(&mut self, m: Message, dst: &mut BytesMut)
        requires
            buf_contents(*old(dst)).len() + frame(m@).len() <= isize::MAX,
        ensures
            buf_contents(*final(dst)) == buf_contents(*old(dst)) + frame(m@),
    {
        let ghost old_contents = buf_contents(*dst);
        let tag = MessageType::of(&m);
        proof {
            lemma_auto_spec_u32_to_from_le_bytes();
            lemma_auto_spec_u64_to_from_le_bytes();
        }
        match m {
            Message::Okay => {
                self.put_header(tag, 0, dst);
            },
            Message::Error(e) => {
                let bytes = e.as_str().as_bytes();
                self.put_header(tag, bytes.len(), dst);
                buf_put(dst, bytes);
            },
            Message::Serialized(s) => {
                let bytes = s.as_str().as_bytes();
                self.put_header(tag, bytes.len(), dst);
                buf_put(dst, bytes);
            },
            Message::Blob(bytes) => {
                self.put_header(tag, bytes.len(), dst);
                buf_put(dst, bytes.as_slice());
            },
            Message::Page(page) => {
                self.put_header(tag, page.len(), dst);
                buf_put(dst, page.as_slice());
            },
            Message::MemQuery(start, end) => {
                self.put_header(tag, 8 + 8, dst);
                self.put_start_end(start, end, dst);
            },
            Message::MemOffer(start, end, bitmap) => {
                self.put_header(tag, 8 + 8 + bitmap.len(), dst);
                self.put_start_end(start, end, dst);
                self.put_bitmap(bitmap.as_slice(), dst);
            },
            Message::MemEnd(start, end) => {
                self.put_header(tag, 8 + 8, dst);
                self.put_start_end(start, end, dst);
            },
            Message::MemFetch(start, end, bitmap) => {
                self.put_header(tag, 8 + 8 + bitmap.len(), dst);
                self.put_start_end(start, end, dst);
                self.put_bitmap(bitmap.as_slice(), dst);
            },
            Message::MemXfer(start, end, bitmap) => {
                self.put_header(tag, 8 + 8 + bitmap.len(), dst);
                self.put_start_end(start, end, dst);
                self.put_bitmap(bitmap.as_slice(), dst);
            },
            Message::MemDone => {
                self.put_header(tag, 0, dst);
            },
        }
    }
    /// Reads the start and end addresses at the front of `src`, given that
    /// `len` bytes of frame data remain; returns the data left after them.
    fn get_start_end(&mut self, len: usize, src: &mut BytesMut) -> (r: Result<
        (usize, u64, u64),
        ProtocolError,
    >)
        requires
            len < 16 || buf_contents(*old(src)).len() >= 16,
        ensures
            len < 16 ==> r == Err::<(usize, u64, u64), ProtocolError>(
                ProtocolError::UnexpectedMessageLen,
            ) && buf_contents(*final(src)) == buf_contents(*old(src)),
            len >= 16 ==> r == Ok::<(usize, u64, u64), ProtocolError>(
                (
                    (len - 16) as usize,
                    spec_u64_from_le_bytes(buf_contents(*old(src)).take(8)),
                    spec_u64_from_le_bytes(buf_contents(*old(src)).subrange(8, 16)),
                ),
            ) && buf_contents(*final(src)) == buf_contents(*old(src)).skip(16),
    {
        if len < 16 {
            return Err(ProtocolError::UnexpectedMessageLen);
        }
        let ghost before = buf_contents(*src);
        let start = buf_get_u64_le(src);
        let end = buf_get_u64_le(src);
        proof {
            assert(before.skip(8).take(8) =~= before.subrange(8, 16));
            assert(before.skip(8).skip(8) =~= before.skip(16));
        }
        Ok((len - 16, start, end))
    }

    /// Takes the `len` bytes of a bitmap from the front of `src`.
    fn get_bitmap(&mut self, len: usize, src: &mut BytesMut) -> (r: Result<
        Vec<u8>,
        ProtocolError,
    >)
        ensures
            buf_contents(*old(src)).len() < len ==> r == Err::<Vec<u8>, ProtocolError>(
                ProtocolError::UnexpectedMessageLen,
            ) && buf_contents(*final(src)) == buf_contents(*old(src)),
            buf_contents(*old(src)).len() >= len ==> (r matches Ok(v) && v@ == buf_contents(
                *old(src),
            ).take(len as int) && buf_contents(*final(src)) == buf_contents(*old(src)).skip(
                len as int,
            )),
    {
        let remaining = buf_remaining(src);
        if remaining < len {
            return Err(ProtocolError::UnexpectedMessageLen);
        }
        let v = slice_to_vec(slice_subrange(buf_as_slice(src), 0, len));
        buf_advance(src, len);
        Ok(v)
    }

    /// Takes the text of `len` bytes at the front of `src`.
    fn get_text(&mut self, len: usize, src: &mut BytesMut) -> (r: Result<String, ProtocolError>)
        requires
            len <= buf_contents(*old(src)).len(),
        ensures
            valid_utf8(buf_contents(*old(src)).take(len as int)) ==> (r matches Ok(t) && t@
                == decode_utf8(buf_contents(*old(src)).take(len as int)) && buf_contents(
                *final(src),
            ) == buf_contents(*old(src)).skip(len as int)),
            !valid_utf8(buf_contents(*old(src)).take(len as int)) ==> r == Err::<
                String,
                ProtocolError,
            >(ProtocolError::Utf8) && buf_contents(*final(src)) == buf_contents(*old(src)),
    {
        let text = match str_from_utf8(slice_subrange(buf_as_slice(src), 0, len)) {
            Some(t) => t.to_owned(),
            None => {
                return Err(ProtocolError::Utf8);
            },
        };
        buf_advance(src, len);
        Ok(text)
    }

    /// Decodes the frame at the front of `src` (see [`decode_front`]):
    /// `Ok(None)` while the frame is incomplete, leaving `src` as it was;
    /// otherwise the message or the error, with the bytes consumed before it
    /// removed from `src`.
    pub fn decode(&mut self, src: &mut BytesMut) -> (r: Result<Option<Message>, ProtocolError>)
        requires
            !decode_aborts(buf_contents(*old(src))),
            decode_waits(buf_contents(*old(src))) ==> frame_len(buf_contents(*old(src)))
                <= isize::MAX,
        ensures
            match decode_front(buf_contents(*old(src))) {
                Decoded::Incomplete => r matches Ok(None) && buf_contents(*final(src))
                    == buf_contents(*old(src)),
                Decoded::Frame(m, n) => r matches Ok(Some(msg)) && msg@ == m && buf_contents(
                    *final(src),
                ) == buf_contents(*old(src)).skip(n as int),
                Decoded::Failed(e, n) => r == Err::<Option<Message>, ProtocolError>(e)
                    && buf_contents(*final(src)) == buf_contents(*old(src)).skip(n as int),
            },
    {
        let ghost s = buf_contents(*src);
        let avail = buf_remaining(src);
        if avail < 5 {
            return Ok(None);
        }
        let tag_byte = buf_as_slice(src)[4];
        let tag = match MessageType::try_from(tag_byte) {
            Ok(t) => t,
            Err(_) => {
                return Err(ProtocolError::InvalidMessageType(tag_byte));
            },
        };
        let len32 = u32_from_le_bytes(slice_subrange(buf_as_slice(src), 0, 4));
        proof {
            assert(s.subrange(0, 4) =~= s.take(4));
        }
        let len = len32 as usize;
        if len < 5 {
            return Err(ProtocolError::UnexpectedMessageLen);
        }
        if avail < len {
            buf_reserve(src, len - avail);
            return Ok(None);
        }
        buf_advance(src, 5);
        let len = len - 5;
        let ghost d = s.skip(5);
        let m = match tag {
            MessageType::Okay => Message::Okay,
            MessageType::Error => {
                let text = match self.get_text(len, src) {
                    Ok(t) => t,
                    Err(e) => {
                        return Err(e);
                    },
                };
                Message::Error(text)
            },
            MessageType::Serialized => {
                let text = match self.get_text(len, src) {
                    Ok(t) => t,
                    Err(e) => {
                        return Err(e);
                    },
                };
                Message::Serialized(text)
            },
            MessageType::Blob => {
                let v = slice_to_vec(slice_subrange(buf_as_slice(src), 0, len));
                buf_advance(src, len);
                Message::Blob(v)
            },
            MessageType::Page => {
                if len != 4096 {
                    return Err(ProtocolError::UnexpectedMessageLen);
                }
                let p = slice_to_vec(slice_subrange(buf_as_slice(src), 0, len));
                buf_advance(src, len);
                Message::Page(p)
            },
            MessageType::MemQuery => {
                let (rest, start, end) = match self.get_start_end(len, src) {
                    Ok(v) => v,
                    Err(e) => {
                        return Err(e);
                    },
                };
                buf_advance(src, rest);
                Message::MemQuery(start, end)
            },
            MessageType::MemOffer => {
                let (len, start, end) = match self.get_start_end(len, src) {
                    Ok(v) => v,
                    Err(e) => {
                        return Err(e);
                    },
                };
                let bitmap = match self.get_bitmap(len, src) {
                    Ok(v) => v,
                    Err(e) => {
                        return Err(e);
                    },
                };
                proof {
                    assert(d.skip(16).take(len as int) =~= d.subrange(16, len + 16));
                }
                Message::MemOffer(start, end, bitmap)
            },
            MessageType::MemEnd => {
                let (rest, start, end) = match self.get_start_end(len, src) {
                    Ok(v) => v,
                    Err(e) => {
                        return Err(e);
                    },
                };
                buf_advance(src, rest);
                Message::MemEnd(start, end)
            },
            MessageType::MemFetch => {
                let (len, start, end) = match self.get_start_end(len, src) {
                    Ok(v) => v,
                    Err(e) => {
                        return Err(e);
                    },
                };
                let bitmap = match self.get_bitmap(len, src) {
                    Ok(v) => v,
                    Err(e) => {
                        return Err(e);
                    },
                };
                proof {
                    assert(d.skip(16).take(len as int) =~= d.subrange(16, len + 16));
                }
                Message::MemFetch(start, end, bitmap)
            },
            MessageType::MemXfer => {
                let (len, start, end) = match self.get_start_end(len, src) {
                    Ok(v) => v,
                    Err(e) => {
                        return Err(e);
                    },
                };
                let bitmap = match self.get_bitmap(len, src) {
                    Ok(v) => v,
                    Err(e) => {
                        return Err(e);
                    },
                };
                proof {
                    assert(d.skip(16).take(len as int) =~= d.subrange(16, len + 16));
                }
                Message::MemXfer(start, end, bitmap)
            },
            MessageType::MemDone => Message::MemDone,
        };
        Ok(Some(m))
    }
}

/// The tag byte names the message type back, and no two types share one.
pub proof fn lemma_tag_bijection(t: MessageType, b: u8)
    ensures
        MessageType::spec_from_tag(t.spec_tag()) == Some(t),
        MessageType::spec_from_tag(b) == Some(t) ==> t.spec_tag() == b,
{
}

/// Messages whose frame decoding gives back: the frame length fits in its
/// 32-bit field, and a page holds exactly 4096 bytes.
pub open spec fn encodable(m: MessageView) -> bool {
    &&& payload(m).len() + 5 <= u32::MAX
    &&& (m is Page ==> payload(m).len() == 4096)
}

proof fn lemma_range_bytes(start: u64, end: u64, tail: Seq<u8>)
    ensures
        spec_u64_from_le_bytes((range_bytes(start, end) + tail).take(8)) == start,
        spec_u64_from_le_bytes((range_bytes(start, end) + tail).subrange(8, 16)) == end,
        (range_bytes(start, end) + tail).subrange(16, 16 + tail.len() as int) == tail,
        range_bytes(start, end).len() == 16,
{
    lemma_auto_spec_u64_to_from_le_bytes();
    let r = range_bytes(start, end) + tail;
    assert(r.take(8) =~= spec_u64_to_le_bytes(start));
    assert(r.subrange(8, 16) =~= spec_u64_to_le_bytes(end));
    assert(r.subrange(16, 16 + tail.len() as int) =~= tail);
}

/// Decoding the frame that encoding writes for a message gives the message
/// back and consumes exactly that frame, whatever bytes follow it.
pub proof fn lemma_decode_encoded_frame(m: MessageView, rest: Seq<u8>)
    requires
        encodable(m),
    ensures
        decode_front(frame(m) + rest) == Decoded::Frame(m, frame(m).len()),
        !decode_aborts(frame(m) + rest),
{
    broadcast use encode_utf8_valid_utf8, encode_utf8_decode_utf8;

    lemma_auto_spec_u32_to_from_le_bytes();
    let p = payload(m);
    let t = MessageType::spec_of(m);
    let f = frame(m) + rest;
    let x = (p.len() + 5) as u32;
    assert(f.take(4) =~= spec_u32_to_le_bytes(x));
    assert(f[4] == t.spec_tag());
    assert(frame_len(f) == p.len() + 5);
    assert(f.skip(5) =~= p + rest);
    let d = f.skip(5);
    let n = p.len() as int;
    assert(d.take(n) =~= p);
    match m {
        MessageView::MemQuery(a, b) => {
            lemma_range_bytes(a, b, rest);
        },
        MessageView::MemEnd(a, b) => {
            lemma_range_bytes(a, b, rest);
        },
        MessageView::MemOffer(a, b, bm) => {
            lemma_range_bytes(a, b, bm + rest);
            assert(d =~= range_bytes(a, b) + (bm + rest));
            assert((bm + rest).subrange(0, bm.len() as int) =~= bm);
            assert(d.subrange(16, n) =~= bm);
        },
        MessageView::MemFetch(a, b, bm) => {
            lemma_range_bytes(a, b, bm + rest);
            assert(d =~= range_bytes(a, b) + (bm + rest));
            assert(d.subrange(16, n) =~= bm);
        },
        MessageView::MemXfer(a, b, bm) => {
            lemma_range_bytes(a, b, bm + rest);
            assert(d =~= range_bytes(a, b) + (bm + rest));
            assert(d.subrange(16, n) =~= bm);
        },
        _ => {},
    }
}

/// A buffer that holds only part of a frame decodes to `Incomplete`: the
/// framer waits for the rest.
pub proof fn lemma_partial_frame_waits(m: MessageView, k: int)
    requires
        encodable(m),
        0 <= k < frame(m).len(),
    ensures
        decode_front(frame(m).take(k)) == Decoded::Incomplete,
{
    lemma_auto_spec_u32_to_from_le_bytes();
    let f = frame(m);
    let p = payload(m);
    if k >= 5 {
        let s = f.take(k);
        assert(s.take(4) =~= spec_u32_to_le_bytes((p.len() + 5) as u32));
        assert(s[4] == MessageType::spec_of(m).spec_tag());
    }
}

} // verus!
