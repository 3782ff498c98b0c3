//! Frame kinds and the length-prefixed binary codec.

use crate::bigendian::{
    be16, be16_bytes, be32, be32_bytes, be64, be64_bytes, lemma_be16_roundtrip,
    lemma_be32_roundtrip, lemma_be64_roundtrip, read_u16_be, read_u32_be, read_u64_be,
};
use crate::buffer::{
    buffer_len, buffer_slice, contents, extend, new_buffer, put_u16, put_u32, put_u64, put_u8,
};
use crate::text::{lossy_string, lossy_text};
use bytes::BytesMut;
use vstd::prelude::*;
use vstd::slice::slice_subrange;
use vstd::utf8::{encode_utf8, encode_utf8_decode_utf8, encode_utf8_valid_utf8};

verus! {

/// Type tag carried in the first byte of every frame.
#[derive(Debug, Clone, Copy, PartialEq, Eq, Structural)]
pub enum FrameType {
    Hello,
    Msg,
    Error,
    Okay,
    MsgBroadcast,
}

impl FrameType {
    /// The tag byte that stands for this kind on the wire.
    pub open spec fn tag(self) -> u8 {
        match self {
            FrameType::Hello => 0x01,
            FrameType::Msg => 0x02,
            FrameType::Error => 0x05,
            FrameType::Okay => 0x06,
            FrameType::MsgBroadcast => 0x12,
        }
    }

    /// The kind that a tag byte stands for, if any.
    pub open spec fn of_tag(v: u8) -> Option<FrameType> {
        if v == 0x01 {
            Some(FrameType::Hello)
        } else if v == 0x02 {
            Some(FrameType::Msg)
        } else if v == 0x05 {
            Some(FrameType::Error)
        } else if v == 0x06 {
            Some(FrameType::Okay)
        } else if v == 0x12 {
            Some(FrameType::MsgBroadcast)
        } else {
            None
        }
    }

    /// The kind of frame that the tag byte `v` announces; `None` for a byte
    /// that is no tag.
    pub fn from_u8(v: u8) -> (r: Option<FrameType>)
        ensures
            r == FrameType::of_tag(v),
    {
        match v {
            0x01 => Some(FrameType::Hello),
            0x02 => Some(FrameType::Msg),
            0x05 => Some(FrameType::Error),
            0x06 => Some(FrameType::Okay),
            0x12 => Some(FrameType::MsgBroadcast),
            _ => None,
        }
    }

    /// The tag byte of this kind.
    pub fn to_u8(self) -> (r: u8)
        ensures
            r == self.tag(),
    {
        match self {
            FrameType::Hello => 0x01,
            FrameType::Msg => 0x02,
            FrameType::Error => 0x05,
            FrameType::Okay => 0x06,
            FrameType::MsgBroadcast => 0x12,
        }
    }
}

/// Tags and kinds stand for each other: a kind's tag reads back as the kind,
/// and a byte that reads as a kind is that kind's tag.
pub proof fn lemma_tag_roundtrip(kind: FrameType, v: u8)
    ensures
        FrameType::of_tag(kind.tag()) == Some(kind),
        FrameType::of_tag(v) == Some(kind) ==> kind.tag() == v,
{
}

/// One protocol message.
#[derive(Debug, Clone)]
pub enum Frame {
    Hello { username: String },
    Msg { text: String },
    Okay,
    Error { text: String },
    MsgBroadcast { ts_ms: u64, username: String, text: String },
}

/// A frame as mathematics: its kind and its fields, text as characters.
pub enum FrameView {
    Hello { username: Seq<char> },
    Msg { text: Seq<char> },
    Okay,
    Error { text: Seq<char> },
    MsgBroadcast { ts_ms: u64, username: Seq<char>, text: Seq<char> },
}

impl View for Frame {
    type V = FrameView;

    open spec fn view(&self) -> FrameView {
        match self {
            Frame::Hello { username } => FrameView::Hello { username: username@ },
            Frame::Msg { text } => FrameView::Msg { text: text@ },
            Frame::Okay => FrameView::Okay,
            Frame::Error { text } => FrameView::Error { text: text@ },
            Frame::MsgBroadcast { ts_ms, username, text } => FrameView::MsgBroadcast {
                ts_ms: *ts_ms,
                username: username@,
                text: text@,
            },
        }
    }
}

/// A name as it stands in a payload: its UTF-8 length in 16 bits, then its
/// UTF-8 bytes.
pub open spec fn name_field(name: Seq<char>) -> Seq<u8>
    recommends
        encode_utf8(name).len() < 0x1_0000,
{
    be16_bytes(encode_utf8(name).len() as u16) + encode_utf8(name)
}

/// A text as it stands in a payload: its UTF-8 length in 32 bits, then its
/// UTF-8 bytes.
pub open spec fn text_field(text: Seq<char>) -> Seq<u8>
    recommends
        encode_utf8(text).len() < 0x1_0000_0000,
{
    be32_bytes(encode_utf8(text).len() as u32) + encode_utf8(text)
}

/// A tag byte, the payload's length in 32 bits, the payload.
pub open spec fn framed(tag: u8, payload: Seq<u8>) -> Seq<u8>
    recommends
        payload.len() < 0x1_0000_0000,
{
    seq![tag] + be32_bytes(payload.len() as u32) + payload
}

impl FrameView {
    pub open spec fn kind(self) -> FrameType {
        match self {
            FrameView::Hello { .. } => FrameType::Hello,
            FrameView::Msg { .. } => FrameType::Msg,
            FrameView::Okay => FrameType::Okay,
            FrameView::Error { .. } => FrameType::Error,
            FrameView::MsgBroadcast { .. } => FrameType::MsgBroadcast,
        }
    }

    /// What follows the five header bytes.
    pub open spec fn payload(self) -> Seq<u8> {
        match self {
            FrameView::Hello { username } => name_field(username),
            FrameView::Msg { text } => text_field(text),
            FrameView::Okay => Seq::empty(),
            FrameView::Error { text } => text_field(text),
            FrameView::MsgBroadcast { ts_ms, username, text } => be64_bytes(ts_ms) + name_field(
                username,
            ) + text_field(text),
        }
    }

    /// The frame on the wire.
    pub open spec fn bytes(self) -> Seq<u8>
        recommends
            self.well_formed(),
    {
        framed(self.kind().tag(), self.payload())
    }

    /// Every declared length is the length of what it announces: a name's
    /// bytes number fewer than 2^16, a text's fewer than 2^32, and so does the
    /// whole payload.
    pub open spec fn well_formed(self) -> bool {
        &&& self.payload().len() < 0x1_0000_0000
        &&& match self {
            FrameView::Hello { username } => encode_utf8(username).len() < 0x1_0000,
            FrameView::Msg { text } => encode_utf8(text).len() < 0x1_0000_0000,
            FrameView::Okay => true,
            FrameView::Error { text } => encode_utf8(text).len() < 0x1_0000_0000,
            FrameView::MsgBroadcast { ts_ms, username, text } => {
                &&& encode_utf8(username).len() < 0x1_0000
                &&& encode_utf8(text).len() < 0x1_0000_0000
            },
        }
    }
}

/// Why a buffer is not a frame.
#[derive(Debug, Clone, Copy, PartialEq, Eq, Structural)]
pub enum DecodeError {
    /// Fewer than the five header bytes.
    TooShort,
    /// The first byte is no known tag.
    UnknownType { tag: u8 },
    /// The header announces more payload than the buffer holds.
    Incomplete,
    /// A field inside the payload runs past the payload's end.
    Truncated,
}

impl DecodeError {
    pub open spec fn text(self) -> Seq<char> {
        match self {
            DecodeError::TooShort => "frame too short"@,
            DecodeError::UnknownType { .. } => "unknown frame type"@,
            DecodeError::Incomplete => "incomplete frame"@,
            DecodeError::Truncated => "failed to fill whole buffer"@,
        }
    }

    /// The error in words.
    pub fn message(&self) -> (s: String)
        ensures
            s@ == self.text(),
    {
        match self {
            DecodeError::TooShort => "frame too short".to_owned(),
            DecodeError::UnknownType { .. } => "unknown frame type".to_owned(),
            DecodeError::Incomplete => "incomplete frame".to_owned(),
            DecodeError::Truncated => "failed to fill whole buffer".to_owned(),
        }
    }
}

fn put_name(buf: &mut BytesMut, name: &String)
    requires
        encode_utf8(name@).len() < 0x1_0000,
        contents(*old(buf)).len() + name_field(name@).len() <= isize::MAX,
    ensures
        contents(*final(buf)) == contents(*old(buf)) + name_field(name@),
{
    let raw = name.as_str().as_bytes();
    let declared: u16 = raw.len() as u16;
    put_u16(buf, declared);
    extend(buf, raw);
    assert(contents(*buf) =~= contents(*old(buf)) + name_field(name@));
}

fn put_text(buf: &mut BytesMut, text: &String)
    requires
        encode_utf8(text@).len() < 0x1_0000_0000,
        contents(*old(buf)).len() + text_field(text@).len() <= isize::MAX,
    ensures
        contents(*final(buf)) == contents(*old(buf)) + text_field(text@),
{
    let raw = text.as_str().as_bytes();
    let declared: u32 = raw.len() as u32;
    put_u32(buf, declared);
    extend(buf, raw);
    assert(contents(*buf) =~= contents(*old(buf)) + text_field(text@));
}

fn wrap(ft: FrameType, payload: &BytesMut) -> (out: BytesMut)
    requires
        contents(*payload).len() < 0x1_0000_0000,
        5 + contents(*payload).len() <= isize::MAX,
    ensures
        contents(out) == framed(ft.tag(), contents(*payload)),
{
    let mut out = new_buffer();
    put_u8(&mut out, ft.to_u8());
    let declared: u32 = buffer_len(payload) as u32;
    put_u32(&mut out, declared);
    extend(&mut out, buffer_slice(payload));
    assert(contents(out) =~= framed(ft.tag(), contents(*payload)));
    out
}

/// Writes a frame out: one tag byte, the payload's length in four bytes, most
/// significant first, then the payload of its kind.
///
/// Every length written is the number of bytes that follow it: a frame with a
/// name, a text or a payload too long for its length field is not taken, nor
/// one that no single buffer can hold. [`try_encode`] tells such frames apart.
pub fn encode(frame: &Frame) -> (out: BytesMut)
    requires
        frame@.well_formed(),
        frame@.bytes().len() <= isize::MAX,
    ensures
        contents(out) == frame@.bytes(),
{
    let mut payload = new_buffer();
    match frame {
        Frame::Hello { username } => {
            put_name(&mut payload, username);
            wrap(FrameType::Hello, &payload)
        },
        Frame::Msg { text } => {
            put_text(&mut payload, text);
            wrap(FrameType::Msg, &payload)
        },
        Frame::Okay => wrap(FrameType::Okay, &payload),
        Frame::Error { text } => {
            put_text(&mut payload, text);
            wrap(FrameType::Error, &payload)
        },
        Frame::MsgBroadcast { ts_ms, username, text } => {
            put_u64(&mut payload, *ts_ms);
            put_name(&mut payload, username);
            put_text(&mut payload, text);
            wrap(FrameType::MsgBroadcast, &payload)
        },
    }
}

/// Writes a frame out as [`encode`] does, if every length fits its field and
/// one buffer can hold the bytes; gives nothing otherwise.
pub fn try_encode(frame: &Frame) -> (out: Option<BytesMut>)
    ensures
        out is Some <==> frame@.well_formed() && frame@.bytes().len() <= isize::MAX,
        out matches Some(buf) ==> contents(buf) == frame@.bytes(),
{
    let fields_fit: bool = match frame {
        Frame::Hello { username } => username.as_str().as_bytes().len() <= 0xffff,
        Frame::Msg { text } => text.as_str().as_bytes().len() as u128 <= 0xffff_ffff,
        Frame::Okay => true,
        Frame::Error { text } => text.as_str().as_bytes().len() as u128 <= 0xffff_ffff,
        Frame::MsgBroadcast { ts_ms, username, text } => username.as_str().as_bytes().len()
            <= 0xffff && text.as_str().as_bytes().len() as u128 <= 0xffff_ffff,
    };
    let payload: u128 = match frame {
        Frame::Hello { username } => 2 + username.as_str().as_bytes().len() as u128,
        Frame::Msg { text } => 4 + text.as_str().as_bytes().len() as u128,
        Frame::Okay => 0,
        Frame::Error { text } => 4 + text.as_str().as_bytes().len() as u128,
        Frame::MsgBroadcast { ts_ms, username, text } => 8 + (2
            + username.as_str().as_bytes().len() as u128) + (4
            + text.as_str().as_bytes().len() as u128),
    };
    proof {
        match frame@ {
            FrameView::Hello { username } => {
                assert(name_field(username).len() == 2 + encode_utf8(username).len());
            },
            FrameView::Msg { text } => {
                assert(text_field(text).len() == 4 + encode_utf8(text).len());
            },
            FrameView::Okay => {},
            FrameView::Error { text } => {
                assert(text_field(text).len() == 4 + encode_utf8(text).len());
            },
            FrameView::MsgBroadcast { ts_ms, username, text } => {
                assert(be64_bytes(ts_ms).len() == 8);
                assert(name_field(username).len() == 2 + encode_utf8(username).len());
                assert(text_field(text).len() == 4 + encode_utf8(text).len());
            },
        }
    }
    assert(payload == frame@.payload().len());
    if fields_fit && payload < 0x1_0000_0000 && 5 + payload <= isize::MAX as u128 {
        Some(encode(frame))
    } else {
        None
    }
}

/// A length-prefixed name at the front of `p`: the name, and what follows it.
pub open spec fn split_name(p: Seq<u8>) -> Option<(Seq<char>, Seq<u8>)> {
    if p.len() < 2 {
        None
    } else if p.len() - 2 < be16(p) {
        None
    } else {
        Some((lossy_text(p.subrange(2, 2 + be16(p))), p.subrange(2 + be16(p), p.len() as int)))
    }
}

/// A length-prefixed text at the front of `p`: the text, and what follows it.
pub open spec fn split_text(p: Seq<u8>) -> Option<(Seq<char>, Seq<u8>)> {
    if p.len() < 4 {
        None
    } else if p.len() - 4 < be32(p) {
        None
    } else {
        Some((lossy_text(p.subrange(4, 4 + be32(p))), p.subrange(4 + be32(p), p.len() as int)))
    }
}

/// The frame of kind `kind` that a payload holds. Each field is checked
/// against what is left of the payload before it is taken; bytes after the
/// last field are ignored.
pub open spec fn parse_payload(kind: FrameType, p: Seq<u8>) -> Result<FrameView, DecodeError> {
    match kind {
        FrameType::Hello => match split_name(p) {
            Some((username, _)) => Ok(FrameView::Hello { username }),
            None => Err(DecodeError::Truncated),
        },
        FrameType::Msg => match split_text(p) {
            Some((text, _)) => Ok(FrameView::Msg { text }),
            None => Err(DecodeError::Truncated),
        },
        FrameType::Okay => Ok(FrameView::Okay),
        FrameType::Error => match split_text(p) {
            Some((text, _)) => Ok(FrameView::Error { text }),
            None => Err(DecodeError::Truncated),
        },
        FrameType::MsgBroadcast => if p.len() < 8 {
            Err(DecodeError::Truncated)
        } else {
            match split_name(p.subrange(8, p.len() as int)) {
                Some((username, rest)) => match split_text(rest) {
                    Some((text, _)) => Ok(
                        FrameView::MsgBroadcast { ts_ms: be64(p), username, text },
                    ),
                    None => Err(DecodeError::Truncated),
                },
                None => Err(DecodeError::Truncated),
            }
        },
    }
}

/// The frame at the front of a buffer: the header is checked first, for its
/// five bytes, then its tag, then for the payload it announces.
pub open spec fn parse_frame(s: Seq<u8>) -> Result<FrameView, DecodeError> {
    if s.len() < 5 {
        Err(DecodeError::TooShort)
    } else if FrameType::of_tag(s[0]).is_none() {
        Err(DecodeError::UnknownType { tag: s[0] })
    } else if s.len() - 5 < be32(s.subrange(1, 5)) {
        Err(DecodeError::Incomplete)
    } else {
        parse_payload(FrameType::of_tag(s[0]).unwrap(), s.subrange(5, 5 + be32(s.subrange(1, 5))))
    }
}

/// A decoding result with the frame taken as mathematics.
pub open spec fn viewed(r: Result<Frame, DecodeError>) -> Result<FrameView, DecodeError> {
    match r {
        Ok(f) => Ok(f@),
        Err(e) => Err(e),
    }
}

fn take_name(p: &[u8]) -> (r: Option<(String, &[u8])>)
    ensures
        match r {
            Some((name, rest)) => split_name(p@) == Some((name@, rest@)),
            None => split_name(p@).is_none(),
        },
{
    let declared = match read_u16_be(p) {
        Ok(n) => n,
        Err(_) => {
            return None;
        },
    };
    let n = declared as usize;
    if p.len() - 2 < n {
        return None;
    }
    let name = lossy_string(slice_subrange(p, 2, 2 + n));
    Some((name, slice_subrange(p, 2 + n, p.len())))
}

fn take_text(p: &[u8]) -> (r: Option<(String, &[u8])>)
    ensures
        match r {
            Some((text, rest)) => split_text(p@) == Some((text@, rest@)),
            None => split_text(p@).is_none(),
        },
{
    let declared = match read_u32_be(p) {
        Ok(n) => n,
        Err(_) => {
            return None;
        },
    };
    let n = declared as usize;
    if p.len() - 4 < n {
        return None;
    }
    let text = lossy_string(slice_subrange(p, 4, 4 + n));
    Some((text, slice_subrange(p, 4 + n, p.len())))
}

/// Reads the payload of a frame whose kind is known from its header.
///
/// Fails with [`DecodeError::Truncated`] exactly when a field or a declared
/// field length runs past the end of the payload.
pub fn decode_payload(kind: FrameType, payload: &[u8]) -> (r: Result<Frame, DecodeError>)
    ensures
        viewed(r) == parse_payload(kind, payload@),
{
    match kind {
        FrameType::Hello => match take_name(payload) {
            Some((username, _)) => Ok(Frame::Hello { username }),
            None => Err(DecodeError::Truncated),
        },
        FrameType::Msg => match take_text(payload) {
            Some((text, _)) => Ok(Frame::Msg { text }),
            None => Err(DecodeError::Truncated),
        },
        FrameType::Okay => Ok(Frame::Okay),
        FrameType::Error => match take_text(payload) {
            Some((text, _)) => Ok(Frame::Error { text }),
            None => Err(DecodeError::Truncated),
        },
        FrameType::MsgBroadcast => {
            let ts_ms = match read_u64_be(payload) {
                Ok(n) => n,
                Err(_) => {
                    return Err(DecodeError::Truncated);
                },
            };
            let after_ts = slice_subrange(payload, 8, payload.len());
            match take_name(after_ts) {
                Some((username, rest)) => match take_text(rest) {
                    Some((text, _)) => Ok(Frame::MsgBroadcast { ts_ms, username, text }),
                    None => Err(DecodeError::Truncated),
                },
                None => Err(DecodeError::Truncated),
            }
        },
    }
}

/// Reads the frame at the front of `buf`.
///
/// Never panics. Fails with [`DecodeError::TooShort`] when fewer than the five
/// header bytes are there, else with [`DecodeError::UnknownType`] when the tag
/// is none of the five, else with [`DecodeError::Incomplete`] when the declared
/// length exceeds what follows the header, else with
/// [`DecodeError::Truncated`] when a field inside the payload runs past its
/// end. Text that is not valid UTF-8 is repaired, not rejected.
pub fn decode(buf: &[u8]) -> (r: Result<Frame, DecodeError>)
    ensures
        viewed(r) == parse_frame(buf@),
{
    if buf.len() < 5 {
        return Err(DecodeError::TooShort);
    }
    let kind = match FrameType::from_u8(buf[0]) {
        Some(kind) => kind,
        None => {
            return Err(DecodeError::UnknownType { tag: buf[0] });
        },
    };
    let declared = match read_u32_be(slice_subrange(buf, 1, 5)) {
        Ok(n) => n,
        Err(_) => {
            return Err(DecodeError::TooShort);
        },
    };
    let len = declared as usize;
    if buf.len() - 5 < len {
        return Err(DecodeError::Incomplete);
    }
    decode_payload(kind, slice_subrange(buf, 5, 5 + len))
}

/// A name field whose length fits reads back as the name, and leaves what
/// followed it.
pub proof fn lemma_split_name(name: Seq<char>, rest: Seq<u8>)
    requires
        encode_utf8(name).len() < 0x1_0000,
    ensures
        split_name(name_field(name) + rest) == Some((name, rest)),
{
    let raw = encode_utf8(name);
    let p = name_field(name) + rest;
    lemma_be16_roundtrip(raw.len() as u16, raw + rest);
    assert(p =~= be16_bytes(raw.len() as u16) + (raw + rest));
    assert(p.subrange(2, 2 + raw.len() as int) =~= raw);
    assert(p.subrange(2 + raw.len() as int, p.len() as int) =~= rest);
    encode_utf8_valid_utf8(name);
    encode_utf8_decode_utf8(name);
}

/// A text field whose length fits reads back as the text, and leaves what
/// followed it.
pub proof fn lemma_split_text(text: Seq<char>, rest: Seq<u8>)
    requires
        encode_utf8(text).len() < 0x1_0000_0000,
    ensures
        split_text(text_field(text) + rest) == Some((text, rest)),
{
    let raw = encode_utf8(text);
    let p = text_field(text) + rest;
    lemma_be32_roundtrip(raw.len() as u32, raw + rest);
    assert(p =~= be32_bytes(raw.len() as u32) + (raw + rest));
    assert(p.subrange(4, 4 + raw.len() as int) =~= raw);
    assert(p.subrange(4 + raw.len() as int, p.len() as int) =~= rest);
    encode_utf8_valid_utf8(text);
    encode_utf8_decode_utf8(text);
}

/// The payload written for a well-formed frame reads back as that frame.
pub proof fn lemma_payload_roundtrip(f: FrameView)
    requires
        f.well_formed(),
    ensures
        parse_payload(f.kind(), f.payload()) == Ok::<FrameView, DecodeError>(f),
{
    let none = Seq::<u8>::empty();
    match f {
        FrameView::Hello { username } => {
            lemma_split_name(username, none);
            assert(name_field(username) + none =~= name_field(username));
        },
        FrameView::Msg { text } => {
            lemma_split_text(text, none);
            assert(text_field(text) + none =~= text_field(text));
        },
        FrameView::Okay => {},
        FrameView::Error { text } => {
            lemma_split_text(text, none);
            assert(text_field(text) + none =~= text_field(text));
        },
        FrameView::MsgBroadcast { ts_ms, username, text } => {
            let p = f.payload();
            let tail = name_field(username) + text_field(text);
            lemma_be64_roundtrip(ts_ms, tail);
            assert(p =~= be64_bytes(ts_ms) + tail);
            assert(p.subrange(8, p.len() as int) =~= tail);
            lemma_split_name(username, text_field(text));
            lemma_split_text(text, none);
            assert(text_field(text) + none =~= text_field(text));
        },
    }
}

/// The header written before a payload of fewer than 2^32 bytes reads back
/// as the tag and the payload's length, and the payload follows it unchanged.
pub proof fn lemma_framed(tag: u8, payload: Seq<u8>)
    requires
        payload.len() < 0x1_0000_0000,
    ensures
        framed(tag, payload).len() == 5 + payload.len(),
        framed(tag, payload)[0] == tag,
        be32(framed(tag, payload).subrange(1, 5)) == payload.len(),
        framed(tag, payload).subrange(5, 5 + payload.len() as int) == payload,
{
    let n = payload.len() as u32;
    let s = framed(tag, payload);
    let none = Seq::<u8>::empty();
    lemma_be32_roundtrip(n, none);
    assert(be32_bytes(n) + none =~= be32_bytes(n));
    assert(s.subrange(1, 5) =~= be32_bytes(n));
    assert(s.subrange(5, 5 + payload.len() as int) =~= payload);
}

/// Decoding what `encode` wrote gives the frame back, field for field, for
/// every frame whose lengths fit their fields; empty names and texts included.
pub proof fn lemma_decode_encode(frame: Frame)
    requires
        frame@.well_formed(),
    ensures
        parse_frame(frame@.bytes()) == Ok::<FrameView, DecodeError>(frame@),
{
    let f = frame@;
    lemma_framed(f.kind().tag(), f.payload());
    assert(FrameType::of_tag(f.kind().tag()) == Some(f.kind()));
    lemma_payload_roundtrip(f);
}

/// A frame cut short is no frame: every proper prefix of what `encode` wrote
/// for a well-formed frame is rejected, as too short while the header is not
/// whole and as incomplete after that.
pub proof fn lemma_truncated_frame_rejected(frame: Frame, k: int)
    requires
        frame@.well_formed(),
        0 <= k < frame@.bytes().len(),
    ensures
        k < 5 ==> parse_frame(frame@.bytes().take(k)) == Err::<FrameView, DecodeError>(
            DecodeError::TooShort,
        ),
        k >= 5 ==> parse_frame(frame@.bytes().take(k)) == Err::<FrameView, DecodeError>(
            DecodeError::Incomplete,
        ),
{
    let f = frame@;
    let s = f.bytes();
    lemma_framed(f.kind().tag(), f.payload());
    if k >= 5 {
        let cut = s.take(k);
        assert(cut.subrange(1, 5) =~= s.subrange(1, 5));
        assert(cut[0] == s[0]);
        assert(FrameType::of_tag(f.kind().tag()) == Some(f.kind()));
    }
}

/// A name field cut short, or with less after it than was there, has no name
/// to give once the cut falls inside the field.
proof fn lemma_cut_name(name: Seq<char>, rest: Seq<u8>, k: int)
    requires
        encode_utf8(name).len() < 0x1_0000,
        0 <= k < name_field(name).len(),
    ensures
        split_name((name_field(name) + rest).take(k)).is_none(),
{
    let raw = encode_utf8(name);
    let p = name_field(name) + rest;
    if k >= 2 {
        lemma_be16_roundtrip(raw.len() as u16, raw + rest);
        assert(p =~= be16_bytes(raw.len() as u16) + (raw + rest));
        let cut = p.take(k);
        assert(cut[0] == p[0] && cut[1] == p[1]);
    }
}

/// A text field cut short has no text to give.
proof fn lemma_cut_text(text: Seq<char>, rest: Seq<u8>, k: int)
    requires
        encode_utf8(text).len() < 0x1_0000_0000,
        0 <= k < text_field(text).len(),
    ensures
        split_text((text_field(text) + rest).take(k)).is_none(),
{
    let raw = encode_utf8(text);
    let p = text_field(text) + rest;
    if k >= 4 {
        lemma_be32_roundtrip(raw.len() as u32, raw + rest);
        assert(p =~= be32_bytes(raw.len() as u32) + (raw + rest));
        let cut = p.take(k);
        assert(cut[0] == p[0] && cut[1] == p[1] && cut[2] == p[2] && cut[3] == p[3]);
    }
}

/// A payload cut short is rejected, wherever the cut falls: in the timestamp,
/// in a length, in the name or in the text.
pub proof fn lemma_truncated_payload_rejected(f: FrameView, k: int)
    requires
        f.well_formed(),
        0 <= k < f.payload().len(),
    ensures
        parse_payload(f.kind(), f.payload().take(k)) == Err::<FrameView, DecodeError>(
            DecodeError::Truncated,
        ),
{
    let none = Seq::<u8>::empty();
    let p = f.payload();
    match f {
        FrameView::Hello { username } => {
            assert(name_field(username) + none =~= p);
            lemma_cut_name(username, none, k);
        },
        FrameView::Msg { text } => {
            assert(text_field(text) + none =~= p);
            lemma_cut_text(text, none, k);
        },
        FrameView::Okay => {},
        FrameView::Error { text } => {
            assert(text_field(text) + none =~= p);
            lemma_cut_text(text, none, k);
        },
        FrameView::MsgBroadcast { ts_ms, username, text } => {
            if k >= 8 {
                let cut = p.take(k);
                let tail = name_field(username) + text_field(text);
                assert(p =~= be64_bytes(ts_ms) + tail);
                let cut_tail = cut.subrange(8, cut.len() as int);
                assert(cut_tail =~= tail.take(k - 8));
                if k - 8 < name_field(username).len() {
                    lemma_cut_name(username, text_field(text), k - 8);
                } else {
                    let j = k - 8 - name_field(username).len();
                    let cut_text = text_field(text).take(j);
                    assert(cut_tail =~= name_field(username) + cut_text);
                    lemma_split_name(username, cut_text);
                    assert(text_field(text) + none =~= text_field(text));
                    lemma_cut_text(text, none, j);
                }
            }
        },
    }
}

} // verus!
