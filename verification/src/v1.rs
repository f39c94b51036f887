//! The version 1 codec: framing, message types, and their encoding.
//!
//! Every message is an 8-byte header, `[type][0][0][0][length: 4 bytes]`,
//! followed by `length` payload bytes. All integers are little-endian.

pub mod laws;

use crate::msg_type;
use crate::text;
use crate::wire;
use vstd::prelude::*;
use vstd::string::*;

verus! {

/// TCP port the 3DS listens on.
pub const PORT: u16 = 6464;

/// `HELLO` magic, ASCII "FLRY".
pub const MAGIC: [u8; 4] = [0x46, 0x4C, 0x52, 0x59];

/// Protocol version this codec implements.
pub const PROTO_VERSION: u16 = 1;

/// Framing header size in bytes.
pub const HEADER_LEN: usize = 8;

/// Largest payload either side may send (the New 3DS send buffer). Anything
/// larger means a desynced or hostile stream.
pub const MAX_PAYLOAD: u32 = 448 * 1024;

/// Size of the metadata prefix of a `FRAME` payload.
pub const FRAME_HEADER_LEN: usize = 8;

/// Why bytes could not be decoded.
#[derive(Debug, Clone, Copy, PartialEq, Eq)]
pub enum Error {
    /// Fewer bytes than the field being decoded requires.
    Truncated,
    /// `length` in a framing header exceeds [`MAX_PAYLOAD`].
    PayloadTooLarge(u32),
    /// `HELLO` magic was not "FLRY".
    BadMagic([u8; 4]),
    /// Enum field held a value outside its defined range.
    BadValue { field: &'static str, value: u8 },
    /// Message type not defined by this protocol version. These are skipped,
    /// not fatal; surfaced so that the caller can log them.
    UnknownType(u8),
}

pub type Result<T> = std::result::Result<T, Error>;

/// What an [`Error`] says to a human.
pub open spec fn error_text(e: Error) -> Seq<char> {
    match e {
        Error::Truncated => "message truncated"@,
        Error::PayloadTooLarge(n) => "payload length "@ + text::decimal(n as nat)
            + " exceeds maximum"@,
        Error::BadMagic(m) => "bad HELLO magic ["@ + text::hex2(m[0]) + ", "@ + text::hex2(m[1])
            + ", "@ + text::hex2(m[2]) + ", "@ + text::hex2(m[3]) + "]"@,
        Error::BadValue { field, value } => "invalid value "@ + text::decimal(value as nat)
            + " for "@ + field@,
        Error::UnknownType(t) => "unknown message type 0x"@ + text::hex2(t),
    }
}

impl Error {
    /// The error as a human-readable text.
    pub fn message(&self) -> (s: String)
        ensures
            s@ == error_text(*self),
    {
        let mut s = String::new();
        match self {
            Error::Truncated => {
                s.append("message truncated");
            },
            Error::PayloadTooLarge(n) => {
                s.append("payload length ");
                text::put_decimal(&mut s, *n as u64);
                s.append(" exceeds maximum");
            },
            Error::BadMagic(m) => {
                s.append("bad HELLO magic [");
                text::put_hex2(&mut s, m[0]);
                s.append(", ");
                text::put_hex2(&mut s, m[1]);
                s.append(", ");
                text::put_hex2(&mut s, m[2]);
                s.append(", ");
                text::put_hex2(&mut s, m[3]);
                s.append("]");
            },
            Error::BadValue { field, value } => {
                s.append("invalid value ");
                text::put_decimal(&mut s, *value as u64);
                s.append(" for ");
                s.append(field);
            },
            Error::UnknownType(t) => {
                s.append("unknown message type 0x");
                text::put_hex2(&mut s, *t);
            },
        }
        proof {
            assert(s@ =~= error_text(*self));
        }
        s
    }
}

#[derive(Debug, Clone, Copy, PartialEq, Eq, Structural)]
pub enum Device {
    New3ds,
    Old3ds,
}

impl Device {
    /// The byte that stands for this device.
    pub open spec fn code(self) -> u8 {
        match self {
            Device::New3ds => 0,
            Device::Old3ds => 1,
        }
    }

    /// The device that `b` stands for.
    pub open spec fn of_code(b: u8) -> Option<Device> {
        if b == 0 {
            Some(Device::New3ds)
        } else if b == 1 {
            Some(Device::Old3ds)
        } else {
            None
        }
    }

    /// The byte that stands for this device.
    pub fn to_byte(self) -> (b: u8)
        ensures
            b == self.code(),
    {
        match self {
            Device::New3ds => 0,
            Device::Old3ds => 1,
        }
    }

    /// The device that `b` stands for.
    pub fn from_byte(b: u8) -> (d: Option<Device>)
        ensures
            d == Device::of_code(b),
    {
        match b {
            0 => Some(Device::New3ds),
            1 => Some(Device::Old3ds),
            _ => None,
        }
    }
}

#[derive(Debug, Clone, Copy, PartialEq, Eq, Structural, Default)]
pub enum ScreenSelect {
    #[default]
    Top,
    Bottom,
    Both,
}

impl ScreenSelect {
    /// The byte that stands for this selection.
    pub open spec fn code(self) -> u8 {
        match self {
            ScreenSelect::Top => 0,
            ScreenSelect::Bottom => 1,
            ScreenSelect::Both => 2,
        }
    }

    /// The selection that `b` stands for.
    pub open spec fn of_code(b: u8) -> Option<ScreenSelect> {
        if b == 0 {
            Some(ScreenSelect::Top)
        } else if b == 1 {
            Some(ScreenSelect::Bottom)
        } else if b == 2 {
            Some(ScreenSelect::Both)
        } else {
            None
        }
    }

    /// The byte that stands for this selection.
    pub fn to_byte(self) -> (b: u8)
        ensures
            b == self.code(),
    {
        match self {
            ScreenSelect::Top => 0,
            ScreenSelect::Bottom => 1,
            ScreenSelect::Both => 2,
        }
    }

    /// The selection that `b` stands for.
    pub fn from_byte(b: u8) -> (s: Option<ScreenSelect>)
        ensures
            s == ScreenSelect::of_code(b),
    {
        match b {
            0 => Some(ScreenSelect::Top),
            1 => Some(ScreenSelect::Bottom),
            2 => Some(ScreenSelect::Both),
            _ => None,
        }
    }
}

#[derive(Debug, Clone, Copy, PartialEq, Eq, Structural, Default)]
pub enum ImageFormat {
    #[default]
    Jpeg,
    Tga,
}

impl ImageFormat {
    /// The byte that stands for this format.
    pub open spec fn code(self) -> u8 {
        match self {
            ImageFormat::Jpeg => 0,
            ImageFormat::Tga => 1,
        }
    }

    /// The format that `b` stands for.
    pub open spec fn of_code(b: u8) -> Option<ImageFormat> {
        if b == 0 {
            Some(ImageFormat::Jpeg)
        } else if b == 1 {
            Some(ImageFormat::Tga)
        } else {
            None
        }
    }

    /// The byte that stands for this format.
    pub fn to_byte(self) -> (b: u8)
        ensures
            b == self.code(),
    {
        match self {
            ImageFormat::Jpeg => 0,
            ImageFormat::Tga => 1,
        }
    }
}

#[derive(Debug, Clone, Copy, PartialEq, Eq, Structural)]
pub enum Screen {
    /// 400 by 240 pixels.
    Top,
    /// 320 by 240 pixels.
    Bottom,
}

impl Screen {
    pub const HEIGHT: u32 = 240;

    /// Width in pixels.
    pub fn width(self) -> (w: u32)
        ensures
            w == (match self {
                Screen::Top => 400u32,
                Screen::Bottom => 320u32,
            }),
    {
        match self {
            Screen::Top => 400,
            Screen::Bottom => 320,
        }
    }

    /// The byte that stands for this screen.
    pub open spec fn code(self) -> u8 {
        match self {
            Screen::Top => 0,
            Screen::Bottom => 1,
        }
    }

    /// The screen that `b` stands for.
    pub open spec fn of_code(b: u8) -> Option<Screen> {
        if b == 0 {
            Some(Screen::Top)
        } else if b == 1 {
            Some(Screen::Bottom)
        } else {
            None
        }
    }

    /// The byte that stands for this screen.
    pub fn to_byte(self) -> (b: u8)
        ensures
            b == self.code(),
    {
        match self {
            Screen::Top => 0,
            Screen::Bottom => 1,
        }
    }

    /// The screen that `b` stands for.
    pub fn from_byte(b: u8) -> (s: Option<Screen>)
        ensures
            s == Screen::of_code(b),
    {
        match b {
            0 => Some(Screen::Top),
            1 => Some(Screen::Bottom),
            _ => None,
        }
    }
}

/// GSP source framebuffer format. Informative only: image payloads are
/// self-describing RGB regardless.
#[derive(Debug, Clone, Copy, PartialEq, Eq, Structural)]
pub enum PixFmt {
    Rgba8,
    Rgb8,
    Rgb565,
    Rgb5a1,
    Rgba4,
}

impl PixFmt {
    /// The byte that stands for this pixel format.
    pub open spec fn code(self) -> u8 {
        match self {
            PixFmt::Rgba8 => 0,
            PixFmt::Rgb8 => 1,
            PixFmt::Rgb565 => 2,
            PixFmt::Rgb5a1 => 3,
            PixFmt::Rgba4 => 4,
        }
    }

    /// The pixel format that `b` stands for.
    pub open spec fn of_code(b: u8) -> Option<PixFmt> {
        if b == 0 {
            Some(PixFmt::Rgba8)
        } else if b == 1 {
            Some(PixFmt::Rgb8)
        } else if b == 2 {
            Some(PixFmt::Rgb565)
        } else if b == 3 {
            Some(PixFmt::Rgb5a1)
        } else if b == 4 {
            Some(PixFmt::Rgba4)
        } else {
            None
        }
    }

    /// The byte that stands for this pixel format.
    pub fn to_byte(self) -> (b: u8)
        ensures
            b == self.code(),
    {
        match self {
            PixFmt::Rgba8 => 0,
            PixFmt::Rgb8 => 1,
            PixFmt::Rgb565 => 2,
            PixFmt::Rgb5a1 => 3,
            PixFmt::Rgba4 => 4,
        }
    }

    /// The pixel format that `b` stands for.
    pub fn from_byte(b: u8) -> (p: Option<PixFmt>)
        ensures
            p == PixFmt::of_code(b),
    {
        match b {
            0 => Some(PixFmt::Rgba8),
            1 => Some(PixFmt::Rgb8),
            2 => Some(PixFmt::Rgb565),
            3 => Some(PixFmt::Rgb5a1),
            4 => Some(PixFmt::Rgba4),
            _ => None,
        }
    }
}

/// Which pixels of each framebuffer row a `FRAME` carries.
#[derive(Debug, Clone, Copy, PartialEq, Eq, Structural)]
pub enum Interlace {
    Progressive,
    /// Framebuffer-row pixels 0, 2, 4, ... 238.
    FieldA,
    /// Framebuffer-row pixels 1, 3, 5, ... 239.
    FieldB,
}

impl Interlace {
    /// The byte that stands for this interlace mode.
    pub open spec fn code(self) -> u8 {
        match self {
            Interlace::Progressive => 0,
            Interlace::FieldA => 1,
            Interlace::FieldB => 2,
        }
    }

    /// The interlace mode that `b` stands for.
    pub open spec fn of_code(b: u8) -> Option<Interlace> {
        if b == 0 {
            Some(Interlace::Progressive)
        } else if b == 1 {
            Some(Interlace::FieldA)
        } else if b == 2 {
            Some(Interlace::FieldB)
        } else {
            None
        }
    }

    /// The byte that stands for this interlace mode.
    pub fn to_byte(self) -> (b: u8)
        ensures
            b == self.code(),
    {
        match self {
            Interlace::Progressive => 0,
            Interlace::FieldA => 1,
            Interlace::FieldB => 2,
        }
    }

    /// The interlace mode that `b` stands for.
    pub fn from_byte(b: u8) -> (i: Option<Interlace>)
        ensures
            i == Interlace::of_code(b),
    {
        match b {
            0 => Some(Interlace::Progressive),
            1 => Some(Interlace::FieldA),
            2 => Some(Interlace::FieldB),
            _ => None,
        }
    }
}

#[derive(Debug, Clone, Copy, PartialEq, Eq, Structural)]
pub struct Hello {
    pub proto_version: u16,
    pub device: Device,
}

#[derive(Debug, Clone, Copy, PartialEq, Eq, Structural)]
pub struct Config {
    /// JPEG quality, 1 to 100.
    pub quality: u8,
    pub screens: ScreenSelect,
    pub format: ImageFormat,
    pub interlace: bool,
}

impl Default for Config {
    fn default() -> (c: Config)
        ensures
            c == (Config {
                quality: 70,
                screens: ScreenSelect::Top,
                format: ImageFormat::Jpeg,
                interlace: false,
            }),
    {
        Config {
            quality: 70,
            screens: ScreenSelect::Top,
            format: ImageFormat::Jpeg,
            interlace: false,
        }
    }
}

/// Metadata prefix of a `FRAME` payload; the encoded image bytes follow.
#[derive(Debug, Clone, Copy, PartialEq, Eq, Structural)]
pub struct FrameHeader {
    pub screen: Screen,
    pub format: ImageFormat,
    pub pixfmt: PixFmt,
    pub interlace: Interlace,
    pub chunk_index: u8,
    pub chunk_count: u8,
    pub frame_id: u16,
}

/// A fully decoded protocol message.
#[derive(Debug, Clone, PartialEq, Eq)]
pub enum Message {
    Hello(Hello),
    Config(Config),
    Start,
    Stop,
    Disconnect,
    Debug(String),
    Frame { header: FrameHeader, image: Vec<u8> },
    Stats(String),
    Error { code: u8, message: String },
}

/// A message with its texts and image as mathematical sequences.
pub enum MessageView {
    Hello(Hello),
    Config(Config),
    Start,
    Stop,
    Disconnect,
    Debug(Seq<char>),
    Frame { header: FrameHeader, image: Seq<u8> },
    Stats(Seq<char>),
    Error { code: u8, message: Seq<char> },
}

impl View for Message {
    type V = MessageView;

    open spec fn view(&self) -> MessageView {
        match *self {
            Message::Hello(h) => MessageView::Hello(h),
            Message::Config(c) => MessageView::Config(c),
            Message::Start => MessageView::Start,
            Message::Stop => MessageView::Stop,
            Message::Disconnect => MessageView::Disconnect,
            Message::Debug(s) => MessageView::Debug(s@),
            Message::Frame { header, image } => MessageView::Frame { header, image: image@ },
            Message::Stats(s) => MessageView::Stats(s@),
            Message::Error { code, message } => MessageView::Error { code, message: message@ },
        }
    }
}

impl MessageView {
    /// The type byte of the message.
    pub open spec fn type_byte(self) -> u8 {
        match self {
            MessageView::Hello(_) => msg_type::HELLO,
            MessageView::Config(_) => msg_type::CONFIG,
            MessageView::Start => msg_type::START,
            MessageView::Stop => msg_type::STOP,
            MessageView::Disconnect => msg_type::DISCONNECT,
            MessageView::Debug(_) => msg_type::DEBUG,
            MessageView::Frame { .. } => msg_type::FRAME,
            MessageView::Stats(_) => msg_type::STATS,
            MessageView::Error { .. } => msg_type::ERROR,
        }
    }

    /// The payload bytes of the message.
    pub open spec fn payload(self) -> Seq<u8> {
        match self {
            MessageView::Hello(h) => MAGIC@ + wire::le16(h.proto_version) + seq![
                h.device.code(),
                0u8,
            ],
            MessageView::Config(c) => seq![
                c.quality,
                c.screens.code(),
                c.format.code(),
                if c.interlace {
                    1u8
                } else {
                    0u8
                },
            ],
            MessageView::Start => Seq::empty(),
            MessageView::Stop => Seq::empty(),
            MessageView::Disconnect => Seq::empty(),
            MessageView::Debug(s) => vstd::utf8::encode_utf8(s),
            MessageView::Frame { header, image } => frame_prefix(header) + image,
            MessageView::Stats(s) => vstd::utf8::encode_utf8(s),
            MessageView::Error { code, message } => seq![code] + vstd::utf8::encode_utf8(message),
        }
    }

    /// The whole framed message: header, then payload. The length field holds
    /// the low 32 bits of the payload's length.
    pub open spec fn framed(self) -> Seq<u8> {
        frame_start(self.type_byte(), self.payload().len()) + self.payload()
    }

    /// Every field is in the range that the protocol defines for it. What is
    /// outside is mapped into it on decoding.
    pub open spec fn in_range(self) -> bool {
        match self {
            MessageView::Config(c) => 1 <= c.quality <= 100,
            MessageView::Frame { header, .. } => header.chunk_count >= 1,
            _ => true,
        }
    }
}

/// The eight header bytes of a message of type `t` with `len` payload bytes.
pub open spec fn frame_start(t: u8, len: nat) -> Seq<u8> {
    seq![t, 0u8, 0u8, 0u8] + wire::le32((len % 0x1_0000_0000) as u32)
}

/// The eight bytes ahead of the image in a `FRAME` payload.
pub open spec fn frame_prefix(h: FrameHeader) -> Seq<u8> {
    seq![
        h.screen.code(),
        h.format.code(),
        h.pixfmt.code(),
        h.interlace.code(),
        h.chunk_index,
        h.chunk_count,
    ] + wire::le16(h.frame_id)
}

/// `q` moved to the nearest value from 1 to 100.
pub open spec fn clamped_quality(q: u8) -> u8 {
    if q < 1 {
        1
    } else if q > 100 {
        100
    } else {
        q
    }
}

/// What a `HELLO` payload decodes to.
pub open spec fn decoded_hello(p: Seq<u8>) -> std::result::Result<MessageView, Error> {
    if p.len() < 8 {
        Err(Error::Truncated)
    } else if p.take(4) != MAGIC@ {
        Err(Error::BadMagic([p[0], p[1], p[2], p[3]]))
    } else {
        match Device::of_code(p[6]) {
            Some(device) => Ok(
                MessageView::Hello(Hello { proto_version: wire::u16_at(p, 4), device }),
            ),
            None => Err(Error::BadValue { field: "device", value: p[6] }),
        }
    }
}

/// What a `CONFIG` payload decodes to.
pub open spec fn decoded_config(p: Seq<u8>) -> std::result::Result<MessageView, Error> {
    if p.len() < 4 {
        Err(Error::Truncated)
    } else {
        match (ScreenSelect::of_code(p[1]), ImageFormat::of_code(p[2])) {
            (None, _) => Err(Error::BadValue { field: "screens", value: p[1] }),
            (_, None) => Err(Error::BadValue { field: "format", value: p[2] }),
            (Some(screens), Some(format)) => Ok(
                MessageView::Config(
                    Config {
                        quality: clamped_quality(p[0]),
                        screens,
                        format,
                        interlace: p[3] != 0,
                    },
                ),
            ),
        }
    }
}

/// What the metadata prefix of a `FRAME` payload decodes to. The first field
/// with a value outside its range is the one reported.
pub open spec fn decoded_frame_header(p: Seq<u8>) -> std::result::Result<FrameHeader, Error> {
    if p.len() < FRAME_HEADER_LEN {
        Err(Error::Truncated)
    } else {
        match (
            Screen::of_code(p[0]),
            ImageFormat::of_code(p[1]),
            PixFmt::of_code(p[2]),
            Interlace::of_code(p[3]),
        ) {
            (None, _, _, _) => Err(Error::BadValue { field: "screen", value: p[0] }),
            (_, None, _, _) => Err(Error::BadValue { field: "format", value: p[1] }),
            (_, _, None, _) => Err(Error::BadValue { field: "pixfmt", value: p[2] }),
            (_, _, _, None) => Err(Error::BadValue { field: "interlace", value: p[3] }),
            (Some(screen), Some(format), Some(pixfmt), Some(interlace)) => Ok(
                FrameHeader {
                    screen,
                    format,
                    pixfmt,
                    interlace,
                    chunk_index: p[4],
                    chunk_count: if p[5] < 1 {
                        1
                    } else {
                        p[5]
                    },
                    frame_id: wire::u16_at(p, 6),
                },
            ),
        }
    }
}

/// What a payload `p` of a message of type `t` decodes to.
pub open spec fn decoded(t: u8, p: Seq<u8>) -> std::result::Result<MessageView, Error> {
    if t == msg_type::HELLO {
        decoded_hello(p)
    } else if t == msg_type::CONFIG {
        decoded_config(p)
    } else if t == msg_type::START {
        Ok(MessageView::Start)
    } else if t == msg_type::STOP {
        Ok(MessageView::Stop)
    } else if t == msg_type::DISCONNECT {
        Ok(MessageView::Disconnect)
    } else if t == msg_type::DEBUG {
        Ok(MessageView::Debug(text::text_of(p)))
    } else if t == msg_type::STATS {
        Ok(MessageView::Stats(text::text_of(p)))
    } else if t == msg_type::FRAME {
        match decoded_frame_header(p) {
            Ok(header) => Ok(
                MessageView::Frame { header, image: p.skip(FRAME_HEADER_LEN as int) },
            ),
            Err(e) => Err(e),
        }
    } else if t == msg_type::ERROR {
        if p.len() < 1 {
            Err(Error::Truncated)
        } else {
            Ok(MessageView::Error { code: p[0], message: text::text_of(p.skip(1)) })
        }
    } else {
        Err(Error::UnknownType(t))
    }
}

/// A parsed framing header: message type and payload length still to read.
#[derive(Debug, Clone, Copy, PartialEq, Eq, Structural)]
pub struct FrameInfo {
    pub msg_type: u8,
    pub payload_len: u32,
}

/// What a framing header parses to.
pub open spec fn parsed_header(b: Seq<u8>) -> std::result::Result<FrameInfo, Error> {
    if b.len() < HEADER_LEN {
        Err(Error::Truncated)
    } else if wire::u32_at(b, 4) > MAX_PAYLOAD {
        Err(Error::PayloadTooLarge(wire::u32_at(b, 4)))
    } else {
        Ok(FrameInfo { msg_type: b[0], payload_len: wire::u32_at(b, 4) })
    }
}

impl Message {
    /// The type byte of the message.
    pub fn msg_type(&self) -> (t: u8)
        ensures
            t == self@.type_byte(),
    {
        match self {
            Message::Hello(_) => msg_type::HELLO,
            Message::Config(_) => msg_type::CONFIG,
            Message::Start => msg_type::START,
            Message::Stop => msg_type::STOP,
            Message::Disconnect => msg_type::DISCONNECT,
            Message::Debug(_) => msg_type::DEBUG,
            Message::Frame { .. } => msg_type::FRAME,
            Message::Stats(_) => msg_type::STATS,
            Message::Error { .. } => msg_type::ERROR,
        }
    }

    /// Encodes as a complete framed message: header, then payload.
    pub fn encode(&self) -> (out: Vec<u8>)
        ensures
            out@ == self@.framed(),
    {
        let payload = self.encode_payload();
        let mut out: Vec<u8> = Vec::new();
        out.push(self.msg_type());
        out.push(0);
        out.push(0);
        out.push(0);
        wire::put_u32(&mut out, wire::low_u32(payload.len()));
        wire::put_bytes(&mut out, payload.as_slice());
        proof {
            assert(out@ =~= self@.framed());
        }
        out
    }

    /// Encodes the payload alone.
    pub fn encode_payload(&self) -> (p: Vec<u8>)
        ensures
            p@ == self@.payload(),
    {
        let mut p: Vec<u8> = Vec::new();
        match self {
            Message::Hello(h) => {
                wire::put_bytes(&mut p, &MAGIC);
                wire::put_u16(&mut p, h.proto_version);
                p.push(h.device.to_byte());
                p.push(0);
            },
            Message::Config(c) => {
                p.push(c.quality);
                p.push(c.screens.to_byte());
                p.push(c.format.to_byte());
                p.push(if c.interlace { 1 } else { 0 });
            },
            Message::Start | Message::Stop | Message::Disconnect => {},
            Message::Debug(s) => {
                wire::put_bytes(&mut p, s.as_str().as_bytes());
            },
            Message::Stats(s) => {
                wire::put_bytes(&mut p, s.as_str().as_bytes());
            },
            Message::Frame { header, image } => {
                p.push(header.screen.to_byte());
                p.push(header.format.to_byte());
                p.push(header.pixfmt.to_byte());
                p.push(header.interlace.to_byte());
                p.push(header.chunk_index);
                p.push(header.chunk_count);
                wire::put_u16(&mut p, header.frame_id);
                wire::put_bytes(&mut p, image.as_slice());
            },
            Message::Error { code, message } => {
                p.push(*code);
                wire::put_bytes(&mut p, message.as_str().as_bytes());
            },
        }
        proof {
            assert(p@ =~= self@.payload());
        }
        p
    }

    /// Decodes a message from its type byte and payload.
    ///
    /// Payloads longer than the known fields are accepted and the trailing
    /// bytes ignored.
    pub fn decode(msg_type: u8, payload: &[u8]) -> (res: Result<Message>)
        ensures
            match res {
                Ok(m) => decoded(msg_type, payload@) == Ok::<MessageView, Error>(m@),
                Err(e) => decoded(msg_type, payload@) == Err::<MessageView, Error>(e),
            },
    {
        match msg_type {
            msg_type::HELLO => Message::decode_hello(payload),
            msg_type::CONFIG => Message::decode_config(payload),
            msg_type::START => Ok(Message::Start),
            msg_type::STOP => Ok(Message::Stop),
            msg_type::DISCONNECT => Ok(Message::Disconnect),
            msg_type::DEBUG => Ok(Message::Debug(text(payload))),
            msg_type::STATS => Ok(Message::Stats(text(payload))),
            msg_type::FRAME => {
                let header = decode_frame_header(payload)?;
                let image = vstd::slice::slice_to_vec(wire::tail(payload, FRAME_HEADER_LEN));
                Ok(Message::Frame { header, image })
            },
            msg_type::ERROR => {
                let p = need(payload, 1)?;
                Ok(Message::Error { code: p[0], message: text(wire::tail(p, 1)) })
            },
            t => Err(Error::UnknownType(t)),
        }
    }

    fn decode_hello(payload: &[u8]) -> (res: Result<Message>)
        ensures
            match res {
                Ok(m) => decoded_hello(payload@) == Ok::<MessageView, Error>(m@),
                Err(e) => decoded_hello(payload@) == Err::<MessageView, Error>(e),
            },
    {
        let p = need(payload, 8)?;
        let magic: [u8; 4] = [p[0], p[1], p[2], p[3]];
        proof {
            assert(magic@ =~= p@.take(4));
        }
        if magic[0] != MAGIC[0] || magic[1] != MAGIC[1] || magic[2] != MAGIC[2] || magic[3]
            != MAGIC[3] {
            return Err(Error::BadMagic(magic));
        }
        proof {
            assert(magic@ =~= MAGIC@);
        }
        match Device::from_byte(p[6]) {
            Some(device) => Ok(
                Message::Hello(Hello { proto_version: wire::get_u16(p, 4), device }),
            ),
            None => Err(Error::BadValue { field: "device", value: p[6] }),
        }
    }

    fn decode_config(payload: &[u8]) -> (res: Result<Message>)
        ensures
            match res {
                Ok(m) => decoded_config(payload@) == Ok::<MessageView, Error>(m@),
                Err(e) => decoded_config(payload@) == Err::<MessageView, Error>(e),
            },
    {
        let p = need(payload, 4)?;
        let screens = match ScreenSelect::from_byte(p[1]) {
            Some(s) => s,
            None => return Err(Error::BadValue { field: "screens", value: p[1] }),
        };
        let format = decode_image_format(p[2])?;
        Ok(
            Message::Config(
                Config { quality: clamp_quality(p[0]), screens, format, interlace: p[3] != 0 },
            ),
        )
    }
}

/// `q` moved to the nearest value from 1 to 100.
pub fn clamp_quality(q: u8) -> (r: u8)
    ensures
        r == clamped_quality(q),
        1 <= r <= 100,
{
    if q < 1 {
        1
    } else if q > 100 {
        100
    } else {
        q
    }
}

fn need(payload: &[u8], n: usize) -> (res: Result<&[u8]>)
    ensures
        match res {
            Ok(p) => payload@.len() >= n && p == payload,
            Err(e) => payload@.len() < n && e == Error::Truncated,
        },
{
    if payload.len() < n {
        Err(Error::Truncated)
    } else {
        Ok(payload)
    }
}

fn text(bytes: &[u8]) -> (s: String)
    ensures
        s@ == text::text_of(bytes@),
{
    text::from_utf8_lossy(bytes)
}

fn decode_image_format(v: u8) -> (res: Result<ImageFormat>)
    ensures
        res == (match ImageFormat::of_code(v) {
            Some(f) => Ok::<ImageFormat, Error>(f),
            None => Err(Error::BadValue { field: "format", value: v }),
        }),
{
    match v {
        0 => Ok(ImageFormat::Jpeg),
        1 => Ok(ImageFormat::Tga),
        v => Err(Error::BadValue { field: "format", value: v }),
    }
}

fn decode_frame_header(payload: &[u8]) -> (res: Result<FrameHeader>)
    ensures
        res == decoded_frame_header(payload@),
{
    let p = need(payload, FRAME_HEADER_LEN)?;
    let screen = match Screen::from_byte(p[0]) {
        Some(s) => s,
        None => return Err(Error::BadValue { field: "screen", value: p[0] }),
    };
    let format = decode_image_format(p[1])?;
    let pixfmt = match PixFmt::from_byte(p[2]) {
        Some(f) => f,
        None => return Err(Error::BadValue { field: "pixfmt", value: p[2] }),
    };
    let interlace = match Interlace::from_byte(p[3]) {
        Some(i) => i,
        None => return Err(Error::BadValue { field: "interlace", value: p[3] }),
    };
    let chunk_count: u8 = if p[5] < 1 {
        1
    } else {
        p[5]
    };
    Ok(
        FrameHeader {
            screen,
            format,
            pixfmt,
            interlace,
            chunk_index: p[4],
            chunk_count,
            frame_id: wire::get_u16(p, 6),
        },
    )
}

/// Parses the 8-byte framing header and holds `length` against
/// [`MAX_PAYLOAD`]. The caller then reads exactly `payload_len` bytes and hands
/// them to [`Message::decode`].
pub fn parse_header(buf: &[u8]) -> (res: Result<FrameInfo>)
    ensures
        res == parsed_header(buf@),
{
    let b = need(buf, HEADER_LEN)?;
    let payload_len = wire::get_u32(b, 4);
    if payload_len > MAX_PAYLOAD {
        return Err(Error::PayloadTooLarge(payload_len));
    }
    Ok(FrameInfo { msg_type: b[0], payload_len })
}

} // verus!
