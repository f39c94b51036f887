//! What holds of the version 1 codec as a whole.

use crate::msg_type;
use crate::text;
use crate::v1::{
    Config, Device, Error, FrameHeader, FrameInfo, Hello, ImageFormat, Interlace, MessageView,
    PixFmt, Screen, ScreenSelect, HEADER_LEN, MAGIC, MAX_PAYLOAD,
};
use crate::wire;
use vstd::prelude::*;

verus! {

/// Decoding the payload of a message gives the message back. A quality outside
/// 1 to 100 and a chunk count of 0 are moved into their ranges on decoding, so
/// those messages are left out.
pub proof fn decode_undoes_encode(m: MessageView)
    requires
        m.in_range(),
    ensures
        crate::v1::decoded(m.type_byte(), m.payload()) == Ok::<MessageView, Error>(m),
{
    let p = m.payload();
    match m {
        MessageView::Hello(h) => {
            assert(p.take(4) =~= MAGIC@);
            assert(p.subrange(4, 6) =~= wire::le16(h.proto_version));
            wire::u16_at_of_le16(p, 4, h.proto_version);
        },
        MessageView::Debug(s) => {
            text::text_of_encoded(s);
        },
        MessageView::Stats(s) => {
            text::text_of_encoded(s);
        },
        MessageView::Frame { header, image } => {
            assert(p.subrange(6, 8) =~= wire::le16(header.frame_id));
            wire::u16_at_of_le16(p, 6, header.frame_id);
            assert(p.skip(8) =~= image);
        },
        MessageView::Error { code, message } => {
            text::text_of_encoded(message);
            assert(p.skip(1) =~= vstd::utf8::encode_utf8(message));
        },
        _ => {},
    }
}

/// A framed message at the head of a stream: its header parses to its type and
/// payload length, and that many bytes behind the header are its payload.
pub proof fn header_frames_the_payload(m: MessageView, rest: Seq<u8>)
    requires
        m.payload().len() <= MAX_PAYLOAD,
    ensures
        crate::v1::parsed_header(m.framed() + rest) == Ok::<FrameInfo, Error>(
            FrameInfo { msg_type: m.type_byte(), payload_len: m.payload().len() as u32 },
        ),
        m.framed().len() == HEADER_LEN + m.payload().len(),
        (m.framed() + rest).subrange(
            HEADER_LEN as int,
            HEADER_LEN + m.payload().len(),
        ) == m.payload(),
        (m.framed() + rest).skip(HEADER_LEN + m.payload().len()) == rest,
{
    let b = m.framed() + rest;
    let n = m.payload().len() as u32;
    assert(b.subrange(4, 8) =~= wire::le32(n));
    wire::u32_at_of_le32(b, 4, n);
    assert(b.subrange(8, 8 + n as int) =~= m.payload());
    assert(b.skip(8 + n as int) =~= rest);
}

/// A payload above [`MAX_PAYLOAD`] whose length still fits the length field is
/// refused by the header.
pub proof fn oversized_payload_is_refused(m: MessageView)
    requires
        MAX_PAYLOAD < m.payload().len() <= u32::MAX,
    ensures
        crate::v1::parsed_header(m.framed()) == Err::<FrameInfo, Error>(
            Error::PayloadTooLarge(m.payload().len() as u32),
        ),
{
    let b = m.framed();
    let n = m.payload().len() as u32;
    assert(b.subrange(4, 8) =~= wire::le32(n));
    wire::u32_at_of_le32(b, 4, n);
}

/// How many bytes the fixed fields of a message of type `t` take.
pub open spec fn needed(t: u8) -> nat {
    if t == msg_type::HELLO || t == msg_type::FRAME {
        8
    } else if t == msg_type::CONFIG {
        4
    } else if t == msg_type::ERROR {
        1
    } else {
        0
    }
}

/// A payload is rejected as truncated exactly if it is shorter than the fixed
/// fields of its message.
pub proof fn truncation_is_noticed(t: u8, p: Seq<u8>)
    ensures
        crate::v1::decoded(t, p) == Err::<MessageView, Error>(Error::Truncated) <==> p.len()
            < needed(t),
{
}

/// Bytes behind the fixed fields of a message without text or image change
/// nothing.
pub proof fn trailing_bytes_are_ignored(t: u8, p: Seq<u8>, extra: Seq<u8>)
    requires
        t != msg_type::DEBUG && t != msg_type::STATS && t != msg_type::FRAME && t
            != msg_type::ERROR,
        p.len() >= needed(t),
    ensures
        crate::v1::decoded(t, p + extra) == crate::v1::decoded(t, p),
{
    if t == msg_type::HELLO {
        assert((p + extra).take(4) =~= p.take(4));
    }
}

/// A decoded message has the type it was decoded as, and all its fields are in
/// range.
pub proof fn decoded_is_in_range(t: u8, p: Seq<u8>, m: MessageView)
    requires
        crate::v1::decoded(t, p) == Ok::<MessageView, Error>(m),
    ensures
        m.type_byte() == t,
        m.in_range(),
{
}

/// A decoded message, encoded again, decodes to itself.
pub proof fn decoded_survives_reencoding(t: u8, p: Seq<u8>, m: MessageView)
    requires
        crate::v1::decoded(t, p) == Ok::<MessageView, Error>(m),
    ensures
        crate::v1::decoded(t, m.payload()) == Ok::<MessageView, Error>(m),
{
    decoded_is_in_range(t, p, m);
    decode_undoes_encode(m);
}

/// Two messages with their fields in range and the same bytes are the same
/// message.
pub proof fn encoding_is_injective(a: MessageView, b: MessageView)
    requires
        a.in_range(),
        b.in_range(),
        a.framed() == b.framed(),
    ensures
        a == b,
{
    assert(a.framed()[0] == a.type_byte());
    assert(b.framed()[0] == b.type_byte());
    assert(a.framed().skip(8) =~= a.payload());
    assert(b.framed().skip(8) =~= b.payload());
    decode_undoes_encode(a);
    decode_undoes_encode(b);
}

/// A type byte is unknown exactly if it is none of the nine defined ones,
/// whatever the payload.
pub proof fn unknown_types(t: u8, p: Seq<u8>)
    ensures
        crate::v1::decoded(t, p) == Err::<MessageView, Error>(Error::UnknownType(t)) <==> !(t
            == msg_type::HELLO || t == msg_type::CONFIG || t == msg_type::START || t
            == msg_type::STOP || t == msg_type::DISCONNECT || t == msg_type::DEBUG || t
            == msg_type::STATS || t == msg_type::FRAME || t == msg_type::ERROR),
{
}

/// The type bytes of the nine messages.
pub proof fn messages_have_their_types(m: MessageView)
    ensures
        match m {
            MessageView::Config(_) => m.type_byte() == 0x02,
            MessageView::Start => m.type_byte() == 0x03,
            MessageView::Stop => m.type_byte() == 0x04,
            MessageView::Disconnect => m.type_byte() == 0x05,
            MessageView::Debug(_) => m.type_byte() == 0x7F,
            MessageView::Hello(_) => m.type_byte() == 0x80,
            MessageView::Frame { .. } => m.type_byte() == 0x81,
            MessageView::Stats(_) => m.type_byte() == 0x82,
            MessageView::Error { .. } => m.type_byte() == 0xFF,
        },
{
}

/// Where the fields of a `FRAME` stand, as it is decoded: the screen, the format, the
/// pixel format and the interlace mode in the first four bytes, then the chunk's index
/// and the number of chunks, where none is read as one, then the frame's number, low
/// byte first. The image is all that follows.
pub proof fn frame_fields_are_read_in_their_places(p: Seq<u8>)
    ensures
        crate::v1::decoded(0x81, p) is Ok <==> (p.len() >= 8 && p[0] <= 1 && p[1] <= 1 && p[2] <= 4
            && p[3] <= 2),
        crate::v1::decoded(0x81, p) matches Ok(m) ==> (m matches MessageView::Frame {
            header,
            image,
        } && {
            &&& (header.screen is Top <==> p[0] == 0) && (header.screen is Bottom <==> p[0] == 1)
            &&& (header.format is Jpeg <==> p[1] == 0) && (header.format is Tga <==> p[1] == 1)
            &&& (header.pixfmt is Rgba8 <==> p[2] == 0) && (header.pixfmt is Rgb8 <==> p[2] == 1)
            &&& (header.pixfmt is Rgb565 <==> p[2] == 2) && (header.pixfmt is Rgb5a1 <==> p[2] == 3)
            &&& (header.pixfmt is Rgba4 <==> p[2] == 4)
            &&& (header.interlace is Progressive <==> p[3] == 0)
            &&& (header.interlace is FieldA <==> p[3] == 1)
            &&& (header.interlace is FieldB <==> p[3] == 2)
            &&& header.chunk_index == p[4]
            &&& header.chunk_count == (if p[5] == 0 {
                1u8
            } else {
                p[5]
            })
            &&& header.frame_id == p[6] + 256 * p[7]
            &&& image.len() == p.len() - 8
            &&& forall|i: int| 0 <= i < image.len() ==> #[trigger] image[i] == p[8 + i]
        }),
{
}

/// Where the fields of a `FRAME` stand, as it is encoded.
pub proof fn frame_fields_are_written_in_their_places(header: FrameHeader, image: Seq<u8>)
    ensures
        ({
            let p = (MessageView::Frame { header, image }).payload();
            &&& p.len() == 8 + image.len()
            &&& p[0] == (match header.screen {
                Screen::Top => 0u8,
                Screen::Bottom => 1,
            })
            &&& p[1] == (match header.format {
                ImageFormat::Jpeg => 0u8,
                ImageFormat::Tga => 1,
            })
            &&& p[2] == (match header.pixfmt {
                PixFmt::Rgba8 => 0u8,
                PixFmt::Rgb8 => 1,
                PixFmt::Rgb565 => 2,
                PixFmt::Rgb5a1 => 3,
                PixFmt::Rgba4 => 4,
            })
            &&& p[3] == (match header.interlace {
                Interlace::Progressive => 0u8,
                Interlace::FieldA => 1,
                Interlace::FieldB => 2,
            })
            &&& p[4] == header.chunk_index
            &&& p[5] == header.chunk_count
            &&& p[6] + 256 * p[7] == header.frame_id
            &&& forall|i: int| 0 <= i < image.len() ==> #[trigger] p[8 + i] == image[i]
        }),
{
    let p = (MessageView::Frame { header, image }).payload();
    assert forall|i: int| 0 <= i < image.len() implies #[trigger] p[8 + i] == image[i] by {}
}

/// Of the fields of a `FRAME` that hold no value of theirs the first is reported, with
/// what it holds.
pub proof fn first_bad_field_is_reported(p: Seq<u8>)
    requires
        p.len() >= 8,
    ensures
        p[0] > 1 ==> crate::v1::decoded(0x81, p) == Err::<MessageView, Error>(
            Error::BadValue { field: "screen", value: p[0] },
        ),
        p[0] <= 1 && p[1] > 1 ==> crate::v1::decoded(0x81, p) == Err::<MessageView, Error>(
            Error::BadValue { field: "format", value: p[1] },
        ),
        p[0] <= 1 && p[1] <= 1 && p[2] > 4 ==> crate::v1::decoded(0x81, p) == Err::<
            MessageView,
            Error,
        >(Error::BadValue { field: "pixfmt", value: p[2] }),
        p[0] <= 1 && p[1] <= 1 && p[2] <= 4 && p[3] > 2 ==> crate::v1::decoded(0x81, p) == Err::<
            MessageView,
            Error,
        >(Error::BadValue { field: "interlace", value: p[3] }),
{
}

/// Where the fields of a `HELLO` stand: the letters FLRY, the version, low byte first,
/// and the device.
pub proof fn hello_fields_have_their_places(p: Seq<u8>, h: Hello)
    ensures
        crate::v1::decoded(0x80, p) is Ok <==> (p.len() >= 8 && p[0] == 0x46 && p[1] == 0x4C && p[2]
            == 0x52 && p[3] == 0x59 && p[6] <= 1),
        crate::v1::decoded(0x80, p) matches Ok(m) ==> (m matches MessageView::Hello(g) && {
            &&& g.proto_version == p[4] + 256 * p[5]
            &&& (g.device is New3ds <==> p[6] == 0) && (g.device is Old3ds <==> p[6] == 1)
        }),
        p.len() >= 8 && !(p[0] == 0x46 && p[1] == 0x4C && p[2] == 0x52 && p[3] == 0x59)
            ==> crate::v1::decoded(0x80, p) == Err::<MessageView, Error>(
            Error::BadMagic([p[0], p[1], p[2], p[3]]),
        ),
        ({
            let q = MessageView::Hello(h).payload();
            &&& q.len() == 8
            &&& q[0] == 0x46 && q[1] == 0x4C && q[2] == 0x52 && q[3] == 0x59
            &&& q[4] + 256 * q[5] == h.proto_version
            &&& q[6] == (match h.device {
                Device::New3ds => 0u8,
                Device::Old3ds => 1,
            })
            &&& q[7] == 0
        }),
{
    if p.len() >= 8 {
        let head = p.take(4);
        assert(head[0] == p[0] && head[1] == p[1] && head[2] == p[2] && head[3] == p[3]);
        if p[0] == 0x46 && p[1] == 0x4C && p[2] == 0x52 && p[3] == 0x59 {
            assert(head =~= MAGIC@);
        } else {
            assert(MAGIC@[0] == 0x46 && MAGIC@[1] == 0x4C && MAGIC@[2] == 0x52 && MAGIC@[3]
                == 0x59);
        }
    }
}

/// Where the fields of a `CONFIG` stand: the quality, moved into 1 to 100, the screens,
/// the format, and whether to interlace.
pub proof fn config_fields_have_their_places(p: Seq<u8>, c: Config)
    ensures
        crate::v1::decoded(0x02, p) is Ok <==> (p.len() >= 4 && p[1] <= 2 && p[2] <= 1),
        crate::v1::decoded(0x02, p) matches Ok(m) ==> (m matches MessageView::Config(d) && {
            &&& 1 <= d.quality <= 100
            &&& 1 <= p[0] <= 100 ==> d.quality == p[0]
            &&& p[0] < 1 ==> d.quality == 1
            &&& p[0] > 100 ==> d.quality == 100
            &&& (d.screens is Top <==> p[1] == 0) && (d.screens is Bottom <==> p[1] == 1)
            &&& (d.screens is Both <==> p[1] == 2)
            &&& (d.format is Jpeg <==> p[2] == 0) && (d.format is Tga <==> p[2] == 1)
            &&& d.interlace <==> p[3] != 0
        }),
        ({
            let q = MessageView::Config(c).payload();
            &&& q.len() == 4
            &&& q[0] == c.quality
            &&& q[1] == (match c.screens {
                ScreenSelect::Top => 0u8,
                ScreenSelect::Bottom => 1,
                ScreenSelect::Both => 2,
            })
            &&& q[2] == (match c.format {
                ImageFormat::Jpeg => 0u8,
                ImageFormat::Tga => 1,
            })
            &&& q[3] == (if c.interlace {
                1u8
            } else {
                0
            })
        }),
{
}

/// Messages without fields have no payload; text is UTF-8; an `ERROR` is its code, then
/// its text.
pub proof fn texts_have_their_places(code: u8, message: Seq<char>, p: Seq<u8>)
    ensures
        MessageView::Start.payload().len() == 0,
        MessageView::Stop.payload().len() == 0,
        MessageView::Disconnect.payload().len() == 0,
        MessageView::Debug(message).payload() == vstd::utf8::encode_utf8(message),
        MessageView::Stats(message).payload() == vstd::utf8::encode_utf8(message),
        (MessageView::Error { code, message }).payload() == seq![code]
            + vstd::utf8::encode_utf8(message),
        crate::v1::decoded(0x03, p) == Ok::<MessageView, Error>(MessageView::Start),
        crate::v1::decoded(0x04, p) == Ok::<MessageView, Error>(MessageView::Stop),
        crate::v1::decoded(0x05, p) == Ok::<MessageView, Error>(MessageView::Disconnect),
        crate::v1::decoded(0x7F, vstd::utf8::encode_utf8(message)) == Ok::<MessageView, Error>(
            MessageView::Debug(message),
        ),
        crate::v1::decoded(0x82, vstd::utf8::encode_utf8(message)) == Ok::<MessageView, Error>(
            MessageView::Stats(message),
        ),
        crate::v1::decoded(0xFF, seq![code] + vstd::utf8::encode_utf8(message)) == Ok::<
            MessageView,
            Error,
        >(MessageView::Error { code, message }),
{
    text::text_of_encoded(message);
    assert((seq![code] + vstd::utf8::encode_utf8(message)).skip(1)
        =~= vstd::utf8::encode_utf8(message));
}

/// Where the fields of a framing header stand: the type in the first byte, nothing in the
/// next three, and the payload's length in the last four, low byte first. More than 448
/// kilobytes are refused.
pub proof fn framing_has_its_places(m: MessageView, b: Seq<u8>)
    ensures
        m.payload().len() < 0x1_0000_0000 ==> {
            let f = m.framed();
            &&& f.len() == 8 + m.payload().len()
            &&& f[0] == m.type_byte() && f[1] == 0 && f[2] == 0 && f[3] == 0
            &&& f[4] + 256 * f[5] + 65536 * f[6] + 16777216 * f[7] == m.payload().len()
            &&& f.skip(8) == m.payload()
        },
        b.len() < 8 ==> crate::v1::parsed_header(b) == Err::<FrameInfo, Error>(Error::Truncated),
        b.len() >= 8 ==> {
            let n = b[4] + 256 * b[5] + 65536 * b[6] + 16777216 * b[7];
            crate::v1::parsed_header(b) == if n > 458752 {
                Err::<FrameInfo, Error>(Error::PayloadTooLarge(n as u32))
            } else {
                Ok::<FrameInfo, Error>(FrameInfo { msg_type: b[0], payload_len: n as u32 })
            }
        },
{
    if m.payload().len() < 0x1_0000_0000 {
        let f = m.framed();
        wire::least_significant_byte_comes_first(0, m.payload().len() as u32);
        assert(f.skip(8) =~= m.payload());
    }
}

} // verus!
