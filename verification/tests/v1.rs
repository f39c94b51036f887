use flurry::{
    msg_type, parse_header, Config, Device, Error, FrameHeader, Hello, ImageFormat, Interlace,
    Message, PixFmt, Screen, ScreenSelect, FRAME_HEADER_LEN, HEADER_LEN, MAGIC, MAX_PAYLOAD, PORT,
    PROTO_VERSION,
};

fn roundtrip(msg: Message) {
    let bytes = msg.encode();
    let info = parse_header(&bytes).unwrap();
    assert_eq!(info.msg_type, msg.msg_type());
    assert_eq!(info.payload_len as usize, bytes.len() - HEADER_LEN);
    let decoded = Message::decode(info.msg_type, &bytes[HEADER_LEN..]).unwrap();
    assert_eq!(decoded, msg);
}

#[test]
fn roundtrip_all_messages() {
    roundtrip(Message::Hello(Hello {
        proto_version: PROTO_VERSION,
        device: Device::Old3ds,
    }));
    roundtrip(Message::Config(Config::default()));
    roundtrip(Message::Config(Config {
        quality: 100,
        screens: ScreenSelect::Both,
        format: ImageFormat::Tga,
        interlace: true,
    }));
    roundtrip(Message::Start);
    roundtrip(Message::Stop);
    roundtrip(Message::Disconnect);
    roundtrip(Message::Debug("hello".into()));
    roundtrip(Message::Stats("fps=24\nencode_ms=11".into()));
    roundtrip(Message::Frame {
        header: FrameHeader {
            screen: Screen::Bottom,
            format: ImageFormat::Jpeg,
            pixfmt: PixFmt::Rgb565,
            interlace: Interlace::FieldB,
            chunk_index: 3,
            chunk_count: 8,
            frame_id: 0xBEEF,
        },
        image: vec![0xFF, 0xD8, 0xFF, 0xE0],
    });
    roundtrip(Message::Error {
        code: 0,
        message: "boom".into(),
    });
}

#[test]
fn header_layout_is_exact() {
    let bytes = Message::Start.encode();
    assert_eq!(bytes, vec![0x03, 0, 0, 0, 0, 0, 0, 0]);

    let bytes = Message::Debug("ab".into()).encode();
    assert_eq!(bytes[0], 0x7F);
    assert_eq!(&bytes[4..8], &2u32.to_le_bytes());
    assert_eq!(&bytes[8..], b"ab");
}

#[test]
fn hello_magic_checked() {
    let mut bytes = Message::Hello(Hello {
        proto_version: 1,
        device: Device::New3ds,
    })
    .encode();
    bytes[8] = b'X';
    let err = Message::decode(msg_type::HELLO, &bytes[HEADER_LEN..]).unwrap_err();
    assert!(matches!(err, Error::BadMagic(_)));
}

#[test]
fn longer_payloads_accepted() {
    // Extensibility rule: unknown trailing bytes are ignored.
    let mut bytes = Message::Config(Config::default()).encode();
    bytes.extend_from_slice(&[9, 9, 9]); // future fields
    let decoded = Message::decode(msg_type::CONFIG, &bytes[HEADER_LEN..]).unwrap();
    assert_eq!(decoded, Message::Config(Config::default()));
}

#[test]
fn truncated_payload_rejected() {
    assert_eq!(
        Message::decode(msg_type::CONFIG, &[70, 0]).unwrap_err(),
        Error::Truncated
    );
    assert_eq!(parse_header(&[0x03, 0, 0]).unwrap_err(), Error::Truncated);
}

#[test]
fn oversized_payload_rejected() {
    let mut buf = vec![0x81, 0, 0, 0];
    buf.extend_from_slice(&(MAX_PAYLOAD + 1).to_le_bytes());
    assert_eq!(
        parse_header(&buf).unwrap_err(),
        Error::PayloadTooLarge(MAX_PAYLOAD + 1)
    );
}

#[test]
fn unknown_type_surfaced() {
    assert_eq!(
        Message::decode(0x60, &[]).unwrap_err(),
        Error::UnknownType(0x60)
    );
}

#[test]
fn constants_are_those_of_the_protocol() {
    assert_eq!(PORT, 6464);
    assert_eq!(&MAGIC, b"FLRY");
    assert_eq!(HEADER_LEN, 8);
    assert_eq!(FRAME_HEADER_LEN, 8);
    assert_eq!(MAX_PAYLOAD, 458752);
    assert_eq!(Screen::HEIGHT, 240);
    assert_eq!(Screen::Top.width(), 400);
    assert_eq!(Screen::Bottom.width(), 320);
}

#[test]
fn largest_payload_is_accepted() {
    let mut buf = vec![0x81, 0, 0, 0];
    buf.extend_from_slice(&MAX_PAYLOAD.to_le_bytes());
    let info = parse_header(&buf).unwrap();
    assert_eq!((info.msg_type, info.payload_len), (0x81, MAX_PAYLOAD));
}

#[test]
fn error_messages_read_well() {
    assert_eq!(Error::Truncated.message(), "message truncated");
    assert_eq!(
        Error::PayloadTooLarge(458753).message(),
        "payload length 458753 exceeds maximum"
    );
    assert_eq!(
        Error::BadMagic([0x58, 0x4C, 0x52, 0x09]).message(),
        "bad HELLO magic [58, 4c, 52, 09]"
    );
    assert_eq!(
        Error::BadValue {
            field: "device",
            value: 7
        }
        .message(),
        "invalid value 7 for device"
    );
    assert_eq!(
        Error::UnknownType(0x0A).message(),
        "unknown message type 0x0a"
    );
}

#[test]
fn bad_values_name_their_field() {
    let hello = Message::Hello(Hello {
        proto_version: 1,
        device: Device::New3ds,
    })
    .encode();
    let mut payload = hello[HEADER_LEN..].to_vec();
    payload[6] = 2;
    assert_eq!(
        Message::decode(msg_type::HELLO, &payload),
        Err(Error::BadValue {
            field: "device",
            value: 2
        })
    );
    assert!(matches!(
        Message::decode(msg_type::CONFIG, &[70, 3, 0, 0]),
        Err(Error::BadValue { value: 3, .. })
    ));
    assert!(matches!(
        Message::decode(msg_type::CONFIG, &[70, 0, 2, 0]),
        Err(Error::BadValue { value: 2, .. })
    ));
}

#[test]
fn lossy_text_is_replaced() {
    assert_eq!(
        Message::decode(msg_type::DEBUG, &[b'a', 0xFF, b'b']),
        Ok(Message::Debug("a\u{FFFD}b".into()))
    );
    assert_eq!(
        Message::decode(msg_type::STATS, "grün".as_bytes()),
        Ok(Message::Stats("grün".into()))
    );
}

#[test]
fn bytes_of_a_frame() {
    let bytes = Message::Frame {
        header: FrameHeader {
            screen: Screen::Bottom,
            format: ImageFormat::Tga,
            pixfmt: PixFmt::Rgb565,
            interlace: Interlace::FieldB,
            chunk_index: 3,
            chunk_count: 8,
            frame_id: 0xBEEF,
        },
        image: vec![1, 2],
    }
    .encode();
    let code = Message::decode(bytes[0], &bytes[HEADER_LEN..]).unwrap();
    assert_eq!(code.msg_type(), msg_type::FRAME);
    assert_eq!(bytes.len(), HEADER_LEN + FRAME_HEADER_LEN + 2);
    assert_eq!(&bytes[4..8], &[10, 0, 0, 0]);
    assert_eq!(&bytes[bytes.len() - 4..], &[0xEF, 0xBE, 1, 2]);
}
