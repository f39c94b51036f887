use flurry::v2::{
    encode_sframe, parse_sframe_header, parse_sframe_payload, region_flags, Codec, Region,
    SFrameHeader, MAX_PAYLOAD, PASS_HEADER_LEN, REGION_HEADER_LEN, SFRAME, SFRAME_HEADER_LEN,
};
use flurry::Error;

#[test]
fn sframe_roundtrip() {
    let a = Region {
        x: 100,
        y: 0,
        w: 100,
        h: 240,
        codec: Codec::Jpeg,
        flags: 0,
        data: &[0xFF, 0xD8, 0xFF],
    };
    let b = Region {
        x: 0,
        y: 60,
        w: 8,
        h: 60,
        codec: Codec::Raw565,
        flags: region_flags::FIELD_B | region_flags::INTERLACED,
        data: &[1, 2, 3, 4],
    };
    let bytes = encode_sframe(1, 0xBEEF, 0x00, &[a, b]);
    let hdr = parse_sframe_header(&bytes).unwrap();
    assert_eq!(hdr.screen, 1);
    assert_eq!(hdr.seq, 0xBEEF);
    assert_eq!(hdr.payload_len as usize, bytes.len() - SFRAME_HEADER_LEN);
    let p = parse_sframe_payload(&bytes[SFRAME_HEADER_LEN..]).unwrap();
    assert_eq!(p.regions, vec![a, b]);
}

#[test]
fn empty_pass_is_legal() {
    let bytes = encode_sframe(0, 7, 0, &[]);
    let p = parse_sframe_payload(&bytes[SFRAME_HEADER_LEN..]).unwrap();
    assert!(p.regions.is_empty());
}

#[test]
fn truncation_and_bad_codec_rejected() {
    let r = Region {
        x: 0,
        y: 0,
        w: 4,
        h: 4,
        codec: Codec::Raw565,
        flags: 0,
        data: &[0; 32],
    };
    let mut bytes = encode_sframe(0, 1, 0, &[r]);
    assert!(parse_sframe_payload(&bytes[SFRAME_HEADER_LEN..bytes.len() - 1]).is_err());
    bytes[SFRAME_HEADER_LEN + PASS_HEADER_LEN + 8] = 9; // codec
    assert!(matches!(
        parse_sframe_payload(&bytes[SFRAME_HEADER_LEN..]),
        Err(Error::BadValue { field: "codec", .. })
    ));
}

fn region(data: &[u8]) -> Region<'_> {
    Region {
        x: 0x0102,
        y: 3,
        w: 4,
        h: 5,
        codec: Codec::RawBgr8,
        flags: region_flags::DOWNSCALED,
        data,
    }
}

#[test]
fn bytes_of_an_sframe() {
    let bytes = encode_sframe(1, 0xBEEF, 0x55, &[region(&[7, 8])]);
    assert_eq!(
        bytes,
        vec![
            0x90, 1, 0xEF, 0xBE, 20, 0, 0, 0, // header
            0x55, 1, 0, 0, // pass
            2, 1, 3, 0, 4, 0, 5, 0, 3, 4, 2, 0, 0, 0, 7, 8, // region
        ]
    );
    assert_eq!(
        bytes.len(),
        SFRAME_HEADER_LEN + PASS_HEADER_LEN + REGION_HEADER_LEN + 2
    );
}

#[test]
fn every_cut_is_noticed_and_trailing_bytes_are_not() {
    let bytes = encode_sframe(0, 1, 9, &[region(&[1, 2, 3]), region(&[])]);
    let payload = &bytes[SFRAME_HEADER_LEN..];
    for n in 0..payload.len() {
        assert_eq!(parse_sframe_payload(&payload[..n]), Err(Error::Truncated));
    }
    let whole = parse_sframe_payload(payload).unwrap();
    assert_eq!((whole.pass_flags, whole.regions.len()), (9, 2));
    let mut longer = payload.to_vec();
    longer.extend_from_slice(&[1, 2, 3]);
    assert_eq!(parse_sframe_payload(&longer).unwrap(), whole);
}

#[test]
fn parsed_payload_encodes_back() {
    let bytes = encode_sframe(0, 1, 9, &[region(&[1, 2, 3])]);
    let pass = parse_sframe_payload(&bytes[SFRAME_HEADER_LEN..]).unwrap();
    assert_eq!(encode_sframe(0, 1, pass.pass_flags, &pass.regions), bytes);
}

#[test]
fn sframe_headers_are_checked() {
    assert_eq!(parse_sframe_header(&[SFRAME; 7]), Err(Error::Truncated));
    assert_eq!(
        parse_sframe_header(&[0x91, 0, 0, 0, 0, 0, 0, 0]),
        Err(Error::UnknownType(0x91))
    );
    let mut buf = vec![SFRAME, 0, 1, 2];
    buf.extend_from_slice(&(MAX_PAYLOAD + 1).to_le_bytes());
    assert_eq!(
        parse_sframe_header(&buf),
        Err(Error::PayloadTooLarge(MAX_PAYLOAD + 1))
    );
    buf.truncate(4);
    buf.extend_from_slice(&MAX_PAYLOAD.to_le_bytes());
    assert_eq!(
        parse_sframe_header(&buf),
        Ok(SFrameHeader {
            screen: 0,
            seq: 0x0201,
            payload_len: MAX_PAYLOAD
        })
    );
}

#[test]
fn oversized_pass_is_announced_as_it_is() {
    let data = vec![0u8; MAX_PAYLOAD as usize];
    let bytes = encode_sframe(0, 0, 0, &[region(&data)]);
    assert_eq!(
        parse_sframe_header(&bytes),
        Err(Error::PayloadTooLarge(MAX_PAYLOAD + 18))
    );
}

#[test]
fn count_field_wraps() {
    let many = vec![region(&[]); 257];
    let bytes = encode_sframe(0, 0, 0, &many);
    assert_eq!(bytes[SFRAME_HEADER_LEN + 1], 1);
    assert_eq!(
        bytes.len(),
        SFRAME_HEADER_LEN + PASS_HEADER_LEN + 257 * REGION_HEADER_LEN
    );
}
