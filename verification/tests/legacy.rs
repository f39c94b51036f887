use flurry::legacy::{
    encode_capture, encode_chunks, encode_disconnect, encode_downscale, encode_format_tga,
    encode_fps_cap, encode_grid_cols, encode_grid_rows, encode_init, encode_interlace,
    encode_quality, encode_refresh_interval, encode_screen, encode_stats_enabled,
    encode_strip_skip, encode_strip_sleep, encode_v2_enable, feature, feature2, parse_header, pkt,
    setting, Announce, ImageInfo, PacketInfo, ScreenSet, HEADER_LEN, MAX_PAYLOAD,
};
use flurry::Error;

#[test]
fn control_packets_match_wire_format() {
    assert_eq!(encode_init(), vec![0x02, 0, 0, 0, 0, 0, 0, 0]);
    assert_eq!(encode_disconnect(), vec![0x03, 0, 0, 0, 0, 0, 0, 0]);
    assert_eq!(
        encode_quality(70),
        vec![0x04, 0x01, 0, 0, 1, 0, 0, 0, 70]
    );
    assert_eq!(
        encode_screen(ScreenSet::Both),
        vec![0x04, 0x03, 0, 0, 1, 0, 0, 0, 3]
    );
    assert_eq!(
        encode_interlace(true),
        vec![0x04, 0x05, 0, 0, 1, 0, 0, 0, 1]
    );
    assert_eq!(encode_quality(0)[8], 1, "quality clamped to 1..=100");
}

#[test]
fn image_flags_unpack() {
    // Bottom screen, JPEG, RGB565, interlaced, phase set.
    let info = PacketInfo {
        ptype: pkt::IMAGE,
        subtype: 0b0111_0010,
        subtype_b: 0,
        payload_len: 4,
    };
    let img = ImageInfo::from_packet(&info);
    assert!(img.bottom && img.interlaced && img.interlace_phase && !img.tga);
    assert_eq!(img.pixfmt, 2);
    assert_eq!(img.chunk, None);
    assert_eq!(img.screen_width(), 320);

    // Old-3DS chunk 5, top screen, TGA.
    let info = PacketInfo {
        ptype: pkt::IMAGE,
        subtype: 0b0000_1001,
        subtype_b: 0b0000_1101,
        payload_len: 4,
    };
    let img = ImageInfo::from_packet(&info);
    assert!(!img.bottom && img.tga);
    assert_eq!(img.chunk, Some(5));
}

#[test]
fn extension_packets_and_announce() {
    assert_eq!(
        encode_strip_skip(true),
        vec![0x04, 0x06, 0, 0, 1, 0, 0, 0, 1]
    );
    assert_eq!(
        encode_refresh_interval(64),
        vec![0x04, 0x07, 0, 0, 1, 0, 0, 0, 64]
    );
    assert_eq!(encode_fps_cap(30), vec![0x04, 0x08, 0, 0, 1, 0, 0, 0, 30]);

    let a = Announce::parse(&[1, feature::STRIP_SKIP | feature::FPS_CAP]).unwrap();
    assert_eq!(a.revision, 1);
    assert!(a.has(feature::STRIP_SKIP) && a.has(feature::FPS_CAP));
    assert!(!a.has(feature::OLD3DS_INTERLACE));
    assert_eq!(Announce::parse(&[1]).unwrap_err(), Error::Truncated);
}

#[test]
fn header_roundtrip() {
    let p = encode_quality(90);
    let info = parse_header(&p).unwrap();
    assert_eq!(info.ptype, pkt::SETTING);
    assert_eq!(info.subtype, setting::QUALITY);
    assert_eq!(info.payload_len, 1);
}

#[test]
fn every_setting_has_its_packet() {
    let packet = |sub: u8, value: u8| vec![0x04, sub, 0, 0, 1, 0, 0, 0, value];
    assert_eq!(encode_quality(101), packet(0x01, 100));
    assert_eq!(encode_screen(ScreenSet::Top), packet(0x03, 1));
    assert_eq!(encode_screen(ScreenSet::Bottom), packet(0x03, 2));
    assert_eq!(encode_format_tga(false), packet(0x04, 0));
    assert_eq!(encode_format_tga(true), packet(0x04, 1));
    assert_eq!(encode_interlace(false), packet(0x05, 0));
    assert_eq!(encode_strip_skip(false), packet(0x06, 0));
    assert_eq!(encode_chunks(8), packet(0x09, 8));
    assert_eq!(encode_strip_sleep(20), packet(0x0A, 20));
    assert_eq!(encode_downscale(true), packet(0x0B, 1));
    assert_eq!(encode_stats_enabled(true), packet(0x0C, 1));
    assert_eq!(encode_v2_enable(true), packet(0x0F, 1));
    assert_eq!(encode_grid_cols(16), packet(0x10, 16));
    assert_eq!(encode_grid_rows(8), packet(0x11, 8));
    assert_eq!(encode_capture(1), packet(0x12, 1));
}

#[test]
fn legacy_headers_are_checked() {
    assert_eq!(parse_header(&[1, 2, 3, 4, 5, 6, 7]), Err(Error::Truncated));
    let mut buf = vec![pkt::IMAGE, 0x12, 0x0D, 0xEE];
    buf.extend_from_slice(&(MAX_PAYLOAD + 1).to_le_bytes());
    assert_eq!(
        parse_header(&buf),
        Err(Error::PayloadTooLarge(MAX_PAYLOAD + 1))
    );
    buf.truncate(4);
    buf.extend_from_slice(&MAX_PAYLOAD.to_le_bytes());
    assert_eq!(
        parse_header(&buf),
        Ok(PacketInfo {
            ptype: pkt::IMAGE,
            subtype: 0x12,
            subtype_b: 0x0D,
            payload_len: MAX_PAYLOAD,
        })
    );
    assert_eq!(buf.len(), HEADER_LEN);
}

#[test]
fn second_feature_byte_is_optional() {
    let short = Announce::parse(&[3, 0xFF]).unwrap();
    assert_eq!(short.features2, 0);
    assert!(!short.has2(feature2::CELL_GRID));
    let long = Announce::parse(&[3, feature::V2, feature2::CAPTURE, 9, 9]).unwrap();
    assert!(long.has(feature::V2) && !long.has(feature::DOWNSCALE));
    assert!(long.has2(feature2::CAPTURE) && !long.has2(feature2::CELL_GRID));
    assert_eq!(
        long,
        Announce::parse(&[3, feature::V2, feature2::CAPTURE]).unwrap()
    );
}

#[test]
fn every_flag_bit_has_its_field() {
    let unpack = |subtype: u8| {
        ImageInfo::from_packet(&PacketInfo {
            ptype: pkt::IMAGE,
            subtype,
            subtype_b: 0x08,
            payload_len: 0,
        })
    };
    let none = unpack(0);
    assert_eq!((none.bottom, none.tga, none.pixfmt), (false, false, 0));
    assert!(!none.interlaced && !none.interlace_phase && !none.downscaled);
    assert_eq!(none.chunk, Some(0));
    assert_eq!(none.screen_width(), 400);
    assert!(unpack(0x80).downscaled);
    assert!(unpack(0x40).interlace_phase);
    assert!(unpack(0x20).interlaced);
    assert!(unpack(0x10).bottom);
    assert!(unpack(0x08).tga);
    assert_eq!(unpack(0x07).pixfmt, 7);
}
