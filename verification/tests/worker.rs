use flurry::jpeg::Decoded;
use flurry::layout::check_layout;
use flurry::legacy::{meta, pkt, Announce, ImageInfo, PacketInfo, ScreenSet, MAX_PAYLOAD};
use flurry::picture::{Image, Pixel};
use flurry::worker::{
    attempt_failed, handshake, target_address, Attempt, Cmd, Event, Link, Reader, Step,
};

/// An 8 by 8 baseline JPEG that is gray 100 all over.
fn gray_jpeg() -> Vec<u8> {
    let mut b = vec![0xFF, 0xD8];
    // Quantisation: every step is 8.
    b.extend_from_slice(&[0xFF, 0xDB, 0x00, 0x43, 0x00]);
    b.extend_from_slice(&[8; 64]);
    // 8 by 8, three components, no subsampling.
    b.extend_from_slice(&[0xFF, 0xC0, 0x00, 0x11, 8, 0, 8, 0, 8, 3]);
    b.extend_from_slice(&[1, 0x11, 0, 2, 0x11, 0, 3, 0x11, 0]);
    // DC codes: 00 is 0, 01 is 5, 10 is 6.
    b.extend_from_slice(&[0xFF, 0xC4, 0x00, 0x16, 0x00]);
    b.extend_from_slice(&[0, 3, 0, 0, 0, 0, 0, 0, 0, 0, 0, 0, 0, 0, 0, 0]);
    b.extend_from_slice(&[0, 5, 6]);
    // AC codes: 00 ends a block, 01 is not used.
    b.extend_from_slice(&[0xFF, 0xC4, 0x00, 0x15, 0x10]);
    b.extend_from_slice(&[0, 2, 0, 0, 0, 0, 0, 0, 0, 0, 0, 0, 0, 0, 0, 0]);
    b.extend_from_slice(&[0x00, 0x01]);
    // One scan: luma -28, both chromas 0.
    b.extend_from_slice(&[0xFF, 0xDA, 0x00, 0x0C, 3, 1, 0, 2, 0, 3, 0, 0, 63, 0]);
    // 01 00011 00 | 00 00 | 00 00
    b.extend_from_slice(&[0b0100_0110, 0b0000_0000, 0b0111_1111]);
    b.extend_from_slice(&[0xFF, 0xD9]);
    b
}

fn image_packet(subtype: u8, subtype_b: u8, payload: &[u8]) -> PacketInfo {
    PacketInfo {
        ptype: pkt::IMAGE,
        subtype,
        subtype_b,
        payload_len: payload.len() as u32,
    }
}

fn meta_packet(subtype: u8, payload: &[u8]) -> PacketInfo {
    PacketInfo {
        ptype: pkt::META,
        subtype,
        subtype_b: 0,
        payload_len: payload.len() as u32,
    }
}

fn at(image: &Image, x: usize, y: usize) -> Pixel {
    image.pixels[y * image.width + x]
}

const BLANK: Pixel = Pixel { r: 20, g: 20, b: 20 };
const GRAY: Pixel = Pixel { r: 100, g: 100, b: 100 };

#[test]
fn jpeg_packets_reach_the_screen() {
    let jpeg = gray_jpeg();
    let mut reader = Reader::new();
    let event = reader.handle_packet(&image_packet(0x10, 0x09, &jpeg), &jpeg);
    let Some(Event::Screen { bottom, image, bytes, chunk }) = event else {
        panic!("no screen: {event:?}");
    };
    assert!(bottom);
    assert_eq!(bytes, 8 + jpeg.len());
    assert_eq!(chunk, Some(1));
    assert_eq!((image.width, image.height), (320, 240));
    // The second strip of eight columns, the lowest eight rows.
    for y in 0..240 {
        for x in 0..320 {
            let inside = (8..16).contains(&x) && y >= 232;
            assert_eq!(at(&image, x, y), if inside { GRAY } else { BLANK });
        }
    }
}

/// Whether a file is refused before it is decoded.
fn refused(jpeg: &[u8]) -> bool {
    let mut reader = Reader::new();
    match reader.handle_packet(&image_packet(0, 0, jpeg), jpeg) {
        Some(Event::Info(text)) => text == "JPEG decode failed: unsupported JPEG layout",
        _ => false,
    }
}

#[test]
fn layouts_that_upset_the_decoder_are_refused() {
    // The second component is sampled more finely than the first, and the first scan
    // has only the first.
    let mut b = vec![0xFF, 0xD8, 0xFF, 0xDB, 0x00, 0x43, 0x00];
    b.extend_from_slice(&[1; 64]);
    b.extend_from_slice(&[0xFF, 0xC0, 0x00, 0x11, 8, 0, 16, 0, 16, 3]);
    b.extend_from_slice(&[1, 0x11, 0, 2, 0x22, 0, 3, 0x11, 0]);
    for class in [0x00, 0x10] {
        b.extend_from_slice(&[0xFF, 0xC4, 0x00, 0x14, class, 1]);
        b.extend_from_slice(&[0; 16]);
    }
    b.extend_from_slice(&[0xFF, 0xDA, 0x00, 0x08, 1, 1, 0, 0, 63, 0]);
    b.extend_from_slice(&[0; 64]);
    assert!(!check_layout(&b));
    assert!(refused(&b));
    // With the finest component first the file is decoded.
    b[82] = 0x22;
    b[85] = 0x11;
    assert!(check_layout(&b));
    assert!(!refused(&b));
}

#[test]
fn ordinary_layouts_are_decoded() {
    let jpeg = gray_jpeg();
    assert!(check_layout(&jpeg) && !refused(&jpeg));
    let factors = jpeg.iter().position(|b| *b == 0x11).unwrap() + 8;
    assert_eq!(&jpeg[factors - 1..factors + 2], &[1, 0x11, 0]);
    let with = |first: u8, second: u8, third: u8| {
        let mut b = jpeg.clone();
        b[factors] = first;
        b[factors + 3] = second;
        b[factors + 6] = third;
        check_layout(&b)
    };
    for first in [0x11, 0x12, 0x21, 0x22, 0x41] {
        assert!(with(first, 0x11, 0x11));
    }
    assert!(with(0x22, 0x21, 0x11) && with(0x22, 0x12, 0x12) && with(0x22, 0x11, 0x12));
    assert!(!with(0x11, 0x21, 0x11) && !with(0x11, 0x12, 0x11));
    assert!(!with(0x11, 0x11, 0x12) && !with(0x21, 0x12, 0x11));
    assert!(check_layout(&[]) && check_layout(&jpeg[..factors]));
}

#[test]
fn differences_have_to_fit() {
    // 1000 by 1000 pixels are 16641 blocks at most; a step of 8 is fine, one of 255 is
    // not.
    let mut jpeg = gray_jpeg();
    let frame = jpeg.windows(2).position(|w| w == [0xFF, 0xC0]).unwrap();
    jpeg[frame + 5..frame + 9].copy_from_slice(&[3, 0xE8, 3, 0xE8]);
    assert!(check_layout(&jpeg));
    jpeg[7] = 255;
    assert!(!check_layout(&jpeg));
    // A progressive frame does not add them up that far.
    jpeg[frame + 1] = 0xC2;
    assert!(check_layout(&jpeg));
    // Greater differences need a smaller image.
    let mut jpeg = gray_jpeg();
    jpeg[frame + 5..frame + 9].copy_from_slice(&[3, 0xE8, 3, 0xE8]);
    let symbols = jpeg.windows(3).position(|w| w == [0, 5, 6]).unwrap();
    jpeg[symbols + 2] = 15;
    assert!(!check_layout(&jpeg));
}

/// The bits of a scan, with a zero after each byte that could start a marker.
struct Bits {
    bytes: Vec<u8>,
    held: u32,
    count: u32,
}

impl Bits {
    fn put(&mut self, value: u32, n: u32) {
        for k in (0..n).rev() {
            self.held = 2 * self.held + (value >> k & 1);
            self.count += 1;
            if self.count == 8 {
                self.bytes.push(self.held as u8);
                if self.held == 0xFF {
                    self.bytes.push(0);
                }
                self.held = 0;
                self.count = 0;
            }
        }
    }
}

/// A 33 by 33 baseline JPEG, the first component sampled four by four, in which every
/// DC difference is 2047 and is multiplied by `step`.
fn steep_jpeg(step: u16) -> Vec<u8> {
    let mut b = vec![0xFF, 0xD8, 0xFF, 0xDB, 0x00, 0x83, 0x10];
    b.extend_from_slice(&step.to_be_bytes());
    b.extend_from_slice(&[0, 1].repeat(63));
    b.extend_from_slice(&[0xFF, 0xC0, 0x00, 0x11, 8, 0, 33, 0, 33, 3]);
    b.extend_from_slice(&[1, 0x44, 0, 2, 0x11, 0, 3, 0x11, 0]);
    // DC codes: 0 is 11.
    b.extend_from_slice(&[0xFF, 0xC4, 0x00, 0x14, 0x00, 1]);
    b.extend_from_slice(&[0; 15]);
    b.push(11);
    // AC codes: 00 ends a block, 01 skips sixteen values.
    b.extend_from_slice(&[0xFF, 0xC4, 0x00, 0x15, 0x10, 0, 2]);
    b.extend_from_slice(&[0; 14]);
    b.extend_from_slice(&[0x00, 0xF0]);
    b.extend_from_slice(&[0xFF, 0xDA, 0x00, 0x0C, 3, 1, 0, 2, 0, 3, 0, 0, 63, 0]);
    let mut bits = Bits { bytes: Vec::new(), held: 0, count: 0 };
    for _ in 0..4 * 18 {
        bits.put(0b0111_1111_1111, 12);
        bits.put(0b0100, 4);
    }
    b.extend_from_slice(&bits.bytes);
    b.extend_from_slice(&[0xFF, 0xD9]);
    b
}

#[test]
fn products_leave_room_to_round() {
    // 64 blocks of 2047: 64 * 2047 * 16391 leaves room for 1028, the next step does not.
    let jpeg = steep_jpeg(16391);
    assert!(check_layout(&jpeg));
    let mut reader = Reader::new();
    let event = reader.handle_packet(&image_packet(0, 0, &jpeg), &jpeg);
    let Some(Event::Screen { image, .. }) = event else {
        panic!("no screen: {event:?}");
    };
    // All three components are at their greatest.
    assert_eq!(at(&image, 0, 239), Pixel { r: 255, g: 121, b: 255 });
    assert_eq!(at(&image, 32, 207), Pixel { r: 255, g: 121, b: 255 });
    assert_eq!(at(&image, 33, 239), BLANK);
    let jpeg = steep_jpeg(16392);
    assert!(!check_layout(&jpeg) && refused(&jpeg));
}

/// An Adobe segment that names a colour space.
fn adobe(transform: u8) -> Vec<u8> {
    let mut b = vec![0xFF, 0xEE, 0, 14];
    b.extend_from_slice(b"Adobe");
    b.extend_from_slice(&[0, 100, 0, 0, 0, 0, transform]);
    b
}

/// An 8 by 8 frame of this kind and with this many components, with an Adobe segment
/// ahead of its header or behind it.
fn named(kind: u8, components: u8, transform: u8, ahead: bool) -> Vec<u8> {
    let mut b = vec![0xFF, 0xD8];
    if ahead {
        b.extend_from_slice(&adobe(transform));
    }
    b.extend_from_slice(&[0xFF, 0xDB, 0x00, 0x43, 0x00]);
    b.extend_from_slice(&[8; 64]);
    b.extend_from_slice(&[0xFF, kind, 0x00, 8 + 3 * components, 8, 0, 8, 0, 8, components]);
    for id in 1..=components {
        b.extend_from_slice(&[id, 0x11, 0]);
    }
    if !ahead {
        b.extend_from_slice(&adobe(transform));
    }
    // DC codes: 00 is 0. AC codes: 00 ends a block.
    for class in [0x00, 0x10] {
        b.extend_from_slice(&[0xFF, 0xC4, 0x00, 0x14, class, 0, 1]);
        b.extend_from_slice(&[0; 15]);
    }
    b.extend_from_slice(&[0xFF, 0xDA, 0x00, 6 + 2 * components, components]);
    for id in 1..=components {
        b.extend_from_slice(&[id, 0]);
    }
    b.extend_from_slice(&[0, if kind == 0xC2 { 0 } else { 63 }, 0]);
    b.extend_from_slice(&[0, 0, 0xFF, 0xD9]);
    b
}

#[test]
fn colour_spaces_go_with_the_components() {
    for kind in [0xC0, 0xC1, 0xC2] {
        for components in 1..=4 {
            for transform in 0..=2 {
                for ahead in [true, false] {
                    let jpeg = named(kind, components, transform, ahead);
                    let upset = kind == 0xC2
                        && match components {
                            1 => transform == 2 && !ahead,
                            2 => transform == 2,
                            4 => transform == 1 && !ahead,
                            _ => false,
                        };
                    let case = (kind, components, transform, ahead);
                    assert_eq!(check_layout(&jpeg), !upset, "{case:?}");
                    assert_eq!(refused(&jpeg), upset, "{case:?}");
                }
            }
        }
    }
    // A segment of another maker names nothing.
    let mut jpeg = named(0xC2, 2, 2, true);
    jpeg[6] = b'B';
    assert!(check_layout(&jpeg) && !refused(&jpeg));
}

#[test]
fn gray_frames_may_name_a_colour_space() {
    let jpeg = named(0xC0, 1, 1, true);
    let mut reader = Reader::new();
    let event = reader.handle_packet(&image_packet(0, 0, &jpeg), &jpeg);
    let Some(Event::Screen { image, .. }) = event else {
        panic!("no screen: {event:?}");
    };
    assert_eq!(at(&image, 7, 232), Pixel { r: 128, g: 128, b: 128 });
    assert_eq!(at(&image, 8, 239), BLANK);
}

#[test]
fn headers_that_the_decoder_rejects_are_left_to_it() {
    // Two differently sampled components, of which the first is the coarser.
    let mut jpeg = named(0xC0, 2, 0, true);
    let frame = jpeg.windows(2).position(|w| w == [0xFF, 0xC0]).unwrap();
    jpeg[frame + 14] = 0x22;
    assert!(!check_layout(&jpeg) && refused(&jpeg));
    // Twelve bits per sample, a side of zero, one that is too long.
    for (at, value) in [(4, 12), (6, 0), (8, 0), (5, 0x41), (7, 0x41)] {
        let mut b = jpeg.clone();
        b[frame + at] = value;
        assert!(check_layout(&b) && !refused(&b), "{at}");
    }
}

#[test]
fn too_long_to_count() {
    // No frame, but more bytes than can be counted.
    assert!(!check_layout(&vec![0; 0x8000_0000]));
}

#[test]
fn broken_jpeg_is_reported() {
    let mut reader = Reader::new();
    let payload = [1u8, 2, 3, 4];
    let event = reader.handle_packet(&image_packet(0, 0, &payload), &payload);
    let Some(Event::Info(text)) = event else {
        panic!("no notice: {event:?}");
    };
    assert!(text.starts_with("JPEG decode failed: "));
    assert!(text.len() > "JPEG decode failed: ".len());
}

fn top_image() -> ImageInfo {
    ImageInfo {
        bottom: false,
        tga: false,
        pixfmt: 0,
        interlaced: false,
        interlace_phase: false,
        downscaled: false,
        chunk: None,
    }
}

#[test]
fn blue_and_red_are_swapped_back() {
    let mut reader = Reader::new();
    let answer = Ok(Decoded {
        rgb: vec![1, 2, 3, 4, 5, 6],
        size: Some((2, 1)),
    });
    let Some(Event::Screen { bottom: false, image, bytes: 99, chunk: None }) =
        reader.apply_image(top_image(), 99, answer)
    else {
        panic!("no screen");
    };
    assert_eq!((image.width, image.height), (400, 240));
    assert_eq!(at(&image, 0, 239), Pixel { r: 3, g: 2, b: 1 });
    assert_eq!(at(&image, 0, 238), Pixel { r: 6, g: 5, b: 4 });
    assert_eq!(at(&image, 0, 237), BLANK);
    assert_eq!(at(&image, 1, 239), BLANK);
}

#[test]
fn decoder_answers_are_weighed() {
    let mut reader = Reader::new();
    assert_eq!(
        reader.apply_image(top_image(), 9, Err("no such luck".into())),
        Some(Event::Info("JPEG decode failed: no such luck".into()))
    );
    let unknown = Decoded {
        rgb: vec![0; 300],
        size: None,
    };
    assert_eq!(reader.apply_image(top_image(), 9, Ok(unknown)), None);
    let short = Decoded {
        rgb: vec![0; 11],
        size: Some((2, 2)),
    };
    assert_eq!(
        reader.apply_image(top_image(), 9, Ok(short)),
        Some(Event::Info(
            "unexpected decode output: 2x2 but 11 bytes".into()
        ))
    );
    let huge = Decoded {
        rgb: vec![],
        size: Some((usize::MAX, 2)),
    };
    let expected = format!(
        "unexpected decode output: {}x2 but 0 bytes",
        usize::MAX
    );
    assert_eq!(
        reader.apply_image(top_image(), 9, Ok(huge)),
        Some(Event::Info(expected))
    );
    let outside = ImageInfo {
        chunk: Some(7),
        ..top_image()
    };
    let far = Decoded {
        rgb: vec![],
        size: Some((0, usize::MAX)),
    };
    let Some(Event::Screen { image, .. }) = reader.apply_image(outside, 9, Ok(far)) else {
        panic!("no screen");
    };
    assert!(image.pixels.iter().all(|p| *p == BLANK));
}

#[test]
fn screens_persist_and_stay_apart() {
    let mut reader = Reader::new();
    let piece = |v: u8| {
        Ok(Decoded {
            rgb: vec![v; 3],
            size: Some((1, 1)),
        })
    };
    let bottom = ImageInfo {
        bottom: true,
        ..top_image()
    };
    reader.apply_image(top_image(), 0, piece(1));
    let Some(Event::Screen { image, .. }) = reader.apply_image(bottom, 0, piece(2)) else {
        panic!("no screen");
    };
    assert_eq!(at(&image, 0, 239), Pixel { r: 2, g: 2, b: 2 });
    let second = ImageInfo {
        chunk: Some(1),
        ..top_image()
    };
    let Some(Event::Screen { image, .. }) = reader.apply_image(second, 0, piece(3)) else {
        panic!("no screen");
    };
    assert_eq!(at(&image, 0, 239), Pixel { r: 1, g: 1, b: 1 });
    assert_eq!(at(&image, 1, 239), Pixel { r: 3, g: 3, b: 3 });
}

#[test]
fn downscaled_strips_stand_side_by_side() {
    let mut reader = Reader::new();
    let second = ImageInfo {
        downscaled: true,
        chunk: Some(1),
        ..top_image()
    };
    let answer = Ok(Decoded {
        rgb: vec![7; 9],
        size: Some((1, 3)),
    });
    let Some(Event::Screen { image, .. }) = reader.apply_image(second, 0, answer) else {
        panic!("no screen");
    };
    for x in 0..400 {
        for y in 0..240 {
            let expected = if (6..12).contains(&x) && y >= 238 {
                Pixel { r: 7, g: 7, b: 7 }
            } else {
                BLANK
            };
            assert_eq!(at(&image, x, y), expected);
        }
    }
    let far = Decoded {
        rgb: vec![],
        size: Some((0, usize::MAX)),
    };
    for chunk in [None, Some(0), Some(7)] {
        let img = ImageInfo { chunk, ..second };
        let far = Decoded {
            rgb: far.rgb.clone(),
            size: far.size,
        };
        assert!(matches!(
            reader.apply_image(img, 0, Ok(far)),
            Some(Event::Screen { .. })
        ));
    }
}

#[test]
fn tga_is_noted_once() {
    let mut reader = Reader::new();
    let tga = image_packet(0x08, 0, &[]);
    assert_eq!(
        reader.handle_packet(&tga, &[]),
        Some(Event::Info(
            "TGA frames not supported yet — switch format to JPEG".into()
        ))
    );
    let jpeg = gray_jpeg();
    reader.handle_packet(&image_packet(0, 0, &jpeg), &jpeg);
    assert_eq!(reader.handle_packet(&tga, &[]), None);
}

#[test]
fn meta_packets_are_told_apart() {
    let mut reader = Reader::new();
    let text = "fps=24 ü".as_bytes();
    assert_eq!(
        reader.handle_packet(&meta_packet(meta::STATS, text), text),
        Some(Event::Stats("fps=24 ü".into()))
    );
    let broken = [b'a', 0xC3, b'b'];
    assert_eq!(
        reader.handle_packet(&meta_packet(meta::ERROR, &broken), &broken),
        Some(Event::Info("3DS: a\u{FFFD}b".into()))
    );
    let announce = [2, 0x41];
    assert_eq!(
        reader.handle_packet(&meta_packet(meta::ANNOUNCE, &announce), &announce),
        Some(Event::Capabilities(Announce {
            revision: 2,
            features: 0x41,
            features2: 0
        }))
    );
    assert_eq!(
        reader.handle_packet(&meta_packet(meta::ANNOUNCE, &[2]), &[2]),
        None
    );
}

#[test]
fn unknown_packets_are_skipped() {
    let mut reader = Reader::new();
    let odd = PacketInfo {
        ptype: 0x55,
        subtype: 0,
        subtype_b: 0,
        payload_len: 2,
    };
    assert_eq!(reader.handle_packet(&odd, &[1, 2]), None);
    assert_eq!(reader, Reader::new());
}

#[test]
fn link_reads_packet_by_packet() {
    let mut link = Link::new();
    assert_eq!(link.wanted(), 8);
    assert_eq!(
        link.received(&[pkt::META, meta::STATS, 0, 0, 2, 0, 0, 0]),
        Step::Continue(None)
    );
    assert_eq!(link.wanted(), 2);
    assert_eq!(
        link.lost("reset"),
        "connection closed mid-packet: reset"
    );
    assert_eq!(
        link.received(b"ok"),
        Step::Continue(Some(Event::Stats("ok".into())))
    );
    assert_eq!(link.wanted(), 8);
    assert_eq!(link.lost("reset"), "connection closed: reset");
    let mut header = vec![pkt::IMAGE, 0, 0, 0];
    header.extend_from_slice(&(MAX_PAYLOAD + 1).to_le_bytes());
    assert_eq!(
        link.received(&header),
        Step::Stop("protocol error: payload length 458753 exceeds maximum".into())
    );
}

#[test]
fn commands_become_packets() {
    let packet = |sub: u8, value: u8| (vec![0x04, sub, 0, 0, 1, 0, 0, 0, value], false);
    assert_eq!(Cmd::SetQuality(200).encode(), packet(1, 100));
    assert_eq!(Cmd::SetScreen(ScreenSet::Bottom).encode(), packet(3, 2));
    assert_eq!(Cmd::SetInterlace(true).encode(), packet(5, 1));
    assert_eq!(Cmd::SetStripSkip(true).encode(), packet(6, 1));
    assert_eq!(Cmd::SetRefreshInterval(32).encode(), packet(7, 32));
    assert_eq!(Cmd::SetFpsCap(24).encode(), packet(8, 24));
    assert_eq!(Cmd::SetChunks(4).encode(), packet(9, 4));
    assert_eq!(Cmd::SetStripSleep(5).encode(), packet(10, 5));
    assert_eq!(
        Cmd::Disconnect.encode(),
        (vec![0x03, 0, 0, 0, 0, 0, 0, 0], true)
    );
}

#[test]
fn handshake_starts_the_stream() {
    assert_eq!(
        handshake(68, ScreenSet::Both, true),
        vec![
            4, 1, 0, 0, 1, 0, 0, 0, 68, //
            4, 3, 0, 0, 1, 0, 0, 0, 3, //
            4, 4, 0, 0, 1, 0, 0, 0, 0, //
            4, 5, 0, 0, 1, 0, 0, 0, 1, //
            2, 0, 0, 0, 0, 0, 0, 0,
        ]
    );
}

#[test]
fn failed_attempts_are_told() {
    let told = |a: Attempt| attempt_failed(a, "1.2.3.4:6464", "timed out");
    assert_eq!(
        told(Attempt::Connect),
        Event::Disconnected("connect to 1.2.3.4:6464 failed: timed out".into())
    );
    assert_eq!(
        told(Attempt::CloneSocket),
        Event::Disconnected("socket clone failed: timed out".into())
    );
    assert_eq!(
        told(Attempt::Handshake),
        Event::Disconnected("handshake write failed: timed out".into())
    );
}

#[test]
fn port_is_added_where_none_is_given() {
    assert_eq!(target_address("192.168.1.7"), "192.168.1.7:6464");
    assert_eq!(target_address("192.168.1.7:80"), "192.168.1.7:80");
    assert_eq!(target_address("::1"), "::1");
}
