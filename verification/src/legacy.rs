//! The legacy HzMod/ChirunoMod protocol, as the client sees it: control
//! messages to the 3DS are encoded, packets from the 3DS are decoded.
//!
//! Framing: `[type][subtype][subtypeB][unused][size: 4 bytes little-endian]`,
//! then `size` payload bytes.

pub mod feature;
pub mod feature2;
pub mod laws;
pub mod meta;
pub mod pkt;
pub mod setting;

use crate::v1::{clamp_quality, Error, Result};
use crate::wire;
use vstd::prelude::*;

verus! {

pub const HEADER_LEN: usize = 8;

/// The New 3DS send buffer is 448 KB; anything bigger means a desync.
pub const MAX_PAYLOAD: u32 = 448 * 1024;

/// Legacy screen-select values (1-based).
#[derive(Debug, Clone, Copy, PartialEq, Eq, Structural)]
pub enum ScreenSet {
    Top,
    Bottom,
    Both,
}

impl ScreenSet {
    /// The byte that stands for this selection.
    pub open spec fn code(self) -> u8 {
        match self {
            ScreenSet::Top => 1,
            ScreenSet::Bottom => 2,
            ScreenSet::Both => 3,
        }
    }

    /// The byte that stands for this selection.
    pub fn to_byte(self) -> (b: u8)
        ensures
            b == self.code(),
    {
        match self {
            ScreenSet::Top => 1,
            ScreenSet::Bottom => 2,
            ScreenSet::Both => 3,
        }
    }
}

/// The byte that stands for a boolean.
pub open spec fn flag(on: bool) -> u8 {
    if on {
        1
    } else {
        0
    }
}

fn flag_byte(on: bool) -> (b: u8)
    ensures
        b == flag(on),
{
    if on {
        1
    } else {
        0
    }
}

/// A whole packet: header, then payload. The size field holds the low 32 bits
/// of the payload's length.
pub open spec fn packet_bytes(ptype: u8, subtype: u8, payload: Seq<u8>) -> Seq<u8> {
    seq![ptype, subtype, 0u8, 0u8] + wire::le32((payload.len() % 0x1_0000_0000) as u32) + payload
}

/// A `SETTING` packet: one setting, one value.
pub open spec fn setting_bytes(subtype: u8, value: u8) -> Seq<u8> {
    packet_bytes(pkt::SETTING, subtype, seq![value])
}

fn packet(ptype: u8, subtype: u8, payload: &[u8]) -> (out: Vec<u8>)
    ensures
        out@ == packet_bytes(ptype, subtype, payload@),
{
    let mut out: Vec<u8> = Vec::new();
    out.push(ptype);
    out.push(subtype);
    out.push(0);
    out.push(0);
    wire::put_u32(&mut out, wire::low_u32(payload.len()));
    wire::put_bytes(&mut out, payload);
    proof {
        assert(out@ =~= packet_bytes(ptype, subtype, payload@));
    }
    out
}

fn setting_packet(subtype: u8, value: u8) -> (out: Vec<u8>)
    ensures
        out@ == setting_bytes(subtype, value),
{
    let payload: [u8; 1] = [value];
    proof {
        assert(payload@ =~= seq![value]);
    }
    packet(pkt::SETTING, subtype, &payload)
}

pub fn encode_v2_enable(on: bool) -> (out: Vec<u8>)
    ensures
        out@ == setting_bytes(setting::V2_ENABLE, flag(on)),
        out@ == seq![
            4u8,
            0x0Fu8,
            0u8,
            0u8,
            1u8,
            0u8,
            0u8,
            0u8,
            if on {
                1u8
            } else {
                0u8
            },
        ],
{
    proof {
        laws::settings_are_nine_bytes(0x0Fu8, flag(on));
    }
    setting_packet(setting::V2_ENABLE, flag_byte(on))
}

pub fn encode_grid_cols(cols: u8) -> (out: Vec<u8>)
    ensures
        out@ == setting_bytes(setting::GRID_COLS, cols),
        out@ == seq![
            4u8,
            0x10u8,
            0u8,
            0u8,
            1u8,
            0u8,
            0u8,
            0u8,
            cols,
        ],
{
    proof {
        laws::settings_are_nine_bytes(0x10u8, cols);
    }
    setting_packet(setting::GRID_COLS, cols)
}

pub fn encode_grid_rows(rows: u8) -> (out: Vec<u8>)
    ensures
        out@ == setting_bytes(setting::GRID_ROWS, rows),
        out@ == seq![
            4u8,
            0x11u8,
            0u8,
            0u8,
            1u8,
            0u8,
            0u8,
            0u8,
            rows,
        ],
{
    proof {
        laws::settings_are_nine_bytes(0x11u8, rows);
    }
    setting_packet(setting::GRID_ROWS, rows)
}

pub fn encode_capture(method: u8) -> (out: Vec<u8>)
    ensures
        out@ == setting_bytes(setting::CAPTURE, method),
        out@ == seq![
            4u8,
            0x12u8,
            0u8,
            0u8,
            1u8,
            0u8,
            0u8,
            0u8,
            method,
        ],
{
    proof {
        laws::settings_are_nine_bytes(0x12u8, method);
    }
    setting_packet(setting::CAPTURE, method)
}

pub fn encode_init() -> (out: Vec<u8>)
    ensures
        out@ == packet_bytes(pkt::INIT, 0, Seq::empty()),
        out@ == seq![2u8, 0u8, 0u8, 0u8, 0u8, 0u8, 0u8, 0u8],
{
    let payload: [u8; 0] = [];
    proof {
        assert(payload@ =~= Seq::<u8>::empty());
        assert(packet_bytes(2u8, 0, Seq::empty()) =~= seq![
            2u8, 0u8, 0u8, 0u8, 0u8, 0u8, 0u8, 0u8,
        ]);
    }
    packet(pkt::INIT, 0, &payload)
}

pub fn encode_disconnect() -> (out: Vec<u8>)
    ensures
        out@ == packet_bytes(pkt::DISCONNECT, 0, Seq::empty()),
        out@ == seq![3u8, 0u8, 0u8, 0u8, 0u8, 0u8, 0u8, 0u8],
{
    let payload: [u8; 0] = [];
    proof {
        assert(payload@ =~= Seq::<u8>::empty());
        assert(packet_bytes(3u8, 0, Seq::empty()) =~= seq![
            3u8, 0u8, 0u8, 0u8, 0u8, 0u8, 0u8, 0u8,
        ]);
    }
    packet(pkt::DISCONNECT, 0, &payload)
}

/// The quality is clamped to 1 to 100.
pub fn encode_quality(quality: u8) -> (out: Vec<u8>)
    ensures
        out@ == setting_bytes(setting::QUALITY, crate::v1::clamped_quality(quality)),
        out@ == seq![
            4u8,
            0x01u8,
            0u8,
            0u8,
            1u8,
            0u8,
            0u8,
            0u8,
            if quality < 1 {
                1u8
            } else if quality > 100 {
                100u8
            } else {
                quality
            },
        ],
{
    proof {
        laws::settings_are_nine_bytes(0x01u8, crate::v1::clamped_quality(quality));
    }
    setting_packet(setting::QUALITY, clamp_quality(quality))
}

pub fn encode_screen(screen: ScreenSet) -> (out: Vec<u8>)
    ensures
        out@ == setting_bytes(setting::SCREEN, screen.code()),
        out@ == seq![
            4u8,
            0x03u8,
            0u8,
            0u8,
            1u8,
            0u8,
            0u8,
            0u8,
            match screen {
                ScreenSet::Top => 1u8,
                ScreenSet::Bottom => 2u8,
                ScreenSet::Both => 3u8,
            },
        ],
{
    proof {
        laws::settings_are_nine_bytes(0x03u8, screen.code());
    }
    setting_packet(setting::SCREEN, screen.to_byte())
}

/// `false` = JPEG, `true` = TGA.
pub fn encode_format_tga(tga: bool) -> (out: Vec<u8>)
    ensures
        out@ == setting_bytes(setting::FORMAT, flag(tga)),
        out@ == seq![
            4u8,
            0x04u8,
            0u8,
            0u8,
            1u8,
            0u8,
            0u8,
            0u8,
            if tga {
                1u8
            } else {
                0u8
            },
        ],
{
    proof {
        laws::settings_are_nine_bytes(0x04u8, flag(tga));
    }
    setting_packet(setting::FORMAT, flag_byte(tga))
}

pub fn encode_interlace(on: bool) -> (out: Vec<u8>)
    ensures
        out@ == setting_bytes(setting::INTERLACE, flag(on)),
        out@ == seq![
            4u8,
            0x05u8,
            0u8,
            0u8,
            1u8,
            0u8,
            0u8,
            0u8,
            if on {
                1u8
            } else {
                0u8
            },
        ],
{
    proof {
        laws::settings_are_nine_bytes(0x05u8, flag(on));
    }
    setting_packet(setting::INTERLACE, flag_byte(on))
}

pub fn encode_strip_skip(on: bool) -> (out: Vec<u8>)
    ensures
        out@ == setting_bytes(setting::STRIP_SKIP, flag(on)),
        out@ == seq![
            4u8,
            0x06u8,
            0u8,
            0u8,
            1u8,
            0u8,
            0u8,
            0u8,
            if on {
                1u8
            } else {
                0u8
            },
        ],
{
    proof {
        laws::settings_are_nine_bytes(0x06u8, flag(on));
    }
    setting_packet(setting::STRIP_SKIP, flag_byte(on))
}

pub fn encode_refresh_interval(frames: u8) -> (out: Vec<u8>)
    ensures
        out@ == setting_bytes(setting::REFRESH_INTERVAL, frames),
        out@ == seq![
            4u8,
            0x07u8,
            0u8,
            0u8,
            1u8,
            0u8,
            0u8,
            0u8,
            frames,
        ],
{
    proof {
        laws::settings_are_nine_bytes(0x07u8, frames);
    }
    setting_packet(setting::REFRESH_INTERVAL, frames)
}

pub fn encode_fps_cap(fps: u8) -> (out: Vec<u8>)
    ensures
        out@ == setting_bytes(setting::FPS_CAP, fps),
        out@ == seq![
            4u8,
            0x08u8,
            0u8,
            0u8,
            1u8,
            0u8,
            0u8,
            0u8,
            fps,
        ],
{
    proof {
        laws::settings_are_nine_bytes(0x08u8, fps);
    }
    setting_packet(setting::FPS_CAP, fps)
}

pub fn encode_chunks(chunks: u8) -> (out: Vec<u8>)
    ensures
        out@ == setting_bytes(setting::CHUNKS, chunks),
        out@ == seq![
            4u8,
            0x09u8,
            0u8,
            0u8,
            1u8,
            0u8,
            0u8,
            0u8,
            chunks,
        ],
{
    proof {
        laws::settings_are_nine_bytes(0x09u8, chunks);
    }
    setting_packet(setting::CHUNKS, chunks)
}

pub fn encode_strip_sleep(ms: u8) -> (out: Vec<u8>)
    ensures
        out@ == setting_bytes(setting::STRIP_SLEEP, ms),
        out@ == seq![
            4u8,
            0x0Au8,
            0u8,
            0u8,
            1u8,
            0u8,
            0u8,
            0u8,
            ms,
        ],
{
    proof {
        laws::settings_are_nine_bytes(0x0Au8, ms);
    }
    setting_packet(setting::STRIP_SLEEP, ms)
}

pub fn encode_downscale(on: bool) -> (out: Vec<u8>)
    ensures
        out@ == setting_bytes(setting::DOWNSCALE, flag(on)),
        out@ == seq![
            4u8,
            0x0Bu8,
            0u8,
            0u8,
            1u8,
            0u8,
            0u8,
            0u8,
            if on {
                1u8
            } else {
                0u8
            },
        ],
{
    proof {
        laws::settings_are_nine_bytes(0x0Bu8, flag(on));
    }
    setting_packet(setting::DOWNSCALE, flag_byte(on))
}

pub fn encode_stats_enabled(on: bool) -> (out: Vec<u8>)
    ensures
        out@ == setting_bytes(setting::STATS_ENABLE, flag(on)),
        out@ == seq![
            4u8,
            0x0Cu8,
            0u8,
            0u8,
            1u8,
            0u8,
            0u8,
            0u8,
            if on {
                1u8
            } else {
                0u8
            },
        ],
{
    proof {
        laws::settings_are_nine_bytes(0x0Cu8, flag(on));
    }
    setting_packet(setting::STATS_ENABLE, flag_byte(on))
}

/// Parsed legacy framing header.
#[derive(Debug, Clone, Copy, PartialEq, Eq, Structural)]
pub struct PacketInfo {
    pub ptype: u8,
    pub subtype: u8,
    pub subtype_b: u8,
    pub payload_len: u32,
}

/// What a framing header parses to.
pub open spec fn parsed_header(b: Seq<u8>) -> std::result::Result<PacketInfo, Error> {
    if b.len() < HEADER_LEN {
        Err(Error::Truncated)
    } else if wire::u32_at(b, 4) > MAX_PAYLOAD {
        Err(Error::PayloadTooLarge(wire::u32_at(b, 4)))
    } else {
        Ok(
            PacketInfo {
                ptype: b[0],
                subtype: b[1],
                subtype_b: b[2],
                payload_len: wire::u32_at(b, 4),
            },
        )
    }
}

/// Parses the 8-byte header and holds the size against [`MAX_PAYLOAD`].
pub fn parse_header(buf: &[u8]) -> (res: Result<PacketInfo>)
    ensures
        res == parsed_header(buf@),
{
    if buf.len() < HEADER_LEN {
        return Err(Error::Truncated);
    }
    let payload_len = wire::get_u32(buf, 4);
    if payload_len > MAX_PAYLOAD {
        return Err(Error::PayloadTooLarge(payload_len));
    }
    Ok(PacketInfo { ptype: buf[0], subtype: buf[1], subtype_b: buf[2], payload_len })
}

/// Decoded metadata of an `IMAGE` packet, unpacked from the subtype flag bits
/// and `subtypeB`.
#[derive(Debug, Clone, Copy, PartialEq, Eq)]
pub struct ImageInfo {
    /// 0 = top, 1 = bottom (subtype bit 4).
    pub bottom: bool,
    /// Subtype bit 3: the payload is TGA instead of JPEG.
    pub tga: bool,
    /// GSP source pixel format (subtype bits 0 to 2).
    pub pixfmt: u8,
    /// Subtype bit 5.
    pub interlaced: bool,
    /// Subtype bit 6 (only meaningful when `interlaced`).
    pub interlace_phase: bool,
    /// Subtype bit 7: quarter-resolution frame, both axes halved on the 3DS;
    /// the client scales each pixel to 2 by 2.
    pub downscaled: bool,
    /// Old 3DS chunk index 0 to 7; `None` when the packet is a full frame.
    pub chunk: Option<u8>,
}

/// What the two subtype bytes of an `IMAGE` packet say.
pub open spec fn unpacked(subtype: u8, subtype_b: u8) -> ImageInfo {
    ImageInfo {
        bottom: subtype & 0x10 != 0,
        tga: subtype & 0x08 != 0,
        pixfmt: subtype & 0x07,
        interlaced: subtype & 0x20 != 0,
        interlace_phase: subtype & 0x40 != 0,
        downscaled: subtype & 0x80 != 0,
        chunk: if subtype_b & 0x08 != 0 {
            Some(subtype_b & 0x07)
        } else {
            None
        },
    }
}

impl ImageInfo {
    pub fn from_packet(info: &PacketInfo) -> (img: ImageInfo)
        ensures
            img == unpacked(info.subtype, info.subtype_b),
    {
        ImageInfo {
            bottom: info.subtype & 0x10 != 0,
            tga: info.subtype & 0x08 != 0,
            pixfmt: info.subtype & 0x07,
            interlaced: info.subtype & 0x20 != 0,
            interlace_phase: info.subtype & 0x40 != 0,
            downscaled: info.subtype & 0x80 != 0,
            // Old 3DS sets subtypeB to 8 plus the chunk index.
            chunk: if info.subtype_b & 0x08 != 0 {
                Some(info.subtype_b & 0x07)
            } else {
                None
            },
        }
    }

    /// Physical screen width in pixels.
    pub fn screen_width(&self) -> (w: usize)
        ensures
            w == (if self.bottom {
                320usize
            } else {
                400usize
            }),
    {
        if self.bottom {
            320
        } else {
            400
        }
    }
}

/// Parsed announce payload.
#[derive(Debug, Clone, Copy, PartialEq, Eq, Structural)]
pub struct Announce {
    pub revision: u8,
    pub features: u8,
    /// Second feature byte; 0 on sysmodules that predate it.
    pub features2: u8,
}

impl Announce {
    /// What an announce payload parses to.
    pub open spec fn parsed(p: Seq<u8>) -> std::result::Result<Announce, Error> {
        if p.len() < 2 {
            Err(Error::Truncated)
        } else {
            Ok(
                Announce {
                    revision: p[0],
                    features: p[1],
                    features2: if p.len() > 2 {
                        p[2]
                    } else {
                        0
                    },
                },
            )
        }
    }

    /// Whether one of the bits of `feature_bit` is announced in the first
    /// feature byte.
    pub open spec fn announces(self, feature_bit: u8) -> bool {
        self.features & feature_bit != 0
    }

    /// Whether one of the bits of `feature_bit` is announced in the second
    /// feature byte.
    pub open spec fn announces2(self, feature_bit: u8) -> bool {
        self.features2 & feature_bit != 0
    }

    pub fn parse(payload: &[u8]) -> (res: Result<Announce>)
        ensures
            res == Announce::parsed(payload@),
    {
        if payload.len() < 2 {
            return Err(Error::Truncated);
        }
        let features2: u8 = if payload.len() > 2 {
            payload[2]
        } else {
            0
        };
        Ok(Announce { revision: payload[0], features: payload[1], features2 })
    }

    pub fn has(&self, feature_bit: u8) -> (b: bool)
        ensures
            b == self.announces(feature_bit),
    {
        self.features & feature_bit != 0
    }

    pub fn has2(&self, feature_bit: u8) -> (b: bool)
        ensures
            b == self.announces2(feature_bit),
    {
        self.features2 & feature_bit != 0
    }
}

} // verus!
