//! `SETTING` subtypes. Each carries one payload byte. 0x06 and above are Flurry
//! extensions; sysmodules built before them ignore those.

use vstd::prelude::*;

verus! {

/// 1 to 100.
pub const QUALITY: u8 = 0x01;

/// Dummied out on the 3DS.
pub const CPU_CAP: u8 = 0x02;

/// 1 top, 2 bottom, 3 both.
pub const SCREEN: u8 = 0x03;

/// 0 JPEG, 1 TGA.
pub const FORMAT: u8 = 0x04;

/// Boolean.
pub const INTERLACE: u8 = 0x05;

/// Boolean: skip unchanged strips.
pub const STRIP_SKIP: u8 = 0x06;

/// Force-send every this many frames (0 = never).
pub const REFRESH_INTERVAL: u8 = 0x07;

/// Target fps (0 = uncapped).
pub const FPS_CAP: u8 = 0x08;

/// Strips per screen on Old 3DS (2, 4 or 8).
pub const CHUNKS: u8 = 0x09;

/// Milliseconds of pause between strips (0 to 20).
pub const STRIP_SLEEP: u8 = 0x0A;

/// Boolean: quarter-resolution mode (Old 3DS).
pub const DOWNSCALE: u8 = 0x0B;

/// Boolean: performance stats packets once a second.
pub const STATS_ENABLE: u8 = 0x0C;

/// Boolean: switch to protocol version 2 framing.
pub const V2_ENABLE: u8 = 0x0F;

/// Dirty-grid columns per screen (4, 8 or 16).
pub const GRID_COLS: u8 = 0x10;

/// Dirty-grid rows per screen (1, 2, 4 or 8).
pub const GRID_ROWS: u8 = 0x11;

/// Capture backend (0 DMA, 1 GPU).
pub const CAPTURE: u8 = 0x12;

} // verus!
