//! Feature bits carried by the announce packet.

use vstd::prelude::*;

verus! {

pub const STRIP_SKIP: u8 = 0x01;

pub const FPS_CAP: u8 = 0x02;

pub const OLD3DS_INTERLACE: u8 = 0x04;

pub const CHUNKS: u8 = 0x08;

pub const STRIP_SLEEP: u8 = 0x10;

pub const DOWNSCALE: u8 = 0x20;

/// Stats are opt-in. Sysmodules without this bit but with an announce stream
/// stats unconditionally.
pub const STATS_TOGGLE: u8 = 0x40;

/// Protocol version 2 (region streaming) is available.
pub const V2: u8 = 0x80;

} // verus!
