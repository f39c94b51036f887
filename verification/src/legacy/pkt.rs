//! Packet type bytes.

use vstd::prelude::*;

verus! {

/// 3DS to PC: encoded image.
pub const IMAGE: u8 = 0x01;

/// PC to 3DS: start streaming.
pub const INIT: u8 = 0x02;

/// PC to 3DS: disconnect.
pub const DISCONNECT: u8 = 0x03;

/// PC to 3DS: setting (the subtype selects which).
pub const SETTING: u8 = 0x04;

/// Both directions: debug, stats or error text (the subtype selects which).
pub const META: u8 = 0xFF;

} // verus!
