//! `META` subtypes from the 3DS.

use vstd::prelude::*;

verus! {

pub const ERROR: u8 = 0x00;

pub const STATS: u8 = 0x03;

/// Sent once on connect by extended sysmodules. Payload: announce revision,
/// then the feature bits. None within about a second of connecting means a
/// sysmodule built before the extensions.
pub const ANNOUNCE: u8 = 0x04;

} // verus!
