//! Region flag bits.

use vstd::prelude::*;

verus! {

/// Interlace field B (odd sample phase); field A when clear.
pub const FIELD_B: u8 = 0x01;

/// Region is an interlaced field (half horizontal resolution).
pub const INTERLACED: u8 = 0x02;

/// Region content is downscaled by two on both axes (the client paints 2 by 2).
/// Implied by the half-resolution raw codec; required for downscaled JPEG.
pub const DOWNSCALED: u8 = 0x04;

} // verus!
