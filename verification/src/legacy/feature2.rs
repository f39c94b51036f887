//! Second feature byte (announce payload byte 2; absent on older builds).

use vstd::prelude::*;

verus! {

/// Dirty-grid geometry settings (columns and rows).
pub const CELL_GRID: u8 = 0x01;

/// Selectable capture backend.
pub const CAPTURE: u8 = 0x02;

} // verus!
