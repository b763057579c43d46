//! Constants of the musical scale.

use vstd::prelude::*;

verus! {

/// The note number of the A above middle C, the reference of the scale.
pub const A4_MIDI: u8 = 69;

/// The frequency of that A in thousandths of a hertz.
pub const A4_FREQ: i32 = 440_000;

} // verus!
