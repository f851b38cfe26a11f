//! The fixed frame and the clip distances that every render uses.

use vstd::prelude::*;

verus! {

/// Rows of a frame.
pub const H: usize = 128;

/// Columns of a frame.
pub const W: usize = 128;

/// Pixels of a frame.
pub const AREA: usize = H * W;

/// Bit pattern of the near clip distance, 0.2.
pub const NEAR: u32 = 0x3e4c_cccd;

/// Bit pattern of the far clip distance, 7.5.
pub const FAR: u32 = 0x40f0_0000;

} // verus!
