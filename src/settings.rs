//! The host's starting configuration.

use vstd::prelude::*;

verus! {

/// The viewport's width in pixels.
pub const WIDTH: u32 = 960;

/// The viewport's height in pixels.
pub const HEIGHT: u32 = 720;

/// The side of the lattice: it holds `GRID_COUNT³` points.
pub const GRID_COUNT: usize = 10;

} // verus!
