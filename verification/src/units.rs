//! The fixed-point unit of all coordinates, and the limits that keep every
//! computation inside the machine integers.

use vstd::prelude::*;

verus! {

/// Number of coordinate units in one screen point.
pub const UNITS_PER_POINT: i32 = 256;

/// Largest magnitude of a coordinate of a rest position.
pub const COORD_LIMIT: i32 = 2_000_000_000;

/// Largest reach, in units, with which points can be pushed.
pub const MAX_REACH: u32 = 100_000_000;

} // verus!
