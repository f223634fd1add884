//! Unit and coordinate types shared by every component: integer centimeters
//! and fixed-point planar positions.

use vstd::prelude::*;

verus! {

/// An integer fixed-point distance. Every radius and threshold that crosses a
/// component boundary is expressed in whole centimeters, never floating-point
/// meters, so that evaluation is deterministic across platforms.
#[derive(Clone, Copy, Debug, PartialEq, Eq, Structural)]
pub struct Centimeters(pub i32);

impl Centimeters {
    /// Ten millimeters to the centimeter, widened so the product always fits.
    pub fn as_millimeters(&self) -> (r: i64)
        ensures
            r == self.0 * 10,
    {
        self.0 as i64 * 10
    }

    /// Millimeters truncated toward zero to whole centimeters.
    pub fn from_millimeters(mm: i64) -> (r: Self)
        requires
            i32::MIN * 10 <= mm <= i32::MAX * 10,
        ensures
            r.0 == mm / 10 + (if mm % 10 != 0 && mm < 0 { 1int } else { 0int }),
    {
        Centimeters((mm / 10) as i32)
    }
}

/// Half the width of the planar map frame, in centimeters: positions live in
/// `[-COORD_MAX, COORD_MAX]` on each axis (a square 20,000 km across), which
/// keeps every encoded coordinate within 32 signed bits.
pub const COORD_MAX: i64 = 1_000_000_000;

/// The saturation bound of an evaluated distance field, in centimeters. No
/// geometric leaf can reach it (the frame is only 20,000 km across), so it
/// doubles as the "outside everywhere" value of degenerate leaves such as an
/// empty point cloud, and combinators clamp to it so that nested fields never
/// overflow.
pub const VAL_MAX: i64 = 1_000_000_000_000_000;

/// A sample or feature position in the planar map frame, in centimeters on
/// each axis.
#[derive(Clone, Copy, Debug, PartialEq, Eq, Structural)]
pub struct Position {
    pub x: i64,
    pub y: i64,
}

impl Position {
    /// Whether the position lies inside the planar map frame.
    pub open spec fn valid(self) -> bool {
        -COORD_MAX <= self.x <= COORD_MAX && -COORD_MAX <= self.y <= COORD_MAX
    }

    pub fn new(x: i64, y: i64) -> (r: Position)
        requires
            -COORD_MAX <= x <= COORD_MAX,
            -COORD_MAX <= y <= COORD_MAX,
        ensures
            r == (Position { x, y }),
            r.valid(),
    {
        Position { x, y }
    }
}

/// Sequence-wide validity for coordinate payloads.
pub open spec fn all_valid(ps: Seq<Position>) -> bool {
    forall|i: int| 0 <= i < ps.len() ==> #[trigger] ps[i].valid()
}

} // verus!
