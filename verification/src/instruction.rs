//! The fixed, closed instruction set of the region algebra: a directed acyclic
//! program in single-static-assignment form, where the instruction at position
//! `i` produces register `i` and may only read registers produced earlier.

use vstd::prelude::*;

use crate::types::{all_valid, Centimeters, Position};

verus! {

/// An opaque, monotonically allocated index identifying one intermediate
/// distance-field value. The instruction at list position `i` produces
/// register `i`.
#[derive(Clone, Copy, Debug, PartialEq, Eq, Structural)]
pub struct Register(pub u32);

/// The rule deciding ownership of samples that satisfy both competing regions
/// of a `Boundary` instruction.
#[derive(Clone, Copy, Debug, PartialEq, Eq, Structural)]
pub enum BoundaryOverlapResolution {
    /// A sample satisfying both candidate regions resolves in favor of the
    /// `inside` region.
    Inside,
    /// A sample satisfying both candidate regions resolves in favor of the
    /// `outside` region.
    Outside,
    /// Samples resolve purely by the perpendicular bisector between the two
    /// regions' nearest features.
    Midpoint,
}

/// A precomputed scalar-field texture (an elevation grid, for example),
/// sampled with nearest-cell lookup. Cell `(0, 0)` covers the square whose
/// minimum corner is `origin`; cells are `cell_cm` centimeters on a side.
#[derive(Clone, Debug)]
pub struct ContourTexture {
    pub origin: Position,
    pub cell_cm: u32,
    pub width: u32,
    pub height: u32,
    /// Row-major samples, `width * height` of them, in centimeters.
    pub values: Vec<i32>,
}

impl ContourTexture {
    pub open spec fn wf(self) -> bool {
        &&& self.origin.valid()
        &&& 1 <= self.cell_cm
        &&& 1 <= self.width <= 0x10000
        &&& 1 <= self.height <= 0x10000
        &&& self.values@.len() == self.width * self.height
    }
}

/// One cell site of a precomputed planar subdivision: a position together with
/// whether the cell it owns belongs to the region's interior.
#[derive(Clone, Copy, Debug, PartialEq, Eq, Structural)]
pub struct VdgSite {
    pub position: Position,
    pub inside: bool,
}

/// A precomputed planar subdivision usable as a distance-field source: the
/// field is the distance to the nearest interior site minus the distance to
/// the nearest exterior site, so a sample is inside exactly where an interior
/// site is the nearer one.
#[derive(Clone, Debug)]
pub struct Vdg {
    pub sites: Vec<VdgSite>,
}

impl Vdg {
    pub open spec fn wf(self) -> bool {
        forall|i: int| 0 <= i < self.sites@.len() ==> (#[trigger] self.sites@[i]).position.valid()
    }
}

/// One node of the region-algebra program: a primitive shape reading constant
/// payload, or a combinator reading prior registers.
#[derive(Clone, Debug)]
pub enum SdfInstruction {
    /// Distance to one coordinate.
    Point { position: Position, output: Register },
    /// Minimum distance to any member; an empty list is outside everywhere.
    PointCloud { points: Vec<Position>, output: Register },
    /// Distance to one segment.
    Geodesic { start: Position, end: Position, output: Register },
    /// Minimum distance to the polyline connecting the coordinates in order.
    GeodesicString { points: Vec<Position>, output: Register },
    /// Signed distance to the dividing line through `point` whose normal is
    /// `(normal_x, normal_y)`, with the sign chosen so that `interior_point`
    /// is on the non-positive side.
    GreatCircle {
        point: Position,
        normal_x: i64,
        normal_y: i64,
        interior_point: Position,
        output: Register,
    },
    /// Pointwise minimum of the listed registers; an empty list is outside
    /// everywhere.
    Union { shapes: Vec<Register>, output: Register },
    /// Pointwise maximum.
    Intersection { left: Register, right: Register, output: Register },
    /// `max(left, -right)`.
    Subtract { left: Register, right: Register, output: Register },
    /// Pointwise negation.
    Invert { input: Register, output: Register },
    /// `value - amount`.
    Dilate { input: Register, amount: Centimeters, output: Register },
    /// `abs(value)`.
    Edge { input: Register, output: Register },
    /// Resolves which of two candidate regions a sample belongs to; see
    /// `BoundaryOverlapResolution`.
    Boundary {
        inside: Register,
        outside: Register,
        overlap_resolution: BoundaryOverlapResolution,
        output: Register,
    },
    /// Sampled field value minus `zero_value`: positive (outside) where the
    /// texture reads above the threshold.
    Contour { texture: ContourTexture, zero_value: Centimeters, output: Register },
    /// Distance field backed by a precomputed planar subdivision.
    LoadVdg { diagram: Vdg, output: Register },
}

/// A program may not exceed this many instructions: argument slots index
/// instructions with eight bits.
pub const MAX_INSTRUCTIONS: usize = 256;

impl SdfInstruction {
    /// The register this instruction produces.
    pub open spec fn output(self) -> Register {
        match self {
            SdfInstruction::Point { output, .. } => output,
            SdfInstruction::PointCloud { output, .. } => output,
            SdfInstruction::Geodesic { output, .. } => output,
            SdfInstruction::GeodesicString { output, .. } => output,
            SdfInstruction::GreatCircle { output, .. } => output,
            SdfInstruction::Union { output, .. } => output,
            SdfInstruction::Intersection { output, .. } => output,
            SdfInstruction::Subtract { output, .. } => output,
            SdfInstruction::Invert { output, .. } => output,
            SdfInstruction::Dilate { output, .. } => output,
            SdfInstruction::Edge { output, .. } => output,
            SdfInstruction::Boundary { output, .. } => output,
            SdfInstruction::Contour { output, .. } => output,
            SdfInstruction::LoadVdg { output, .. } => output,
        }
    }

    /// Every register this instruction reads was produced before position
    /// `bound`: no forward references, no cycles.
    pub open spec fn refs_before(self, bound: int) -> bool {
        match self {
            SdfInstruction::Union { shapes, .. } => forall|i: int|
                0 <= i < shapes@.len() ==> (#[trigger] shapes@[i]).0 < bound,
            SdfInstruction::Intersection { left, right, .. } => left.0 < bound && right.0 < bound,
            SdfInstruction::Subtract { left, right, .. } => left.0 < bound && right.0 < bound,
            SdfInstruction::Invert { input, .. } => input.0 < bound,
            SdfInstruction::Dilate { input, .. } => input.0 < bound,
            SdfInstruction::Edge { input, .. } => input.0 < bound,
            SdfInstruction::Boundary { inside, outside, .. } => inside.0 < bound
                && outside.0 < bound,
            _ => true,
        }
    }

    /// The constant payload is within the planar map frame and internally
    /// consistent.
    pub open spec fn payload_ok(self) -> bool {
        match self {
            SdfInstruction::Point { position, .. } => position.valid(),
            SdfInstruction::PointCloud { points, .. } => all_valid(points@),
            SdfInstruction::Geodesic { start, end, .. } => start.valid() && end.valid(),
            SdfInstruction::GeodesicString { points, .. } => all_valid(points@),
            SdfInstruction::GreatCircle { point, normal_x, normal_y, interior_point, .. } => {
                &&& point.valid()
                &&& interior_point.valid()
                &&& -2_000_000_000 <= normal_x <= 2_000_000_000
                &&& -2_000_000_000 <= normal_y <= 2_000_000_000
            },
            SdfInstruction::Contour { texture, .. } => texture.wf(),
            SdfInstruction::LoadVdg { diagram, .. } => diagram.wf(),
            _ => true,
        }
    }

    /// How many argument slots this instruction consumes, in order, when a
    /// program built from it is bound to concrete payloads.
    pub open spec fn slot_count(self) -> int {
        match self {
            SdfInstruction::Point { .. } => 1,
            SdfInstruction::PointCloud { .. } => 1,
            SdfInstruction::Geodesic { .. } => 2,
            SdfInstruction::GeodesicString { .. } => 1,
            SdfInstruction::GreatCircle { .. } => 3,
            SdfInstruction::Union { .. } => 0,
            SdfInstruction::Intersection { .. } => 0,
            SdfInstruction::Subtract { .. } => 0,
            SdfInstruction::Invert { .. } => 0,
            SdfInstruction::Dilate { .. } => 1,
            SdfInstruction::Edge { .. } => 0,
            SdfInstruction::Boundary { .. } => 1,
            SdfInstruction::Contour { .. } => 2,
            SdfInstruction::LoadVdg { .. } => 1,
        }
    }
}

/// Well-formedness of a whole program: bounded length, and the instruction at
/// each position produces that position's register, reads only earlier ones,
/// and carries a payload inside the map frame.
pub open spec fn wf_program(prog: Seq<SdfInstruction>) -> bool {
    &&& prog.len() <= MAX_INSTRUCTIONS
    &&& forall|i: int| 0 <= i < prog.len() ==> (#[trigger] prog[i]).output().0 == i
    &&& forall|i: int| 0 <= i < prog.len() ==> (#[trigger] prog[i]).refs_before(i)
    &&& forall|i: int| 0 <= i < prog.len() ==> (#[trigger] prog[i]).payload_ok()
}

} // verus!
