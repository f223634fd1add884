//! The IR builder: an append-only API that lets callers construct arbitrarily
//! nested region algebra by emitting instructions and receiving back the
//! register holding each sub-result. No instruction is ever edited after being
//! appended, so a finished list is in single-static-assignment, topologically
//! sorted order by construction.

use vstd::prelude::*;

use crate::instruction::{
    BoundaryOverlapResolution, ContourTexture, Register, SdfInstruction, Vdg, MAX_INSTRUCTIONS,
};
use crate::types::{all_valid, Centimeters, Position};

verus! {

/// A composite region: anything that can append instructions to a compiler
/// and name the register holding its result. This is the producer interface:
/// the compiler never needs to know about specific question types, and
/// arbitrarily nested algebra flattens into one instruction stream. The two
/// spec functions pin what a build emits, so a compiled shape's program is a
/// function of the shape itself, never an unrelated stream.
pub trait Shape {
    /// An upper bound on how many instructions `build_into` may append; the
    /// caller must leave this much room in the program.
    spec fn instructions_needed(&self) -> int;

    /// The instructions this shape emits when its first instruction lands at
    /// position `base`.
    spec fn program_of(&self, base: int) -> Seq<SdfInstruction>;

    /// The register holding this shape's result when its first instruction
    /// lands at position `base`.
    spec fn result_of(&self, base: int) -> Register;

    /// Append exactly this shape's instructions and return the register
    /// holding its result. The instruction list only ever grows, and
    /// everything already emitted is left untouched.
    fn build_into(&self, compiler: &mut SdfCompiler) -> (r: Register)
        requires
            old(compiler).wf(),
            old(compiler)@.len() + self.instructions_needed() <= MAX_INSTRUCTIONS,
        ensures
            final(compiler).wf(),
            final(compiler)@ == old(compiler)@ + self.program_of(old(compiler)@.len() as int),
            self.program_of(old(compiler)@.len() as int).len() <= self.instructions_needed(),
            r == self.result_of(old(compiler)@.len() as int),
            r.0 < final(compiler)@.len();
}

/// The region-algebra compiler: one method per opcode, each appending exactly
/// one instruction to the internal append-only list and returning its output
/// register.
pub struct SdfCompiler {
    instructions: Vec<SdfInstruction>,
    next_register: u32,
}

impl View for SdfCompiler {
    type V = Seq<SdfInstruction>;

    closed spec fn view(&self) -> Seq<SdfInstruction> {
        self.instructions@
    }
}

impl SdfCompiler {
    /// The compiler's registers count its instructions, and the program built
    /// so far is well formed.
    pub closed spec fn wf(self) -> bool {
        &&& self.next_register == self.instructions@.len()
        &&& crate::instruction::wf_program(self.instructions@)
    }

    pub fn new() -> (r: SdfCompiler)
        ensures
            r.wf(),
            r@ == Seq::<SdfInstruction>::empty(),
    {
        let r = SdfCompiler { instructions: Vec::new(), next_register: 0 };
        proof {
            assert(r.instructions@ =~= Seq::<SdfInstruction>::empty());
        }
        r
    }

    /// Reserve the next register; the caller then appends the instruction
    /// producing it.
    fn allocate_register(&mut self) -> (r: Register)
        requires
            old(self)@.len() < MAX_INSTRUCTIONS,
            old(self).next_register == old(self)@.len(),
        ensures
            r == (Register(old(self).next_register)),
            final(self).next_register == old(self).next_register + 1,
            final(self).instructions == old(self).instructions,
    {
        let reg = Register(self.next_register);
        self.next_register = self.next_register + 1;
        reg
    }

    /// Distance to one coordinate.
    pub fn point(&mut self, position: Position) -> (r: Register)
        requires
            old(self).wf(),
            old(self)@.len() < MAX_INSTRUCTIONS,
            position.valid(),
        ensures
            final(self).wf(),
            final(self)@ == old(self)@.push(
                (SdfInstruction::Point { position, output: r }),
            ),
            r == (Register(old(self)@.len() as u32)),
    {
        let output = self.allocate_register();
        self.instructions.push(SdfInstruction::Point { position, output });
        output
    }

    /// Minimum distance to any member of the list; an empty list yields a
    /// register that is outside everywhere.
    pub fn point_cloud(&mut self, points: Vec<Position>) -> (r: Register)
        requires
            old(self).wf(),
            old(self)@.len() < MAX_INSTRUCTIONS,
            all_valid(points@),
        ensures
            final(self).wf(),
            final(self)@ == old(self)@.push(
                (SdfInstruction::PointCloud { points: points, output: r }),
            ),
            r == (Register(old(self)@.len() as u32)),
    {
        let output = self.allocate_register();
        self.instructions.push(SdfInstruction::PointCloud { points, output });
        output
    }

    /// Distance to one segment.
    pub fn geodesic(&mut self, start: Position, end: Position) -> (r: Register)
        requires
            old(self).wf(),
            old(self)@.len() < MAX_INSTRUCTIONS,
            start.valid(),
            end.valid(),
        ensures
            final(self).wf(),
            final(self)@ == old(self)@.push(
                (SdfInstruction::Geodesic { start, end, output: r }),
            ),
            r == (Register(old(self)@.len() as u32)),
    {
        let output = self.allocate_register();
        self.instructions.push(SdfInstruction::Geodesic { start, end, output });
        output
    }

    /// Minimum distance to the polyline connecting the coordinates in order.
    pub fn geodesic_string(&mut self, points: Vec<Position>) -> (r: Register)
        requires
            old(self).wf(),
            old(self)@.len() < MAX_INSTRUCTIONS,
            all_valid(points@),
        ensures
            final(self).wf(),
            final(self)@ == old(self)@.push(
                (SdfInstruction::GeodesicString { points: points, output: r }),
            ),
            r == (Register(old(self)@.len() as u32)),
    {
        let output = self.allocate_register();
        self.instructions.push(SdfInstruction::GeodesicString { points, output });
        output
    }

    /// Signed distance to the dividing line through `point` with normal
    /// `(normal_x, normal_y)`, signed so that `interior_point` is on the
    /// non-positive side.
    pub fn great_circle(
        &mut self,
        point: Position,
        normal_x: i64,
        normal_y: i64,
        interior_point: Position,
    ) -> (r: Register)
        requires
            old(self).wf(),
            old(self)@.len() < MAX_INSTRUCTIONS,
            point.valid(),
            interior_point.valid(),
            -2_000_000_000 <= normal_x <= 2_000_000_000,
            -2_000_000_000 <= normal_y <= 2_000_000_000,
        ensures
            final(self).wf(),
            final(self)@ == old(self)@.push(
                (SdfInstruction::GreatCircle {
                    point,
                    normal_x,
                    normal_y,
                    interior_point,
                    output: r,
                }),
            ),
            r == (Register(old(self)@.len() as u32)),
    {
        let output = self.allocate_register();
        self.instructions.push(
            SdfInstruction::GreatCircle { point, normal_x, normal_y, interior_point, output },
        );
        output
    }

    /// Pointwise minimum of the listed registers; an empty list yields a
    /// register that is outside everywhere.
    pub fn union(&mut self, shapes: Vec<Register>) -> (r: Register)
        requires
            old(self).wf(),
            old(self)@.len() < MAX_INSTRUCTIONS,
            forall|i: int| 0 <= i < shapes@.len() ==> (#[trigger] shapes@[i]).0 < old(self)@.len(),
        ensures
            final(self).wf(),
            final(self)@ == old(self)@.push(
                (SdfInstruction::Union { shapes: shapes, output: r }),
            ),
            r == (Register(old(self)@.len() as u32)),
    {
        let output = self.allocate_register();
        self.instructions.push(SdfInstruction::Union { shapes, output });
        output
    }

    /// Pointwise maximum of two registers.
    pub fn intersection(&mut self, left: Register, right: Register) -> (r: Register)
        requires
            old(self).wf(),
            old(self)@.len() < MAX_INSTRUCTIONS,
            left.0 < old(self)@.len(),
            right.0 < old(self)@.len(),
        ensures
            final(self).wf(),
            final(self)@ == old(self)@.push(
                (SdfInstruction::Intersection { left, right, output: r }),
            ),
            r == (Register(old(self)@.len() as u32)),
    {
        let output = self.allocate_register();
        self.instructions.push(SdfInstruction::Intersection { left, right, output });
        output
    }

    /// `max(left, -right)`: the part of `left` not covered by `right`.
    pub fn subtract(&mut self, left: Register, right: Register) -> (r: Register)
        requires
            old(self).wf(),
            old(self)@.len() < MAX_INSTRUCTIONS,
            left.0 < old(self)@.len(),
            right.0 < old(self)@.len(),
        ensures
            final(self).wf(),
            final(self)@ == old(self)@.push(
                (SdfInstruction::Subtract { left, right, output: r }),
            ),
            r == (Register(old(self)@.len() as u32)),
    {
        let output = self.allocate_register();
        self.instructions.push(SdfInstruction::Subtract { left, right, output });
        output
    }

    /// Pointwise negation.
    pub fn invert(&mut self, input: Register) -> (r: Register)
        requires
            old(self).wf(),
            old(self)@.len() < MAX_INSTRUCTIONS,
            input.0 < old(self)@.len(),
        ensures
            final(self).wf(),
            final(self)@ == old(self)@.push((SdfInstruction::Invert { input, output: r })),
            r == (Register(old(self)@.len() as u32)),
    {
        let output = self.allocate_register();
        self.instructions.push(SdfInstruction::Invert { input, output });
        output
    }

    /// Expand (or, with a negative amount, shrink) a region's inside by a
    /// fixed margin.
    pub fn dilate(&mut self, input: Register, amount: Centimeters) -> (r: Register)
        requires
            old(self).wf(),
            old(self)@.len() < MAX_INSTRUCTIONS,
            input.0 < old(self)@.len(),
        ensures
            final(self).wf(),
            final(self)@ == old(self)@.push(
                (SdfInstruction::Dilate { input, amount, output: r }),
            ),
            r == (Register(old(self)@.len() as u32)),
    {
        let output = self.allocate_register();
        self.instructions.push(SdfInstruction::Dilate { input, amount, output });
        output
    }

    /// `abs(value)`: the boundary of a region as a zero-width feature.
    pub fn edge(&mut self, input: Register) -> (r: Register)
        requires
            old(self).wf(),
            old(self)@.len() < MAX_INSTRUCTIONS,
            input.0 < old(self)@.len(),
        ensures
            final(self).wf(),
            final(self)@ == old(self)@.push((SdfInstruction::Edge { input, output: r })),
            r == (Register(old(self)@.len() as u32)),
    {
        let output = self.allocate_register();
        self.instructions.push(SdfInstruction::Edge { input, output });
        output
    }

    /// Resolve which of two candidate regions a sample belongs to, under the
    /// given overlap-resolution policy.
    pub fn boundary(
        &mut self,
        inside: Register,
        outside: Register,
        overlap_resolution: BoundaryOverlapResolution,
    ) -> (r: Register)
        requires
            old(self).wf(),
            old(self)@.len() < MAX_INSTRUCTIONS,
            inside.0 < old(self)@.len(),
            outside.0 < old(self)@.len(),
        ensures
            final(self).wf(),
            final(self)@ == old(self)@.push(
                (SdfInstruction::Boundary { inside, outside, overlap_resolution, output: r }),
            ),
            r == (Register(old(self)@.len() as u32)),
    {
        let output = self.allocate_register();
        self.instructions.push(
            SdfInstruction::Boundary { inside, outside, overlap_resolution, output },
        );
        output
    }

    /// Sampled scalar field minus a threshold.
    pub fn with_contour_texture(&mut self, texture: ContourTexture, zero_value: Centimeters) -> (r:
        Register)
        requires
            old(self).wf(),
            old(self)@.len() < MAX_INSTRUCTIONS,
            texture.wf(),
        ensures
            final(self).wf(),
            final(self)@ == old(self)@.push(
                (SdfInstruction::Contour { texture: texture, zero_value, output: r }),
            ),
            r == (Register(old(self)@.len() as u32)),
    {
        let output = self.allocate_register();
        self.instructions.push(SdfInstruction::Contour { texture, zero_value, output });
        output
    }

    /// Distance field backed by a precomputed planar subdivision.
    pub fn with_vdg(&mut self, diagram: Vdg) -> (r: Register)
        requires
            old(self).wf(),
            old(self)@.len() < MAX_INSTRUCTIONS,
            diagram.wf(),
        ensures
            final(self).wf(),
            final(self)@ == old(self)@.push(
                (SdfInstruction::LoadVdg { diagram: diagram, output: r }),
            ),
            r == (Register(old(self)@.len() as u32)),
    {
        let output = self.allocate_register();
        self.instructions.push(SdfInstruction::LoadVdg { diagram, output });
        output
    }

    /// Let a composite shape recursively delegate into this compiler, so that
    /// nested region algebra flattens into one instruction stream.
    pub fn with<S: Shape>(&mut self, shape: &S) -> (r: Register)
        requires
            old(self).wf(),
            old(self)@.len() + shape.instructions_needed() <= MAX_INSTRUCTIONS,
        ensures
            final(self).wf(),
            final(self)@ == old(self)@ + shape.program_of(old(self)@.len() as int),
            r == shape.result_of(old(self)@.len() as int),
            r.0 < final(self)@.len(),
    {
        shape.build_into(self)
    }

    /// Consume the compiler and return the finished, ordered instruction
    /// list.
    pub fn finish(self) -> (r: Vec<SdfInstruction>)
        requires
            self.wf(),
        ensures
            r@ == self@,
            crate::instruction::wf_program(r@),
    {
        self.instructions
    }
}

} // verus!
