//! The built-in circle shape: a point dilated by a radius.

use vstd::prelude::*;

use crate::compiler::{SdfCompiler, Shape};
use crate::instruction::{Register, SdfInstruction, MAX_INSTRUCTIONS};
use crate::types::{Centimeters, Position};

verus! {

/// A disc: every sample within `radius` of `center` is inside.
pub struct Circle {
    center: Position,
    radius: Centimeters,
}

impl Circle {
    #[verifier::type_invariant]
    pub closed spec fn inv(self) -> bool {
        self.center.valid()
    }

    pub fn new(center: Position, radius: Centimeters) -> (r: Circle)
        requires
            center.valid(),
        ensures
            r.center_spec() == center,
            r.radius_spec() == radius,
    {
        Circle { center, radius }
    }

    pub closed spec fn center_spec(self) -> Position {
        self.center
    }

    pub closed spec fn radius_spec(self) -> Centimeters {
        self.radius
    }

    /// Emit the circle: its center point, dilated by its radius.
    pub fn emit(&self, compiler: &mut SdfCompiler) -> (r: Register)
        requires
            old(compiler).wf(),
            old(compiler)@.len() + 2 <= MAX_INSTRUCTIONS,
        ensures
            final(compiler).wf(),
            final(compiler)@ == old(compiler)@.push(
                (SdfInstruction::Point {
                    position: self.center_spec(),
                    output: Register(old(compiler)@.len() as u32),
                }),
            ).push(
                (SdfInstruction::Dilate {
                    input: Register(old(compiler)@.len() as u32),
                    amount: self.radius_spec(),
                    output: r,
                }),
            ),
            r == (Register((old(compiler)@.len() + 1) as u32)),
    {
        proof {
            use_type_invariant(&*self);
        }
        let point = compiler.point(self.center);
        let dilated = compiler.dilate(point, self.radius);
        dilated
    }
}

impl Shape for Circle {
    open spec fn instructions_needed(&self) -> int {
        2
    }

    open spec fn program_of(&self, base: int) -> Seq<SdfInstruction> {
        seq![
            (SdfInstruction::Point {
                position: self.center_spec(),
                output: Register(base as u32),
            }),
            (SdfInstruction::Dilate {
                input: Register(base as u32),
                amount: self.radius_spec(),
                output: Register((base + 1) as u32),
            }),
        ]
    }

    open spec fn result_of(&self, base: int) -> Register {
        Register((base + 1) as u32)
    }

    fn build_into(&self, compiler: &mut SdfCompiler) -> (r: Register) {
        let ghost pre = compiler@;
        let r = self.emit(compiler);
        proof {
            assert(compiler@ =~= pre + self.program_of(pre.len() as int));
        }
        r
    }
}

} // verus!
