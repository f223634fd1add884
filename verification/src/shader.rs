//! The code generator: walks a finished instruction list once, in order,
//! emitting one evaluation step per instruction into a template routine,
//! recording which argument slots the final routine needs, and computing a
//! 64-bit structural hash over opcode discriminants and register identities
//! only — never over concrete payload values — so that two region-algebra
//! trees with identical shape but different constants share one compiled
//! routine.

use vstd::prelude::*;

use crate::instruction::{
    ContourTexture, Register, SdfInstruction, Vdg, MAX_INSTRUCTIONS,
};
use crate::types::{all_valid, Position, COORD_MAX};

verus! {

/// Identifies one argument cell a compiled routine requires:
/// `(instruction_index, slot_key)`, ordered by instruction first.
#[derive(Clone, Copy, Debug, PartialEq, Eq, Hash, Structural)]
pub struct ShaderSlot {
    pub instruction_index: u8,
    pub instruction_key: u8,
}

/// Locates one encoded value inside a bound-argument byte buffer.
#[derive(Clone, Copy, Debug, PartialEq, Eq, Structural)]
pub struct ShaderArgument {
    pub offset: u32,
    pub length: u32,
}

/// One evaluation step of a compiled routine: the structural part of an
/// instruction — its opcode and the registers it reads — with every constant
/// payload left to the bound-argument map, so that routines of identical
/// shape but different constants are one and the same.
pub enum EvalStep {
    Point,
    PointCloud,
    Geodesic,
    GeodesicString,
    GreatCircle,
    Union { shapes: Vec<u32> },
    Intersection { left: u32, right: u32 },
    Subtract { left: u32, right: u32 },
    Invert { input: u32 },
    Dilate { input: u32 },
    Edge { input: u32 },
    Boundary { inside: u32, outside: u32 },
    Contour,
    LoadVdg,
}

/// The step is exactly the structural part of the instruction.
pub open spec fn step_matches(st: EvalStep, i: SdfInstruction) -> bool {
    match i {
        SdfInstruction::Point { .. } => st is Point,
        SdfInstruction::PointCloud { .. } => st is PointCloud,
        SdfInstruction::Geodesic { .. } => st is Geodesic,
        SdfInstruction::GeodesicString { .. } => st is GeodesicString,
        SdfInstruction::GreatCircle { .. } => st is GreatCircle,
        SdfInstruction::Union { shapes, .. } => st matches EvalStep::Union { shapes: s } && s@
            == shapes@.map_values(|r: Register| r.0),
        SdfInstruction::Intersection { left, right, .. } => st matches EvalStep::Intersection {
            left: l,
            right: r,
        } && l == left.0 && r == right.0,
        SdfInstruction::Subtract { left, right, .. } => st matches EvalStep::Subtract {
            left: l,
            right: r,
        } && l == left.0 && r == right.0,
        SdfInstruction::Invert { input, .. } => st matches EvalStep::Invert { input: a } && a
            == input.0,
        SdfInstruction::Dilate { input, .. } => st matches EvalStep::Dilate { input: a } && a
            == input.0,
        SdfInstruction::Edge { input, .. } => st matches EvalStep::Edge { input: a } && a
            == input.0,
        SdfInstruction::Boundary { inside, outside, .. } => st matches EvalStep::Boundary {
            inside: l,
            outside: r,
        } && l == inside.0 && r == outside.0,
        SdfInstruction::Contour { .. } => st is Contour,
        SdfInstruction::LoadVdg { .. } => st is LoadVdg,
    }
}

/// A small distinct discriminant per opcode, folded into the structural
/// hash.
pub open spec fn opcode_tag(i: SdfInstruction) -> u64 {
    match i {
        SdfInstruction::Point { .. } => 1,
        SdfInstruction::PointCloud { .. } => 2,
        SdfInstruction::Geodesic { .. } => 3,
        SdfInstruction::GeodesicString { .. } => 4,
        SdfInstruction::GreatCircle { .. } => 5,
        SdfInstruction::Union { .. } => 6,
        SdfInstruction::Intersection { .. } => 7,
        SdfInstruction::Subtract { .. } => 8,
        SdfInstruction::Invert { .. } => 9,
        SdfInstruction::Dilate { .. } => 10,
        SdfInstruction::Edge { .. } => 11,
        SdfInstruction::Boundary { .. } => 12,
        SdfInstruction::Contour { .. } => 13,
        SdfInstruction::LoadVdg { .. } => 14,
    }
}

/// The registers an instruction reads, in a fixed order.
pub open spec fn operand_regs(i: SdfInstruction) -> Seq<u32> {
    match i {
        SdfInstruction::Union { shapes, .. } => shapes@.map_values(|r: Register| r.0),
        SdfInstruction::Intersection { left, right, .. } => seq![left.0, right.0],
        SdfInstruction::Subtract { left, right, .. } => seq![left.0, right.0],
        SdfInstruction::Invert { input, .. } => seq![input.0],
        SdfInstruction::Dilate { input, .. } => seq![input.0],
        SdfInstruction::Edge { input, .. } => seq![input.0],
        SdfInstruction::Boundary { inside, outside, .. } => seq![inside.0, outside.0],
        _ => Seq::empty(),
    }
}

/// Two instructions of identical shape: same opcode and same register
/// wiring, payloads free.
pub open spec fn same_structure(a: SdfInstruction, b: SdfInstruction) -> bool {
    &&& opcode_tag(a) == opcode_tag(b)
    &&& operand_regs(a) == operand_regs(b)
    &&& a.output() == b.output()
}

pub const HASH_OFFSET: u64 = 0xcbf29ce484222325;

pub const HASH_PRIME: u64 = 0x100000001b3;

/// One Fowler–Noll–Vo style mixing step. Opaque: proofs about the hash
/// only ever need that equal inputs mix equally.
#[verifier::opaque]
pub open spec fn mix(h: u64, v: u64) -> u64 {
    ((((h ^ v) as int) * (HASH_PRIME as int)) % 0x1_0000_0000_0000_0000) as u64
}

/// Fold a register list into the hash.
pub open spec fn hash_regs(h: u64, regs: Seq<u32>) -> u64
    decreases regs.len(),
{
    if regs.len() == 0 {
        h
    } else {
        mix(hash_regs(h, regs.drop_last()), regs.last() as u64)
    }
}

/// Fold one instruction's structure into the hash: opcode discriminant, the
/// registers read, and the register produced.
pub open spec fn instr_hash(h: u64, i: SdfInstruction) -> u64 {
    mix(hash_regs(mix(h, opcode_tag(i)), operand_regs(i)), i.output().0 as u64)
}

/// Fold a whole program into the hash, in instruction order.
pub open spec fn program_hash(prog: Seq<SdfInstruction>) -> u64
    decreases prog.len(),
{
    if prog.len() == 0 {
        HASH_OFFSET
    } else {
        instr_hash(program_hash(prog.drop_last()), prog.last())
    }
}

/// The structural hash of a compiled routine: the program's structure
/// followed by the result register. Payload values never enter.
pub open spec fn structural_hash(prog: Seq<SdfInstruction>, result: Register) -> u64 {
    mix(program_hash(prog), result.0 as u64)
}

/// The program part of the hash never reads a payload.
proof fn lemma_program_hash_payload_independent(a: Seq<SdfInstruction>, b: Seq<SdfInstruction>)
    requires
        a.len() == b.len(),
        forall|i: int| 0 <= i < a.len() ==> same_structure(#[trigger] a[i], #[trigger] b[i]),
    ensures
        program_hash(a) == program_hash(b),
    decreases a.len(),
{
    if a.len() > 0 {
        assert(forall|i: int|
            0 <= i < a.len() - 1 ==> a.drop_last()[i] == #[trigger] a[i] && b.drop_last()[i]
                == b[i]);
        lemma_program_hash_payload_independent(a.drop_last(), b.drop_last());
        assert(same_structure(a.last(), b.last()));
    }
}

/// Programs of identical shape hash identically, whatever their constants:
/// the hash never reads a payload.
pub proof fn lemma_hash_payload_independent(
    a: Seq<SdfInstruction>,
    b: Seq<SdfInstruction>,
    result: Register,
)
    requires
        a.len() == b.len(),
        forall|i: int| 0 <= i < a.len() ==> same_structure(#[trigger] a[i], #[trigger] b[i]),
    ensures
        structural_hash(a, result) == structural_hash(b, result),
{
    lemma_program_hash_payload_independent(a, b);
}

/// Steps are structurally interchangeable: same opcode, same register
/// wiring.
pub open spec fn step_eqv(a: EvalStep, b: EvalStep) -> bool {
    match (a, b) {
        (EvalStep::Point, EvalStep::Point) => true,
        (EvalStep::PointCloud, EvalStep::PointCloud) => true,
        (EvalStep::Geodesic, EvalStep::Geodesic) => true,
        (EvalStep::GeodesicString, EvalStep::GeodesicString) => true,
        (EvalStep::GreatCircle, EvalStep::GreatCircle) => true,
        (EvalStep::Union { shapes: x }, EvalStep::Union { shapes: y }) => x@ == y@,
        (
            EvalStep::Intersection { left: a1, right: a2 },
            EvalStep::Intersection { left: b1, right: b2 },
        ) => a1 == b1 && a2 == b2,
        (
            EvalStep::Subtract { left: a1, right: a2 },
            EvalStep::Subtract { left: b1, right: b2 },
        ) => a1 == b1 && a2 == b2,
        (EvalStep::Invert { input: a1 }, EvalStep::Invert { input: b1 }) => a1 == b1,
        (EvalStep::Dilate { input: a1 }, EvalStep::Dilate { input: b1 }) => a1 == b1,
        (EvalStep::Edge { input: a1 }, EvalStep::Edge { input: b1 }) => a1 == b1,
        (
            EvalStep::Boundary { inside: a1, outside: a2 },
            EvalStep::Boundary { inside: b1, outside: b2 },
        ) => a1 == b1 && a2 == b2,
        (EvalStep::Contour, EvalStep::Contour) => true,
        (EvalStep::LoadVdg, EvalStep::LoadVdg) => true,
        _ => false,
    }
}

/// A step interchangeable with a faithful one is itself faithful.
pub proof fn lemma_step_eqv_matches(a: EvalStep, b: EvalStep, i: SdfInstruction)
    requires
        step_eqv(a, b),
        step_matches(b, i),
    ensures
        step_matches(a, i),
{
}

/// The argument slots of the instruction at position `idx`, in key order.
pub open spec fn slots_of(idx: int, n: int) -> Seq<ShaderSlot> {
    Seq::new(
        n as nat,
        |k: int|
            ShaderSlot { instruction_index: idx as u8, instruction_key: k as u8 },
    )
}

/// Every slot a program requires, in slot order: ascending instruction
/// index, then key.
pub open spec fn program_slots(prog: Seq<SdfInstruction>) -> Seq<ShaderSlot>
    decreases prog.len(),
{
    if prog.len() == 0 {
        Seq::empty()
    } else {
        program_slots(prog.drop_last()) + slots_of(
            prog.len() - 1,
            prog.last().slot_count(),
        )
    }
}

/// Why a compilation was aborted: these are construction-time defects of the
/// caller's instruction stream, never recoverable conditions.
#[derive(Clone, Copy, Debug, PartialEq, Eq, Structural)]
pub enum ShaderCompileError {
    /// The program exceeds the instruction-index budget of the slot format.
    TooManyInstructions,
    /// An instruction does not produce its own position's register or reads
    /// a register not yet produced.
    InvalidRegister,
    /// A constant payload lies outside the planar map frame or is internally
    /// inconsistent.
    InvalidPayload,
    /// The designated result register is not produced by the program.
    MissingResult,
}

/// A compiled routine: generated evaluation steps, the structural hash they
/// were filed under, and the ordered list of argument slots the routine
/// requires. Payload-free, so distinct shapes of equal structure share one.
pub struct ShapeShader {
    pub hash: u64,
    pub steps: Vec<EvalStep>,
    pub required_slots: Vec<ShaderSlot>,
    pub result: u32,
}

impl ShapeShader {
    /// The structural hash the routine was compiled under.
    pub open spec fn hash_spec(self) -> u64 {
        self.hash
    }

    /// The generated steps, one per source instruction.
    pub open spec fn steps_spec(self) -> Seq<EvalStep> {
        self.steps@
    }

    /// The slots the routine requires, in slot order.
    pub open spec fn slots_spec(self) -> Seq<ShaderSlot> {
        self.required_slots@
    }

    /// The register whose value the routine returns.
    pub open spec fn result_spec(self) -> u32 {
        self.result
    }

    /// The routine is the faithful compilation of `prog` with result
    /// register `result`.
    pub open spec fn compiled_from(self, prog: Seq<SdfInstruction>, result: Register) -> bool {
        &&& crate::instruction::wf_program(prog)
        &&& result.0 < prog.len()
        &&& self.hash_spec() == structural_hash(prog, result)
        &&& self.result_spec() == result.0
        &&& self.steps_spec().len() == prog.len()
        &&& forall|i: int|
            0 <= i < prog.len() ==> step_matches(#[trigger] self.steps_spec()[i], prog[i])
        &&& self.slots_spec() == program_slots(prog)
    }

    pub fn hash(&self) -> (r: u64)
        ensures
            r == self.hash_spec(),
    {
        self.hash
    }

    pub fn required_slots(&self) -> (r: &Vec<ShaderSlot>)
        ensures
            r@ == self.slots_spec(),
    {
        &self.required_slots
    }

    /// Whether two routines are structurally identical: same hash, same
    /// steps, same slots, same result register. A cached routine is only
    /// substituted for a fresh one after this check, so a structural-hash
    /// collision can never make a program evaluate another's steps.
    pub fn structurally_equal(&self, other: &ShapeShader) -> (b: bool)
        ensures
            b == (self.hash_spec() == other.hash_spec() && self.result_spec()
                == other.result_spec() && self.slots_spec() == other.slots_spec()
                && self.steps_spec().len() == other.steps_spec().len() && (forall|i: int|
                0 <= i < self.steps_spec().len() ==> step_eqv(
                    #[trigger] self.steps_spec()[i],
                    other.steps_spec()[i],
                ))),
    {
        if self.hash != other.hash || self.result != other.result {
            return false;
        }
        if self.required_slots.len() != other.required_slots.len() {
            proof {
                assert(self.slots_spec().len() != other.slots_spec().len());
            }
            return false;
        }
        let mut k: usize = 0;
        while k < self.required_slots.len()
            invariant
                0 <= k <= self.required_slots@.len(),
                self.required_slots@.len() == other.required_slots@.len(),
                forall|i: int|
                    0 <= i < k ==> #[trigger] self.required_slots@[i] == other.required_slots@[i],
            decreases self.required_slots@.len() - k,
        {
            let a = self.required_slots[k];
            let b = other.required_slots[k];
            if a.instruction_index != b.instruction_index || a.instruction_key
                != b.instruction_key {
                return false;
            }
            k = k + 1;
        }
        proof {
            assert(self.slots_spec() =~= other.slots_spec());
        }
        if self.steps.len() != other.steps.len() {
            return false;
        }
        let mut k: usize = 0;
        while k < self.steps.len()
            invariant
                0 <= k <= self.steps@.len(),
                self.steps@.len() == other.steps@.len(),
                forall|i: int|
                    0 <= i < k ==> step_eqv(#[trigger] self.steps@[i], other.steps@[i]),
            decreases self.steps@.len() - k,
        {
            if !steps_equal(&self.steps[k], &other.steps[k]) {
                return false;
            }
            k = k + 1;
        }
        true
    }

    /// Deterministically produce the evaluation routine for a finished
    /// instruction list and a designated result register. A dangling or
    /// misplaced register, an over-long program, an out-of-frame payload, or
    /// a result the program never produces each abort compilation: the
    /// stream is internally generated, so such a defect is a bug, never an
    /// input to recover from.
    pub fn compile(instructions: &Vec<SdfInstruction>, result: Register) -> (r: Result<
        ShapeShader,
        ShaderCompileError,
    >)
        ensures
            r is Ok <==> crate::instruction::wf_program(instructions@) && result.0
                < instructions@.len(),
            r matches Ok(sh) ==> sh.compiled_from(instructions@, result),
    {
        if instructions.len() > MAX_INSTRUCTIONS {
            assert(!crate::instruction::wf_program(instructions@));
            return Err(ShaderCompileError::TooManyInstructions);
        }
        let mut h: u64 = HASH_OFFSET;
        let mut steps: Vec<EvalStep> = Vec::new();
        let mut slots: Vec<ShaderSlot> = Vec::new();
        let mut idx: usize = 0;
        proof {
            assert(instructions@.take(0) =~= Seq::<SdfInstruction>::empty());
        }
        while idx < instructions.len()
            invariant
                0 <= idx <= instructions@.len(),
                instructions@.len() <= MAX_INSTRUCTIONS,
                h == program_hash(instructions@.take(idx as int)),
                steps@.len() == idx,
                forall|i: int|
                    0 <= i < idx ==> step_matches(#[trigger] steps@[i], instructions@[i]),
                slots@ == program_slots(instructions@.take(idx as int)),
                forall|i: int|
                    0 <= i < idx ==> (#[trigger] instructions@[i]).output().0 == i
                        && instructions@[i].refs_before(i) && instructions@[i].payload_ok(),
            decreases instructions@.len() - idx,
        {
            let instr = &instructions[idx];
            if !check_instruction(instr, idx) {
                if check_payload(instr) {
                    return Err(ShaderCompileError::InvalidRegister);
                } else {
                    return Err(ShaderCompileError::InvalidPayload);
                }
            }
            let step = make_step(instr);
            let ghost prev = instructions@.take(idx as int);
            h = fold_instruction_hash(h, instr);
            push_slots(&mut slots, instr, idx);
            steps.push(step);
            proof {
                assert(instructions@.take(idx + 1).drop_last() =~= prev);
                assert(instructions@.take(idx + 1).last() == instructions@[idx as int]);
            }
            idx = idx + 1;
        }
        proof {
            assert(instructions@.take(instructions@.len() as int) =~= instructions@);
        }
        if (result.0 as usize) >= instructions.len() {
            return Err(ShaderCompileError::MissingResult);
        }
        let h = hash_mix(h, result.0 as u64);
        Ok(ShapeShader { hash: h, steps, required_slots: slots, result: result.0 })
    }
}

/// Structural comparison of two steps.
fn steps_equal(a: &EvalStep, b: &EvalStep) -> (r: bool)
    ensures
        r == step_eqv(*a, *b),
{
    match (a, b) {
        (EvalStep::Point, EvalStep::Point) => true,
        (EvalStep::PointCloud, EvalStep::PointCloud) => true,
        (EvalStep::Geodesic, EvalStep::Geodesic) => true,
        (EvalStep::GeodesicString, EvalStep::GeodesicString) => true,
        (EvalStep::GreatCircle, EvalStep::GreatCircle) => true,
        (EvalStep::Union { shapes: x }, EvalStep::Union { shapes: y }) => {
            if x.len() != y.len() {
                false
            } else {
                let mut all_eq = true;
                let mut k: usize = 0;
                while k < x.len()
                    invariant
                        0 <= k <= x@.len(),
                        x@.len() == y@.len(),
                        all_eq == (forall|i: int| 0 <= i < k ==> #[trigger] x@[i] == y@[i]),
                    decreases x@.len() - k,
                {
                    if x[k] != y[k] {
                        all_eq = false;
                    }
                    k = k + 1;
                }
                proof {
                    if all_eq {
                        assert(x@ =~= y@);
                    }
                }
                all_eq
            }
        },
        (
            EvalStep::Intersection { left: a1, right: a2 },
            EvalStep::Intersection { left: b1, right: b2 },
        ) => *a1 == *b1 && *a2 == *b2,
        (
            EvalStep::Subtract { left: a1, right: a2 },
            EvalStep::Subtract { left: b1, right: b2 },
        ) => *a1 == *b1 && *a2 == *b2,
        (EvalStep::Invert { input: a1 }, EvalStep::Invert { input: b1 }) => *a1 == *b1,
        (EvalStep::Dilate { input: a1 }, EvalStep::Dilate { input: b1 }) => *a1 == *b1,
        (EvalStep::Edge { input: a1 }, EvalStep::Edge { input: b1 }) => *a1 == *b1,
        (
            EvalStep::Boundary { inside: a1, outside: a2 },
            EvalStep::Boundary { inside: b1, outside: b2 },
        ) => *a1 == *b1 && *a2 == *b2,
        (EvalStep::Contour, EvalStep::Contour) => true,
        (EvalStep::LoadVdg, EvalStep::LoadVdg) => true,
        _ => false,
    }
}

/// One mixing step, executable form.
fn hash_mix(h: u64, v: u64) -> (r: u64)
    ensures
        r == mix(h, v),
{
    proof {
        reveal(mix);
    }
    (h ^ v).wrapping_mul(HASH_PRIME)
}

/// Fold one instruction's structure into the running hash.
fn fold_instruction_hash(h: u64, instr: &SdfInstruction) -> (r: u64)
    ensures
        r == instr_hash(h, *instr),
{
    let tag: u64 = match instr {
        SdfInstruction::Point { .. } => 1,
        SdfInstruction::PointCloud { .. } => 2,
        SdfInstruction::Geodesic { .. } => 3,
        SdfInstruction::GeodesicString { .. } => 4,
        SdfInstruction::GreatCircle { .. } => 5,
        SdfInstruction::Union { .. } => 6,
        SdfInstruction::Intersection { .. } => 7,
        SdfInstruction::Subtract { .. } => 8,
        SdfInstruction::Invert { .. } => 9,
        SdfInstruction::Dilate { .. } => 10,
        SdfInstruction::Edge { .. } => 11,
        SdfInstruction::Boundary { .. } => 12,
        SdfInstruction::Contour { .. } => 13,
        SdfInstruction::LoadVdg { .. } => 14,
    };
    let mut r = hash_mix(h, tag);
    let ghost h1 = r;
    match instr {
        SdfInstruction::Union { shapes, .. } => {
            let mut k: usize = 0;
            proof {
                assert(operand_regs(*instr).take(0) =~= Seq::<u32>::empty());
            }
            while k < shapes.len()
                invariant
                    0 <= k <= shapes@.len(),
                    operand_regs(*instr) == shapes@.map_values(|rg: Register| rg.0),
                    r == hash_regs(h1, operand_regs(*instr).take(k as int)),
                decreases shapes@.len() - k,
            {
                let ghost prevregs = operand_regs(*instr).take(k as int);
                r = hash_mix(r, shapes[k].0 as u64);
                proof {
                    assert(operand_regs(*instr).take(k + 1).drop_last() =~= prevregs);
                    assert(operand_regs(*instr).take(k + 1).last() == shapes@[k as int].0);
                }
                k = k + 1;
            }
            proof {
                assert(operand_regs(*instr).take(operand_regs(*instr).len() as int)
                    =~= operand_regs(*instr));
            }
        },
        SdfInstruction::Intersection { left, right, .. } => {
            r = hash_mix(r, left.0 as u64);
            r = hash_mix(r, right.0 as u64);
            proof {
                lemma_hash_regs_pair(h1, left.0, right.0);
            }
        },
        SdfInstruction::Subtract { left, right, .. } => {
            r = hash_mix(r, left.0 as u64);
            r = hash_mix(r, right.0 as u64);
            proof {
                lemma_hash_regs_pair(h1, left.0, right.0);
            }
        },
        SdfInstruction::Boundary { inside, outside, .. } => {
            r = hash_mix(r, inside.0 as u64);
            r = hash_mix(r, outside.0 as u64);
            proof {
                lemma_hash_regs_pair(h1, inside.0, outside.0);
            }
        },
        SdfInstruction::Invert { input, .. } => {
            r = hash_mix(r, input.0 as u64);
            proof {
                lemma_hash_regs_single(h1, input.0);
            }
        },
        SdfInstruction::Dilate { input, .. } => {
            r = hash_mix(r, input.0 as u64);
            proof {
                lemma_hash_regs_single(h1, input.0);
            }
        },
        SdfInstruction::Edge { input, .. } => {
            r = hash_mix(r, input.0 as u64);
            proof {
                lemma_hash_regs_single(h1, input.0);
            }
        },
        _ => {
            proof {
                assert(operand_regs(*instr) =~= Seq::<u32>::empty());
            }
        },
    }
    let out = output_of(instr);
    hash_mix(r, out.0 as u64)
}

proof fn lemma_hash_regs_single(h: u64, a: u32)
    ensures
        hash_regs(h, seq![a]) == mix(h, a as u64),
{
    assert(seq![a].drop_last() =~= Seq::<u32>::empty());
    assert(hash_regs(h, Seq::<u32>::empty()) == h);
    assert(seq![a].last() == a);
}

proof fn lemma_hash_regs_pair(h: u64, a: u32, b: u32)
    ensures
        hash_regs(h, seq![a, b]) == mix(mix(h, a as u64), b as u64),
{
    assert(seq![a, b].drop_last() =~= seq![a]);
    lemma_hash_regs_single(h, a);
}

/// The register an instruction produces, executable form.
pub fn output_of(instr: &SdfInstruction) -> (r: Register)
    ensures
        r == instr.output(),
{
    match instr {
        SdfInstruction::Point { output, .. } => *output,
        SdfInstruction::PointCloud { output, .. } => *output,
        SdfInstruction::Geodesic { output, .. } => *output,
        SdfInstruction::GeodesicString { output, .. } => *output,
        SdfInstruction::GreatCircle { output, .. } => *output,
        SdfInstruction::Union { output, .. } => *output,
        SdfInstruction::Intersection { output, .. } => *output,
        SdfInstruction::Subtract { output, .. } => *output,
        SdfInstruction::Invert { output, .. } => *output,
        SdfInstruction::Dilate { output, .. } => *output,
        SdfInstruction::Edge { output, .. } => *output,
        SdfInstruction::Boundary { output, .. } => *output,
        SdfInstruction::Contour { output, .. } => *output,
        SdfInstruction::LoadVdg { output, .. } => *output,
    }
}

fn check_pos(p: &Position) -> (b: bool)
    ensures
        b == p.valid(),
{
    p.x >= -COORD_MAX && p.x <= COORD_MAX && p.y >= -COORD_MAX && p.y <= COORD_MAX
}

fn check_positions(ps: &Vec<Position>) -> (b: bool)
    ensures
        b == all_valid(ps@),
{
    let mut k: usize = 0;
    while k < ps.len()
        invariant
            0 <= k <= ps@.len(),
            forall|i: int| 0 <= i < k ==> (#[trigger] ps@[i]).valid(),
        decreases ps@.len() - k,
    {
        if !check_pos(&ps[k]) {
            return false;
        }
        k = k + 1;
    }
    true
}

fn check_registers(rs: &Vec<Register>, bound: usize) -> (b: bool)
    ensures
        b == forall|i: int| 0 <= i < rs@.len() ==> (#[trigger] rs@[i]).0 < bound,
{
    let mut k: usize = 0;
    while k < rs.len()
        invariant
            0 <= k <= rs@.len(),
            forall|i: int| 0 <= i < k ==> (#[trigger] rs@[i]).0 < bound,
        decreases rs@.len() - k,
    {
        if !((rs[k].0 as usize) < bound) {
            return false;
        }
        k = k + 1;
    }
    true
}

fn check_texture(t: &ContourTexture) -> (b: bool)
    ensures
        b == t.wf(),
{
    proof {
        assert((t.width as int) * (t.height as int) <= 0xFFFF_FFFF_FFFF_FFFFint && (
        t.width as int) * (t.height as int) >= 0) by (nonlinear_arith)
            requires
                0 <= t.width <= 0xFFFF_FFFFu32,
                0 <= t.height <= 0xFFFF_FFFFu32,
        ;
    }
    check_pos(&t.origin) && t.cell_cm >= 1 && t.width >= 1 && t.width <= 0x10000 && t.height >= 1
        && t.height <= 0x10000 && (t.values.len() as u64) == (t.width as u64) * (t.height as u64)
}

fn check_vdg(d: &Vdg) -> (b: bool)
    ensures
        b == d.wf(),
{
    let mut k: usize = 0;
    while k < d.sites.len()
        invariant
            0 <= k <= d.sites@.len(),
            forall|i: int| 0 <= i < k ==> (#[trigger] d.sites@[i]).position.valid(),
        decreases d.sites@.len() - k,
    {
        if !check_pos(&d.sites[k].position) {
            return false;
        }
        k = k + 1;
    }
    true
}

/// Payload validity alone, used to tell the two defect classes apart.
fn check_payload(instr: &SdfInstruction) -> (b: bool)
    ensures
        b == instr.payload_ok(),
{
    match instr {
        SdfInstruction::Point { position, .. } => check_pos(position),
        SdfInstruction::PointCloud { points, .. } => check_positions(points),
        SdfInstruction::Geodesic { start, end, .. } => check_pos(start) && check_pos(end),
        SdfInstruction::GeodesicString { points, .. } => check_positions(points),
        SdfInstruction::GreatCircle { point, normal_x, normal_y, interior_point, .. } => check_pos(
            point,
        ) && check_pos(interior_point) && *normal_x >= -2_000_000_000 && *normal_x
            <= 2_000_000_000 && *normal_y >= -2_000_000_000 && *normal_y <= 2_000_000_000,
        SdfInstruction::Contour { texture, .. } => check_texture(texture),
        SdfInstruction::LoadVdg { diagram, .. } => check_vdg(diagram),
        _ => true,
    }
}

/// Full per-instruction validation: output identity, register references,
/// payload.
fn check_instruction(instr: &SdfInstruction, idx: usize) -> (b: bool)
    ensures
        b == (instr.output().0 == idx && instr.refs_before(idx as int) && instr.payload_ok()),
{
    let out = output_of(instr);
    if !(out.0 as usize == idx) {
        return false;
    }
    let refs_ok = match instr {
        SdfInstruction::Union { shapes, .. } => check_registers(shapes, idx),
        SdfInstruction::Intersection { left, right, .. } => (left.0 as usize) < idx && (
        right.0 as usize) < idx,
        SdfInstruction::Subtract { left, right, .. } => (left.0 as usize) < idx && (
        right.0 as usize) < idx,
        SdfInstruction::Invert { input, .. } => (input.0 as usize) < idx,
        SdfInstruction::Dilate { input, .. } => (input.0 as usize) < idx,
        SdfInstruction::Edge { input, .. } => (input.0 as usize) < idx,
        SdfInstruction::Boundary { inside, outside, .. } => (inside.0 as usize) < idx && (
        outside.0 as usize) < idx,
        _ => true,
    };
    if !refs_ok {
        return false;
    }
    check_payload(instr)
}

/// Copy a register list into the routine's plain operand form.
fn copy_registers(rs: &Vec<Register>) -> (r: Vec<u32>)
    ensures
        r@ == rs@.map_values(|rg: Register| rg.0),
{
    let mut out: Vec<u32> = Vec::new();
    let mut k: usize = 0;
    proof {
        assert(out@ =~= rs@.map_values(|rg: Register| rg.0).take(0));
    }
    while k < rs.len()
        invariant
            0 <= k <= rs@.len(),
            out@ == rs@.map_values(|rg: Register| rg.0).take(k as int),
        decreases rs@.len() - k,
    {
        out.push(rs[k].0);
        proof {
            assert(out@ =~= rs@.map_values(|rg: Register| rg.0).take(k + 1));
        }
        k = k + 1;
    }
    proof {
        assert(out@ =~= rs@.map_values(|rg: Register| rg.0));
    }
    out
}

/// Emit the evaluation step for one instruction.
fn make_step(instr: &SdfInstruction) -> (st: EvalStep)
    ensures
        step_matches(st, *instr),
{
    match instr {
        SdfInstruction::Point { .. } => EvalStep::Point,
        SdfInstruction::PointCloud { .. } => EvalStep::PointCloud,
        SdfInstruction::Geodesic { .. } => EvalStep::Geodesic,
        SdfInstruction::GeodesicString { .. } => EvalStep::GeodesicString,
        SdfInstruction::GreatCircle { .. } => EvalStep::GreatCircle,
        SdfInstruction::Union { shapes, .. } => EvalStep::Union { shapes: copy_registers(shapes) },
        SdfInstruction::Intersection { left, right, .. } => EvalStep::Intersection {
            left: left.0,
            right: right.0,
        },
        SdfInstruction::Subtract { left, right, .. } => EvalStep::Subtract {
            left: left.0,
            right: right.0,
        },
        SdfInstruction::Invert { input, .. } => EvalStep::Invert { input: input.0 },
        SdfInstruction::Dilate { input, .. } => EvalStep::Dilate { input: input.0 },
        SdfInstruction::Edge { input, .. } => EvalStep::Edge { input: input.0 },
        SdfInstruction::Boundary { inside, outside, .. } => EvalStep::Boundary {
            inside: inside.0,
            outside: outside.0,
        },
        SdfInstruction::Contour { .. } => EvalStep::Contour,
        SdfInstruction::LoadVdg { .. } => EvalStep::LoadVdg,
    }
}

/// Count of argument slots one instruction consumes, executable form.
fn slot_count_of(instr: &SdfInstruction) -> (n: usize)
    ensures
        n == instr.slot_count(),
{
    match instr {
        SdfInstruction::Point { .. } => 1,
        SdfInstruction::PointCloud { .. } => 1,
        SdfInstruction::Geodesic { .. } => 2,
        SdfInstruction::GeodesicString { .. } => 1,
        SdfInstruction::GreatCircle { .. } => 3,
        SdfInstruction::Union { .. } => 0,
        SdfInstruction::Intersection { .. } => 0,
        SdfInstruction::Subtract { .. } => 0,
        SdfInstruction::Invert { .. } => 0,
        SdfInstruction::Dilate { .. } => 1,
        SdfInstruction::Edge { .. } => 0,
        SdfInstruction::Boundary { .. } => 1,
        SdfInstruction::Contour { .. } => 2,
        SdfInstruction::LoadVdg { .. } => 1,
    }
}

/// Record the slots instruction `idx` consumes, in key order.
fn push_slots(slots: &mut Vec<ShaderSlot>, instr: &SdfInstruction, idx: usize)
    requires
        idx < MAX_INSTRUCTIONS,
    ensures
        final(slots)@ == old(slots)@ + slots_of(idx as int, instr.slot_count()),
{
    let n = slot_count_of(instr);
    let mut k: usize = 0;
    proof {
        assert(old(slots)@ + slots_of(idx as int, instr.slot_count()).take(0) =~= old(slots)@);
    }
    while k < n
        invariant
            0 <= k <= n,
            n == instr.slot_count(),
            n <= 3,
            idx < MAX_INSTRUCTIONS,
            slots@ == old(slots)@ + slots_of(idx as int, n as int).take(k as int),
        decreases n - k,
    {
        slots.push(ShaderSlot { instruction_index: idx as u8, instruction_key: k as u8 });
        proof {
            assert(slots@ =~= old(slots)@ + slots_of(idx as int, n as int).take(k + 1));
        }
        k = k + 1;
    }
    proof {
        assert(slots@ =~= old(slots)@ + slots_of(idx as int, n as int));
    }
}

} // verus!
