//! A bound program: a compiled routine together with the concrete slot
//! payloads extracted from the instruction list it was compiled from. The
//! binder walks the same instruction list a second time collecting every
//! constant payload; completeness — every slot the routine declares has a
//! bound value — is proved rather than discovered at evaluation time.

use std::sync::Arc;

use vstd::pervasive::unreached;
use vstd::prelude::*;

use crate::cache::{clone_shader_handle, ShaderCache};
use crate::compiler::{SdfCompiler, Shape};
use crate::instruction::{
    BoundaryOverlapResolution, ContourTexture, Register, SdfInstruction, Vdg, MAX_INSTRUCTIONS,
};
use crate::math::{line_side_distance, point_distance, segment_distance};
use crate::sem::{
    boundary_value, clamp_val, lemma_sem_bounded, min_dist_cm, polyline_dist_cm, sem, sem_list_min,
    sem_reg, site_dist_cm, texture_sample,
};
use crate::shader::{EvalStep, ShaderArgument, ShaderSlot, ShapeShader};
use crate::tile::Tile;
use crate::types::{all_valid, Centimeters, Position, VAL_MAX};

verus! {

/// One bound slot value: a constant payload lifted out of an instruction.
pub enum ArgPayload {
    Coord(Position),
    Coords(Vec<Position>),
    Normal { x: i64, y: i64 },
    Radius(Centimeters),
    Tag(BoundaryOverlapResolution),
    Threshold(Centimeters),
    Texture(ContourTexture),
    Subdivision(Vdg),
}

/// Two textures with equal fields sample equally.
pub open spec fn texture_eqv(a: ContourTexture, b: ContourTexture) -> bool {
    &&& a.origin == b.origin
    &&& a.cell_cm == b.cell_cm
    &&& a.width == b.width
    &&& a.height == b.height
    &&& a.values@ == b.values@
}

/// The payload bound for slot `k` of instruction `i` is exactly the
/// instruction's own constant.
pub open spec fn payload_matches_instr(p: ArgPayload, i: SdfInstruction, k: int) -> bool {
    match i {
        SdfInstruction::Point { position, .. } => k == 0 && (p matches ArgPayload::Coord(c) && c
            == position),
        SdfInstruction::PointCloud { points, .. } => k == 0 && (p matches ArgPayload::Coords(v)
            && v@ == points@),
        SdfInstruction::Geodesic { start, end, .. } => if k == 0 {
            p matches ArgPayload::Coord(c) && c == start
        } else {
            k == 1 && (p matches ArgPayload::Coord(c) && c == end)
        },
        SdfInstruction::GeodesicString { points, .. } => k == 0 && (p matches ArgPayload::Coords(
            v,
        ) && v@ == points@),
        SdfInstruction::GreatCircle { point, normal_x, normal_y, interior_point, .. } => if k
            == 0 {
            p matches ArgPayload::Coord(c) && c == point
        } else if k == 1 {
            p matches ArgPayload::Normal { x, y } && x == normal_x && y == normal_y
        } else {
            k == 2 && (p matches ArgPayload::Coord(c) && c == interior_point)
        },
        SdfInstruction::Dilate { amount, .. } => k == 0 && (p matches ArgPayload::Radius(r) && r
            == amount),
        SdfInstruction::Boundary { overlap_resolution, .. } => k == 0 && (p matches
            ArgPayload::Tag(t) && t == overlap_resolution),
        SdfInstruction::Contour { texture, zero_value, .. } => if k == 0 {
            p matches ArgPayload::Threshold(z) && z == zero_value
        } else {
            k == 1 && (p matches ArgPayload::Texture(t) && texture_eqv(t, texture))
        },
        SdfInstruction::LoadVdg { diagram, .. } => k == 0 && (p matches ArgPayload::Subdivision(
            d,
        ) && d.sites@ == diagram.sites@),
        _ => false,
    }
}

/// How many slots the instructions before position `i` consume in all.
pub open spec fn slots_before(prog: Seq<SdfInstruction>, i: int) -> int
    decreases i,
{
    if i <= 0 {
        0
    } else {
        slots_before(prog, i - 1) + prog[i - 1].slot_count()
    }
}

pub proof fn lemma_slots_before_mono(prog: Seq<SdfInstruction>, i: int, j: int)
    requires
        0 <= i <= j,
    ensures
        slots_before(prog, i) <= slots_before(prog, j),
        0 <= slots_before(prog, i),
    decreases j,
{
    if j > 0 {
        if i <= j - 1 {
            lemma_slots_before_mono(prog, i, j - 1);
        } else {
            lemma_slots_before_mono(prog, 0, i - 1);
        }
    }
}


/// Little-endian bytes of a 32-bit value.
pub open spec fn enc_u32(v: u32) -> Seq<u8> {
    seq![
        (v & 0xff) as u8,
        ((v >> 8) & 0xff) as u8,
        ((v >> 16) & 0xff) as u8,
        ((v >> 24) & 0xff) as u8,
    ]
}

pub open spec fn enc_i32(v: i32) -> Seq<u8> {
    enc_u32(v as u32)
}

/// A coordinate encodes as two little-endian 32-bit signed integers, each
/// the coordinate value relative to the tile's minimum corner.
pub open spec fn enc_coord(p: Position, t: Tile) -> Seq<u8> {
    enc_i32((p.x - t.x0) as i32) + enc_i32((p.y - t.y0) as i32)
}

pub open spec fn enc_coords(vs: Seq<Position>, t: Tile) -> Seq<u8>
    decreases vs.len(),
{
    if vs.len() == 0 {
        Seq::empty()
    } else {
        enc_coords(vs.drop_last(), t) + enc_coord(vs.last(), t)
    }
}

pub open spec fn enc_values(vs: Seq<i32>) -> Seq<u8>
    decreases vs.len(),
{
    if vs.len() == 0 {
        Seq::empty()
    } else {
        enc_values(vs.drop_last()) + enc_i32(vs.last())
    }
}

pub open spec fn enc_sites(vs: Seq<crate::instruction::VdgSite>, t: Tile) -> Seq<u8>
    decreases vs.len(),
{
    if vs.len() == 0 {
        Seq::empty()
    } else {
        enc_sites(vs.drop_last(), t) + enc_coord(vs.last().position, t) + enc_u32(
            if vs.last().inside {
                1
            } else {
                0
            },
        )
    }
}

/// The numeric tag of an overlap-resolution policy on the wire.
pub open spec fn policy_tag(p: BoundaryOverlapResolution) -> u32 {
    match p {
        BoundaryOverlapResolution::Inside => 1,
        BoundaryOverlapResolution::Outside => 2,
        BoundaryOverlapResolution::Midpoint => 3,
    }
}

/// The wire encoding of one bound payload, relative to a tile frame.
pub open spec fn enc_payload(p: ArgPayload, t: Tile) -> Seq<u8> {
    match p {
        ArgPayload::Coord(c) => enc_coord(c, t),
        ArgPayload::Coords(v) => enc_coords(v@, t),
        ArgPayload::Normal { x, y } => enc_i32(x as i32) + enc_i32(y as i32),
        ArgPayload::Radius(c) => enc_i32(c.0),
        ArgPayload::Tag(g) => enc_u32(policy_tag(g)),
        ArgPayload::Threshold(c) => enc_i32(c.0),
        ArgPayload::Texture(tx) => enc_coord(tx.origin, t) + enc_u32(tx.cell_cm) + enc_u32(
            tx.width,
        ) + enc_u32(tx.height) + enc_values(tx.values@),
        ArgPayload::Subdivision(d) => enc_u32(d.sites@.len() as u32) + enc_sites(d.sites@, t),
    }
}

/// The concatenated encodings of the first `k` payloads, in slot order.
pub open spec fn enc_args_prefix(args: Seq<ArgPayload>, t: Tile, k: int) -> Seq<u8>
    decreases k,
{
    if k <= 0 {
        Seq::empty()
    } else {
        enc_args_prefix(args, t, k - 1) + enc_payload(args[k - 1], t)
    }
}

/// A payload whose coordinates lie in the planar map frame, so every
/// tile-relative value fits the 32-bit wire format.
pub open spec fn payload_valid(p: ArgPayload) -> bool {
    match p {
        ArgPayload::Coord(c) => c.valid(),
        ArgPayload::Coords(v) => all_valid(v@),
        ArgPayload::Normal { x, y } => -2_000_000_000 <= x <= 2_000_000_000 && -2_000_000_000 <= y
            <= 2_000_000_000,
        ArgPayload::Texture(tx) => tx.wf(),
        ArgPayload::Subdivision(d) => d.wf(),
        _ => true,
    }
}

/// A payload bound from a valid instruction is itself valid.
proof fn lemma_payload_valid(p: ArgPayload, i: SdfInstruction, k: int)
    requires
        payload_matches_instr(p, i, k),
        i.payload_ok(),
    ensures
        payload_valid(p),
{
}

/// Index `k` of the flat slot list is slot `j` of instruction `i`.
spec fn slot_origin_ok(prog: Seq<SdfInstruction>, i: int, j: int, k: int, n: int) -> bool {
    0 <= i < n && 0 <= j < prog[i].slot_count() && slots_before(prog, i) + j == k
}

/// Every flat slot index originates in exactly one instruction.
proof fn lemma_slot_origin(prog: Seq<SdfInstruction>, n: int, k: int)
    requires
        0 <= n,
        0 <= k < slots_before(prog, n),
    ensures
        exists|i: int, j: int| #[trigger] slot_origin_ok(prog, i, j, k, n),
    decreases n,
{
    if n > 0 {
        if k < slots_before(prog, n - 1) {
            lemma_slot_origin(prog, n - 1, k);
            let (i, j): (int, int) = choose|i: int, j: int|
                #[trigger] slot_origin_ok(prog, i, j, k, n - 1);
            assert(slot_origin_ok(prog, i, j, k, n));
        } else {
            lemma_slots_before_mono(prog, 0, n - 1);
            assert(slot_origin_ok(prog, n - 1, k - slots_before(prog, n - 1), k, n));
        }
    }
}

/// A bound program: the shared compiled routine, the slot payloads in slot
/// order, and a process-unique compilation id.
pub struct CompiledShape {
    compilation_id: u64,
    shader: Arc<ShapeShader>,
    arguments: Vec<ArgPayload>,
    source: Ghost<Seq<SdfInstruction>>,
}

/// Relies on `rand::random` for a process-unique compilation id; nothing is
/// promised of the value.
#[verifier::external_body]
fn random_id() -> u64 {
    rand::random()
}

impl CompiledShape {
    /// The instruction list this bound program was built from.
    pub closed spec fn source(self) -> Seq<SdfInstruction> {
        self.source@
    }

    /// The register whose field the program evaluates.
    pub closed spec fn result_reg(self) -> u32 {
        self.shader.result_spec()
    }

    /// The structural hash of the underlying routine.
    pub closed spec fn hash_spec(self) -> u64 {
        self.shader.hash_spec()
    }

    /// The bound slot payloads, in slot order.
    pub closed spec fn args_spec(self) -> Seq<ArgPayload> {
        self.arguments@
    }

    /// The routine is compiled from the source program, and every slot it
    /// declares is bound to that instruction's own payload.
    pub closed spec fn wf(self) -> bool {
        &&& crate::instruction::wf_program(self.source@)
        &&& self.shader.compiled_from(self.source@, Register(self.shader.result_spec()))
        &&& self.arguments@.len() == slots_before(self.source@, self.source@.len() as int)
        &&& forall|i: int, k: int|
            0 <= i < self.source@.len() && 0 <= k < self.source@[i].slot_count()
                ==> payload_matches_instr(
                #[trigger] self.arguments@[slots_before(self.source@, i) + k],
                self.source@[i],
                k,
            )
    }

    pub fn id(&self) -> u64 {
        self.compilation_id
    }

    pub fn hash(&self) -> (r: u64)
        ensures
            r == self.hash_spec(),
    {
        self.shader.hash()
    }

    /// The slots the underlying routine requires, in slot order.
    pub fn required_slots(&self) -> (r: &Vec<ShaderSlot>)
        requires
            self.wf(),
        ensures
            r@ == crate::shader::program_slots(self.source()),
    {
        self.shader.required_slots()
    }

    /// Compile a finished instruction list into a routine — reusing any
    /// cached routine of the same structural hash — and bind every declared
    /// slot to the list's own payloads. A malformed list or a result the
    /// list never produces aborts compilation.
    pub fn from_instructions(
        cache: &mut ShaderCache,
        instructions: Vec<SdfInstruction>,
        target: Register,
    ) -> (r: Result<CompiledShape, crate::shader::ShaderCompileError>)
        ensures
            r is Ok <==> crate::instruction::wf_program(instructions@) && target.0
                < instructions@.len(),
            r matches Ok(cs) ==> cs.wf() && cs.source() == instructions@ && cs.result_reg()
                == target.0 && cs.hash_spec() == crate::shader::structural_hash(
                instructions@,
                target,
            ) && final(cache)@.contains_key(cs.hash_spec()),
            r is Err ==> final(cache)@ == old(cache)@,
    {
        let compilation_id = random_id();
        let shader_result = ShapeShader::compile(&instructions, target);
        let shader = match shader_result {
            Ok(sh) => sh,
            Err(e) => {
                return Err(e);
            },
        };
        let ghost prog = instructions@;
        let fresh = Arc::new(shader);
        let h = fresh.hash();
        let shared = cache.get_or_create(h, clone_shader_handle(&fresh));
        let chosen = if shared.structurally_equal(&fresh) {
            proof {
                lemma_eqv_compiled_from(&shared, &fresh, prog, target);
            }
            shared
        } else {
            fresh
        };
        let arguments = extract_arguments(&instructions);
        Ok(
            CompiledShape {
                compilation_id,
                shader: chosen,
                arguments,
                source: Ghost(prog),
            },
        )
    }

    /// Compile a shape's instruction stream into a routine — reusing any
    /// cached routine of the same structural hash — and bind every declared
    /// slot to the instruction list's own payloads. The bound program is
    /// exactly the shape's own emission on a fresh compiler; the compiler
    /// builds the stream itself, so compilation and binding cannot fail.
    pub fn compile<S: Shape>(cache: &mut ShaderCache, shape: &S) -> (r: CompiledShape)
        requires
            shape.instructions_needed() <= MAX_INSTRUCTIONS,
        ensures
            r.wf(),
            r.source() == shape.program_of(0),
            r.result_reg() == shape.result_of(0).0,
            r.hash_spec() == crate::shader::structural_hash(
                shape.program_of(0),
                shape.result_of(0),
            ),
            final(cache)@.contains_key(r.hash_spec()),
    {
        let mut compiler = SdfCompiler::new();
        let target = shape.build_into(&mut compiler);
        let instructions = compiler.finish();
        proof {
            assert(instructions@ =~= shape.program_of(0));
            assert(target == shape.result_of(0));
        }
        let result = CompiledShape::from_instructions(cache, instructions, target);
        match result {
            Ok(cs) => cs,
            Err(_) => unreached(),
        }
    }

    /// Encode every bound payload, in slot order, into one contiguous
    /// per-tile byte buffer, and return where each slot's bytes landed. The
    /// whole buffer must stay addressable by 32-bit offsets; a larger buffer
    /// is refused with the buffer untouched.
    pub fn fill_arguments(&self, buffer: &mut Vec<u8>, tile: &Tile) -> (r: Result<
        Vec<ShaderArgument>,
        ArgumentBufferError,
    >)
        requires
            self.wf(),
            tile.wf(),
        ensures
            r matches Ok(ranges) ==> ({
                &&& final(buffer)@ == old(buffer)@ + enc_args_prefix(
                    self.args_spec(),
                    *tile,
                    self.args_spec().len() as int,
                )
                &&& ranges@.len() == self.args_spec().len()
                &&& forall|k: int|
                    0 <= k < ranges@.len() ==> (#[trigger] ranges@[k]).offset == old(
                        buffer,
                    )@.len() + enc_args_prefix(self.args_spec(), *tile, k).len()
                        && ranges@[k].length == enc_payload(self.args_spec()[k], *tile).len()
            }),
            r is Err ==> *final(buffer) == *old(buffer),
            r is Err <==> old(buffer)@.len() + enc_args_prefix(
                self.args_spec(),
                *tile,
                self.args_spec().len() as int,
            ).len() > u32::MAX,
    {
        let ghost args = self.arguments@;
        let mut tmp: Vec<u8> = Vec::new();
        let mut ranges_raw: Vec<(usize, usize)> = Vec::new();
        let mut k: usize = 0;
        while k < self.arguments.len()
            invariant
                self.wf(),
                tile.wf(),
                args == self.arguments@,
                0 <= k <= args.len(),
                tmp@ == enc_args_prefix(args, *tile, k as int),
                ranges_raw@.len() == k,
                forall|j: int|
                    0 <= j < k ==> (#[trigger] ranges_raw@[j]).0 == enc_args_prefix(
                        args,
                        *tile,
                        j,
                    ).len() && ranges_raw@[j].1 == enc_payload(args[j], *tile).len(),
            decreases args.len() - k,
        {
            proof {
                lemma_args_all_valid(*self, k as int);
            }
            let start = tmp.len();
            encode_payload(&mut tmp, &self.arguments[k], tile);
            let len = tmp.len() - start;
            ranges_raw.push((start, len));
            k = k + 1;
        }
        let base = buffer.len();
        if (base as u128) + (tmp.len() as u128) > 0xFFFF_FFFFu128 {
            return Err(ArgumentBufferError::BufferTooLarge);
        }
        let ghost total = tmp@.len() as int;
        buffer.append(&mut tmp);
        let mut ranges: Vec<ShaderArgument> = Vec::new();
        let mut j: usize = 0;
        while j < ranges_raw.len()
            invariant
                0 <= j <= ranges_raw@.len(),
                ranges_raw@.len() == args.len(),
                base + total <= u32::MAX,
                forall|jj: int|
                    0 <= jj < args.len() ==> (#[trigger] ranges_raw@[jj]).0 == enc_args_prefix(
                        args,
                        *tile,
                        jj,
                    ).len() && ranges_raw@[jj].1 == enc_payload(args[jj], *tile).len(),
                total == enc_args_prefix(args, *tile, args.len() as int).len(),
                ranges@.len() == j,
                forall|jj: int|
                    0 <= jj < j ==> (#[trigger] ranges@[jj]).offset == base + enc_args_prefix(
                        args,
                        *tile,
                        jj,
                    ).len() && ranges@[jj].length == enc_payload(args[jj], *tile).len(),
            decreases ranges_raw@.len() - j,
        {
            let (start, len) = ranges_raw[j];
            proof {
                lemma_enc_prefix_bound(args, *tile, j as int);
            }
            ranges.push(
                ShaderArgument { offset: (base + start) as u32, length: len as u32 },
            );
            j = j + 1;
        }
        Ok(ranges)
    }

    /// Run the compiled routine against the bound payloads at a sample
    /// position: the returned value is exactly the field the source program
    /// denotes at that sample. Evaluation is a pure function of the program,
    /// its bound payloads and the sample.
    #[verifier::rlimit(100)]
    #[verifier::spinoff_prover]
    pub fn evaluate(&self, sample: Position) -> (r: i64)
        requires
            self.wf(),
            sample.valid(),
        ensures
            r == sem(self.source(), self.result_reg() as int, sample),
    {
        let ghost prog = self.source@;
        proof {
            lemma_sem_bounded(prog, prog.len() as int, sample);
            lemma_slots_before_upper(prog, prog.len() as int);
        }
        let n = self.shader.steps.len();
        let nargs = self.arguments.len();
        let mut regs: Vec<i64> = Vec::new();
        let mut cursor: usize = 0;
        let mut i: usize = 0;
        while i < n
            invariant
                self.wf(),
                nargs == self.arguments@.len(),
                sample.valid(),
                prog == self.source@,
                n == prog.len(),
                0 <= i <= n,
                regs@.len() == i,
                forall|j: int| 0 <= j < i ==> #[trigger] regs@[j] == sem(prog, j, sample),
                cursor == slots_before(prog, i as int),
                forall|j: int|
                    0 <= j < prog.len() ==> -VAL_MAX <= #[trigger] sem(prog, j, sample)
                        <= VAL_MAX,
                forall|ii: int|
                    0 <= ii < prog.len() ==> slots_before(prog, ii) + (
                    #[trigger] prog[ii]).slot_count() <= slots_before(prog, prog.len() as int),
            decreases n - i,
        {
            proof {
                lemma_slots_before_mono(prog, 0, i as int);
                assert(self.shader.compiled_from(prog, Register(self.shader.result_spec())));
                assert(crate::shader::step_matches(
                    self.shader.steps_spec()[i as int],
                    prog[i as int],
                ));
                assert(prog[i as int].payload_ok());
                assert(prog[i as int].refs_before(i as int));
            }
            let ghost instr = prog[i as int];
            let step = &self.shader.steps[i];
            let v: i64 = match step {
                EvalStep::Point => {
                    proof {
                        assert(instr matches SdfInstruction::Point { .. });
                        assert(cursor == slots_before(prog, i as int));
                        assert(payload_matches_instr(
                            self.arguments@[slots_before(prog, i as int) + 0],
                            instr,
                            0,
                        ));
                    }
                    let p = coord_arg(&self.arguments, cursor);
                    cursor = cursor + 1;
                    point_distance(sample, p)
                },
                EvalStep::PointCloud => {
                    proof {
                        assert(instr matches SdfInstruction::PointCloud { .. });
                        assert(cursor == slots_before(prog, i as int));
                        assert(payload_matches_instr(
                            self.arguments@[slots_before(prog, i as int) + 0],
                            instr,
                            0,
                        ));
                    }
                    let ps = coords_arg(&self.arguments, cursor);
                    cursor = cursor + 1;
                    min_distance_points(ps, sample)
                },
                EvalStep::Geodesic => {
                    proof {
                        assert(instr matches SdfInstruction::Geodesic { .. });
                        assert(cursor == slots_before(prog, i as int));
                        assert(payload_matches_instr(
                            self.arguments@[slots_before(prog, i as int) + 0],
                            instr,
                            0,
                        ));
                        assert(payload_matches_instr(
                            self.arguments@[slots_before(prog, i as int) + 1],
                            instr,
                            1,
                        ));
                    }
                    let a = coord_arg(&self.arguments, cursor);
                    let b = coord_arg(&self.arguments, cursor + 1);
                    cursor = cursor + 2;
                    segment_distance(sample, a, b)
                },
                EvalStep::GeodesicString => {
                    proof {
                        assert(instr matches SdfInstruction::GeodesicString { .. });
                        assert(cursor == slots_before(prog, i as int));
                        assert(payload_matches_instr(
                            self.arguments@[slots_before(prog, i as int) + 0],
                            instr,
                            0,
                        ));
                    }
                    let ps = coords_arg(&self.arguments, cursor);
                    cursor = cursor + 1;
                    polyline_distance(ps, sample)
                },
                EvalStep::GreatCircle => {
                    proof {
                        assert(instr matches SdfInstruction::GreatCircle { .. });
                        assert(cursor == slots_before(prog, i as int));
                        assert(payload_matches_instr(
                            self.arguments@[slots_before(prog, i as int) + 0],
                            instr,
                            0,
                        ));
                        assert(payload_matches_instr(
                            self.arguments@[slots_before(prog, i as int) + 1],
                            instr,
                            1,
                        ));
                        assert(payload_matches_instr(
                            self.arguments@[slots_before(prog, i as int) + 2],
                            instr,
                            2,
                        ));
                    }
                    let anchor = coord_arg(&self.arguments, cursor);
                    let (nx, ny) = normal_arg(&self.arguments, cursor + 1);
                    let interior = coord_arg(&self.arguments, cursor + 2);
                    cursor = cursor + 3;
                    clamp_value(line_side_distance(sample, anchor, nx, ny, interior))
                },
                EvalStep::Union { shapes } => {
                    let ghost members = (match instr {
                        SdfInstruction::Union { shapes: ms, .. } => ms,
                        _ => arbitrary(),
                    });
                    let mut acc: i64 = VAL_MAX;
                    let mut k: usize = 0;
                    proof {
                        assert(members@.take(0) =~= Seq::<Register>::empty());
                    }
                    while k < shapes.len()
                        invariant
                            0 <= k <= shapes@.len(),
                            shapes@ == members@.map_values(|rg: Register| rg.0),
                            forall|j: int|
                                0 <= j < members@.len() ==> (#[trigger] members@[j]).0 < i,
                            regs@.len() == i,
                            i <= prog.len(),
                            forall|j: int|
                                0 <= j < i ==> #[trigger] regs@[j] == sem(prog, j, sample),
                            acc == sem_list_min(prog, members@.take(k as int), i as int, sample),
                        decreases shapes@.len() - k,
                    {
                        let rix = shapes[k] as usize;
                        proof {
                            assert(shapes@[k as int] == members@[k as int].0);
                        }
                        let d = regs[rix];
                        proof {
                            assert(d == sem(prog, rix as int, sample));
                            assert(sem_reg(prog, members@[k as int], i as int, sample) == d);
                            assert(members@.take(k + 1).drop_last() =~= members@.take(k as int));
                            assert(members@.take(k + 1).last() == members@[k as int]);
                        }
                        if d < acc {
                            acc = d;
                        }
                        k = k + 1;
                    }
                    proof {
                        assert(members@.take(members@.len() as int) =~= members@);
                    }
                    acc
                },
                EvalStep::Intersection { left, right } => {
                    proof {
                        assert(instr matches SdfInstruction::Intersection { .. });
                        assert((*left as int) < i && (*right as int) < i);
                    }
                    let l = regs[*left as usize];
                    let r = regs[*right as usize];
                    if l > r {
                        l
                    } else {
                        r
                    }
                },
                EvalStep::Subtract { left, right } => {
                    proof {
                        assert(instr matches SdfInstruction::Subtract { .. });
                        assert((*left as int) < i && (*right as int) < i);
                    }
                    let l = regs[*left as usize];
                    let r = -regs[*right as usize];
                    if l > r {
                        l
                    } else {
                        r
                    }
                },
                EvalStep::Invert { input } => {
                    proof {
                        assert(instr matches SdfInstruction::Invert { .. });
                        assert((*input as int) < i);
                    }
                    -regs[*input as usize]
                },
                EvalStep::Dilate { input } => {
                    proof {
                        assert(instr matches SdfInstruction::Dilate { .. });
                        assert(cursor == slots_before(prog, i as int));
                        assert(payload_matches_instr(
                            self.arguments@[slots_before(prog, i as int) + 0],
                            instr,
                            0,
                        ));
                        assert((*input as int) < i);
                    }
                    let amount = radius_arg(&self.arguments, cursor);
                    cursor = cursor + 1;
                    clamp_value(regs[*input as usize] - amount.0 as i64)
                },
                EvalStep::Edge { input } => {
                    proof {
                        assert(instr matches SdfInstruction::Edge { .. });
                        assert((*input as int) < i);
                    }
                    let w = regs[*input as usize];
                    if w < 0 {
                        -w
                    } else {
                        w
                    }
                },
                EvalStep::Boundary { inside, outside } => {
                    proof {
                        assert(instr matches SdfInstruction::Boundary { .. });
                        assert(cursor == slots_before(prog, i as int));
                        assert(payload_matches_instr(
                            self.arguments@[slots_before(prog, i as int) + 0],
                            instr,
                            0,
                        ));
                        assert((*inside as int) < i && (*outside as int) < i);
                    }
                    let policy = tag_arg(&self.arguments, cursor);
                    cursor = cursor + 1;
                    boundary_resolve(regs[*inside as usize], regs[*outside as usize], policy)
                },
                EvalStep::Contour => {
                    proof {
                        assert(instr matches SdfInstruction::Contour { .. });
                        assert(cursor == slots_before(prog, i as int));
                        assert(payload_matches_instr(
                            self.arguments@[slots_before(prog, i as int) + 0],
                            instr,
                            0,
                        ));
                        assert(payload_matches_instr(
                            self.arguments@[slots_before(prog, i as int) + 1],
                            instr,
                            1,
                        ));
                    }
                    let zero = threshold_arg(&self.arguments, cursor);
                    let tex = texture_arg(&self.arguments, cursor + 1);
                    cursor = cursor + 2;
                    proof {
                        if let SdfInstruction::Contour { texture, .. } = instr {
                            assert(texture_sample(*tex, sample) == texture_sample(
                                texture,
                                sample,
                            ));
                        }
                    }
                    clamp_value((texture_sample_at(tex, sample) as i64) - (zero.0 as i64))
                },
                EvalStep::LoadVdg => {
                    proof {
                        assert(instr matches SdfInstruction::LoadVdg { .. });
                        assert(cursor == slots_before(prog, i as int));
                        assert(payload_matches_instr(
                            self.arguments@[slots_before(prog, i as int) + 0],
                            instr,
                            0,
                        ));
                    }
                    let d = subdivision_arg(&self.arguments, cursor);
                    cursor = cursor + 1;
                    let din = site_distance(d, true, sample);
                    let dout = site_distance(d, false, sample);
                    proof {
                        if let SdfInstruction::LoadVdg { diagram, .. } = instr {
                            assert(site_dist_cm(d.sites@, true, sample) == site_dist_cm(
                                diagram.sites@,
                                true,
                                sample,
                            ));
                            assert(site_dist_cm(d.sites@, false, sample) == site_dist_cm(
                                diagram.sites@,
                                false,
                                sample,
                            ));
                        }
                    }
                    clamp_value(din - dout)
                },
            };
            proof {
                assert(v == sem(prog, i as int, sample));
                assert(slots_before(prog, i + 1) == slots_before(prog, i as int)
                    + instr.slot_count());
            }
            regs.push(v);
            i = i + 1;
        }
        let res = self.shader.result;
        proof {
            assert((res as int) < prog.len());
        }
        regs[res as usize]
    }

}

/// A routine structurally identical to a faithful compilation of a program
/// is itself a faithful compilation of it.
proof fn lemma_eqv_compiled_from(
    a: &ShapeShader,
    b: &ShapeShader,
    prog: Seq<SdfInstruction>,
    result: Register,
)
    requires
        b.compiled_from(prog, result),
        a.hash_spec() == b.hash_spec(),
        a.result_spec() == b.result_spec(),
        a.slots_spec() == b.slots_spec(),
        a.steps_spec().len() == b.steps_spec().len(),
        forall|i: int|
            0 <= i < a.steps_spec().len() ==> crate::shader::step_eqv(
                #[trigger] a.steps_spec()[i],
                b.steps_spec()[i],
            ),
    ensures
        a.compiled_from(prog, result),
{
    assert forall|i: int| 0 <= i < prog.len() implies crate::shader::step_matches(
        #[trigger] a.steps_spec()[i],
        prog[i],
    ) by {
        crate::shader::lemma_step_eqv_matches(a.steps_spec()[i], b.steps_spec()[i], prog[i]);
    }
}


/// Saturate a 64-bit field value at the representable range.
fn clamp_value(v: i64) -> (r: i64)
    ensures
        r == clamp_val(v as int),
{
    if v > VAL_MAX {
        VAL_MAX
    } else if v < -VAL_MAX {
        -VAL_MAX
    } else {
        v
    }
}

fn coord_arg(args: &Vec<ArgPayload>, at: usize) -> (p: Position)
    requires
        at < args@.len(),
        args@[at as int] matches ArgPayload::Coord(_),
    ensures
        args@[at as int] == ArgPayload::Coord(p),
{
    match &args[at] {
        ArgPayload::Coord(c) => *c,
        _ => unreached(),
    }
}

fn coords_arg<'a>(args: &'a Vec<ArgPayload>, at: usize) -> (p: &'a Vec<Position>)
    requires
        at < args@.len(),
        args@[at as int] matches ArgPayload::Coords(_),
    ensures
        args@[at as int] matches ArgPayload::Coords(v) && v@ == p@,
{
    match &args[at] {
        ArgPayload::Coords(v) => v,
        _ => unreached(),
    }
}

fn normal_arg(args: &Vec<ArgPayload>, at: usize) -> (p: (i64, i64))
    requires
        at < args@.len(),
        args@[at as int] matches ArgPayload::Normal { .. },
    ensures
        args@[at as int] == (ArgPayload::Normal { x: p.0, y: p.1 }),
{
    match &args[at] {
        ArgPayload::Normal { x, y } => (*x, *y),
        _ => unreached(),
    }
}

fn radius_arg(args: &Vec<ArgPayload>, at: usize) -> (p: Centimeters)
    requires
        at < args@.len(),
        args@[at as int] matches ArgPayload::Radius(_),
    ensures
        args@[at as int] == ArgPayload::Radius(p),
{
    match &args[at] {
        ArgPayload::Radius(c) => *c,
        _ => unreached(),
    }
}

fn threshold_arg(args: &Vec<ArgPayload>, at: usize) -> (p: Centimeters)
    requires
        at < args@.len(),
        args@[at as int] matches ArgPayload::Threshold(_),
    ensures
        args@[at as int] == ArgPayload::Threshold(p),
{
    match &args[at] {
        ArgPayload::Threshold(c) => *c,
        _ => unreached(),
    }
}

fn tag_arg(args: &Vec<ArgPayload>, at: usize) -> (p: BoundaryOverlapResolution)
    requires
        at < args@.len(),
        args@[at as int] matches ArgPayload::Tag(_),
    ensures
        args@[at as int] == ArgPayload::Tag(p),
{
    match &args[at] {
        ArgPayload::Tag(t) => *t,
        _ => unreached(),
    }
}

fn texture_arg<'a>(args: &'a Vec<ArgPayload>, at: usize) -> (p: &'a ContourTexture)
    requires
        at < args@.len(),
        args@[at as int] matches ArgPayload::Texture(_),
    ensures
        args@[at as int] matches ArgPayload::Texture(t) && texture_eqv(t, *p) && texture_eqv(
            *p,
            t,
        ),
{
    match &args[at] {
        ArgPayload::Texture(t) => t,
        _ => unreached(),
    }
}

fn subdivision_arg<'a>(args: &'a Vec<ArgPayload>, at: usize) -> (p: &'a Vdg)
    requires
        at < args@.len(),
        args@[at as int] matches ArgPayload::Subdivision(_),
    ensures
        args@[at as int] matches ArgPayload::Subdivision(d) && d.sites@ == p.sites@,
{
    match &args[at] {
        ArgPayload::Subdivision(d) => d,
        _ => unreached(),
    }
}

/// Minimum member distance of a point cloud, executable form.
fn min_distance_points(ps: &Vec<Position>, s: Position) -> (r: i64)
    requires
        all_valid(ps@),
        s.valid(),
    ensures
        r == min_dist_cm(ps@, s),
{
    let mut acc: i64 = VAL_MAX;
    let mut k: usize = 0;
    proof {
        assert(ps@.take(0) =~= Seq::<Position>::empty());
    }
    while k < ps.len()
        invariant
            0 <= k <= ps@.len(),
            all_valid(ps@),
            s.valid(),
            acc == min_dist_cm(ps@.take(k as int), s),
        decreases ps@.len() - k,
    {
        let d = point_distance(s, ps[k]);
        proof {
            assert(ps@.take(k + 1).drop_last() =~= ps@.take(k as int));
            assert(ps@.take(k + 1).last() == ps@[k as int]);
        }
        if d < acc {
            acc = d;
        }
        k = k + 1;
    }
    proof {
        assert(ps@.take(ps@.len() as int) =~= ps@);
    }
    acc
}

/// Minimum distance to a polyline, executable form.
fn polyline_distance(ps: &Vec<Position>, s: Position) -> (r: i64)
    requires
        all_valid(ps@),
        s.valid(),
    ensures
        r == polyline_dist_cm(ps@, s),
{
    if ps.len() == 0 {
        return VAL_MAX;
    }
    let mut acc: i64 = point_distance(s, ps[0]);
    proof {
        assert(ps@.take(1).len() == 1);
        assert(ps@.take(1)[0] == ps@[0]);
    }
    let mut k: usize = 1;
    while k < ps.len()
        invariant
            1 <= k <= ps@.len(),
            all_valid(ps@),
            s.valid(),
            acc == polyline_dist_cm(ps@.take(k as int), s),
        decreases ps@.len() - k,
    {
        let d = segment_distance(s, ps[k - 1], ps[k]);
        proof {
            assert(ps@.take(k + 1).drop_last() =~= ps@.take(k as int));
            assert(ps@.take(k + 1).last() == ps@[k as int]);
            assert(ps@.take(k + 1)[k - 1] == ps@[k - 1]);
        }
        if d < acc {
            acc = d;
        }
        k = k + 1;
    }
    proof {
        assert(ps@.take(ps@.len() as int) =~= ps@);
    }
    acc
}

/// Minimum distance to the subdivision sites on one side, executable form.
fn site_distance(d: &Vdg, inside: bool, s: Position) -> (r: i64)
    requires
        d.wf(),
        s.valid(),
    ensures
        r == site_dist_cm(d.sites@, inside, s),
        0 <= r <= VAL_MAX,
{
    let mut acc: i64 = VAL_MAX;
    let mut k: usize = 0;
    proof {
        assert(d.sites@.take(0) =~= Seq::<crate::instruction::VdgSite>::empty());
    }
    while k < d.sites.len()
        invariant
            0 <= k <= d.sites@.len(),
            d.wf(),
            s.valid(),
            0 <= acc <= VAL_MAX,
            acc == site_dist_cm(d.sites@.take(k as int), inside, s),
        decreases d.sites@.len() - k,
    {
        proof {
            assert(d.sites@.take(k + 1).drop_last() =~= d.sites@.take(k as int));
            assert(d.sites@.take(k + 1).last() == d.sites@[k as int]);
        }
        let site = d.sites[k];
        if site.inside == inside {
            let dist = point_distance(s, site.position);
            if dist < acc {
                acc = dist;
            }
        }
        k = k + 1;
    }
    proof {
        assert(d.sites@.take(d.sites@.len() as int) =~= d.sites@);
    }
    acc
}

/// Nearest-cell texture lookup, executable form.
fn texture_sample_at(t: &ContourTexture, s: Position) -> (r: i32)
    requires
        t.wf(),
        s.valid(),
    ensures
        r as int == texture_sample(*t, s),
{
    let ix = cell_of(s.x, t.origin.x, t.cell_cm, t.width);
    let iy = cell_of(s.y, t.origin.y, t.cell_cm, t.height);
    proof {
        assert((iy as int) * (t.width as int) + (ix as int) < (t.width as int) * (
        t.height as int) && 0 <= (iy as int) * (t.width as int) + (ix as int)) by (
        nonlinear_arith)
            requires
                0 <= ix < t.width,
                0 <= iy < t.height,
                1 <= t.width,
                1 <= t.height,
        ;
        assert((t.width as int) * (t.height as int) == t.values@.len());
    }
    let total: usize = t.values.len();
    proof {
        assert((iy as int) * (t.width as int) + (ix as int) < total);
    }
    let idx: usize = (iy as usize) * (t.width as usize) + (ix as usize);
    t.values[idx]
}

/// Clamped nearest-cell index on one axis.
fn cell_of(coord: i64, origin: i64, cell: u32, size: u32) -> (r: u32)
    requires
        -2_000_000_000 <= coord - origin <= 2_000_000_000,
        1 <= cell,
        1 <= size,
    ensures
        r as int == crate::sem::cell_index(coord - origin, cell as int, size as int),
        r < size,
{
    let delta = coord - origin;
    if delta <= 0 {
        0
    } else {
        let q = delta / (cell as i64);
        if q >= size as i64 {
            size - 1
        } else {
            q as u32
        }
    }
}

/// Resolve a boundary instruction's field from its two candidates.
fn boundary_resolve(din: i64, dout: i64, policy: BoundaryOverlapResolution) -> (r: i64)
    requires
        -VAL_MAX <= din <= VAL_MAX,
        -VAL_MAX <= dout <= VAL_MAX,
    ensures
        r == boundary_value(din as int, dout as int, policy),
{
    if din <= 0 && dout <= 0 {
        match policy {
            BoundaryOverlapResolution::Inside => din,
            BoundaryOverlapResolution::Outside => clamp_value(1 - dout),
            BoundaryOverlapResolution::Midpoint => clamp_value(din - dout),
        }
    } else {
        clamp_value(din - dout)
    }
}



/// A value that can serialize itself into a tile-relative byte range of an
/// argument buffer, returning where its bytes landed.
pub trait IntoShaderArgument {
    /// The bytes this value encodes to, relative to a tile frame.
    spec fn encoding(&self, tile: Tile) -> Seq<u8>;

    /// The value is within the planar map frame.
    spec fn arg_valid(&self) -> bool;

    fn into_shader_argument(&self, buffer: &mut Vec<u8>, tile: &Tile) -> (r: Vec<ShaderArgument>)
        requires
            self.arg_valid(),
            tile.wf(),
            old(buffer)@.len() + self.encoding(*tile).len() <= u32::MAX,
        ensures
            final(buffer)@ == old(buffer)@ + self.encoding(*tile),
            forall|k: int|
                0 <= k < r@.len() ==> old(buffer)@.len() <= (#[trigger] r@[k]).offset
                    && r@[k].offset + r@[k].length <= final(buffer)@.len();
}

impl Position {
    /// Serialize this coordinate into the buffer: exactly one eight-byte
    /// range holding the tile-relative wire encoding.
    pub fn encode_argument(&self, buffer: &mut Vec<u8>, tile: &Tile) -> (r: Vec<ShaderArgument>)
        requires
            self.valid(),
            tile.wf(),
            old(buffer)@.len() + 8 <= u32::MAX,
        ensures
            final(buffer)@ == old(buffer)@ + enc_coord(*self, *tile),
            r@ == seq![
                (ShaderArgument { offset: old(buffer)@.len() as u32, length: 8 }),
            ],
    {
        let offset = buffer.len();
        push_coord(buffer, *self, tile);
        let mut out: Vec<ShaderArgument> = Vec::new();
        out.push(ShaderArgument { offset: offset as u32, length: 8 });
        proof {
            assert(out@ =~= seq![
                (ShaderArgument { offset: old(buffer)@.len() as u32, length: 8 }),
            ]);
        }
        out
    }
}

impl IntoShaderArgument for Position {
    open spec fn encoding(&self, tile: Tile) -> Seq<u8> {
        enc_coord(*self, tile)
    }

    open spec fn arg_valid(&self) -> bool {
        self.valid()
    }

    fn into_shader_argument(&self, buffer: &mut Vec<u8>, tile: &Tile) -> (r: Vec<ShaderArgument>) {
        self.encode_argument(buffer, tile)
    }
}


/// The 32-bit value of four little-endian bytes.
pub open spec fn dec_u32(b: Seq<u8>) -> u32 {
    (b[0] as u32) | ((b[1] as u32) << 8) | ((b[2] as u32) << 16) | ((b[3] as u32) << 24)
}

/// Decoding undoes encoding, byte for byte.
pub proof fn lemma_enc_dec_u32(v: u32)
    ensures
        dec_u32(enc_u32(v)) == v,
{
    assert(((v & 0xff) as u8 as u32) | (((v >> 8) & 0xff) as u8 as u32) << 8 | (((v >> 16)
        & 0xff) as u8 as u32) << 16 | (((v >> 24) & 0xff) as u8 as u32) << 24 == v)
        by (bit_vector);
    assert(enc_u32(v)[0] == (v & 0xff) as u8);
    assert(enc_u32(v)[1] == ((v >> 8) & 0xff) as u8);
    assert(enc_u32(v)[2] == ((v >> 16) & 0xff) as u8);
    assert(enc_u32(v)[3] == ((v >> 24) & 0xff) as u8);
}

/// The coordinate held by eight wire bytes, relative to a tile frame.
pub open spec fn dec_coord(b: Seq<u8>, t: Tile) -> Position {
    Position {
        x: (t.x0 + (dec_u32(b.take(4)) as i32) as i64) as i64,
        y: (t.y0 + (dec_u32(b.skip(4)) as i32) as i64) as i64,
    }
}

/// Round trip: a coordinate encoded into a tile's frame decodes to itself.
pub proof fn lemma_coord_round_trip(p: Position, t: Tile)
    requires
        p.valid(),
        t.wf(),
    ensures
        dec_coord(enc_coord(p, t), t) == p,
{
    let dx = (p.x - t.x0) as i32;
    let dy = (p.y - t.y0) as i32;
    lemma_enc_dec_u32(dx as u32);
    lemma_enc_dec_u32(dy as u32);
    assert(enc_coord(p, t).take(4) =~= enc_u32(dx as u32));
    assert(enc_coord(p, t).skip(4) =~= enc_u32(dy as u32));
    assert((dx as u32) as i32 == dx) by (bit_vector);
    assert((dy as u32) as i32 == dy) by (bit_vector);
}

/// Read one tile-relative coordinate back out of an argument buffer.
pub fn read_coord(buffer: &Vec<u8>, offset: usize, tile: &Tile) -> (p: Position)
    requires
        offset + 8 <= buffer@.len(),
        tile.wf(),
    ensures
        p == dec_coord(buffer@.subrange(offset as int, offset + 8), *tile),
{
    let n = buffer.len();
    let x0 = buffer[offset] as u32;
    let x1 = buffer[offset + 1] as u32;
    let x2 = buffer[offset + 2] as u32;
    let x3 = buffer[offset + 3] as u32;
    let y0 = buffer[offset + 4] as u32;
    let y1 = buffer[offset + 5] as u32;
    let y2 = buffer[offset + 6] as u32;
    let y3 = buffer[offset + 7] as u32;
    let ux: u32 = x0 | (x1 << 8) | (x2 << 16) | (x3 << 24);
    let uy: u32 = y0 | (y1 << 8) | (y2 << 16) | (y3 << 24);
    proof {
        lemma_shift_bound(x1, x2, x3);
        lemma_shift_bound(y1, y2, y3);
        let b = buffer@.subrange(offset as int, offset + 8);
        assert(b.take(4)[0] == buffer@[offset as int]);
        assert(b.take(4)[1] == buffer@[offset + 1]);
        assert(b.take(4)[2] == buffer@[offset + 2]);
        assert(b.take(4)[3] == buffer@[offset + 3]);
        assert(b.skip(4)[0] == buffer@[offset + 4]);
        assert(b.skip(4)[1] == buffer@[offset + 5]);
        assert(b.skip(4)[2] == buffer@[offset + 6]);
        assert(b.skip(4)[3] == buffer@[offset + 7]);
    }
    let ix = #[verifier::truncate] (ux as i32);
    let iy = #[verifier::truncate] (uy as i32);
    Position { x: tile.x0 + ix as i64, y: tile.y0 + iy as i64 }
}

/// Shifting a byte never overflows a 32-bit lane.
proof fn lemma_shift_bound(a: u32, b: u32, c: u32)
    requires
        a < 256,
        b < 256,
        c < 256,
    ensures
        a << 8 < 0x1_0000u32,
        b << 16 < 0x100_0000u32,
        c << 24 <= 0xFF00_0000u32,
{
    assert(a < 256 ==> a << 8 < 0x1_0000u32) by (bit_vector);
    assert(b < 256 ==> b << 16 < 0x100_0000u32) by (bit_vector);
    assert(c < 256 ==> c << 24 <= 0xFF00_0000u32) by (bit_vector);
}

/// The buffer would outgrow 32-bit offsets.
#[derive(Clone, Copy, Debug, PartialEq, Eq, Structural)]
pub enum ArgumentBufferError {
    BufferTooLarge,
}

/// Every bound payload of a well-formed program is valid.
proof fn lemma_args_all_valid(cs: CompiledShape, k: int)
    requires
        cs.wf(),
        0 <= k < cs.args_spec().len(),
    ensures
        payload_valid(cs.args_spec()[k]),
{
    let prog = cs.source();
    lemma_slot_origin(prog, prog.len() as int, k);
    let (i, j): (int, int) = choose|i: int, j: int|
        #[trigger] slot_origin_ok(prog, i, j, k, prog.len() as int);
    assert(payload_matches_instr(cs.args_spec()[slots_before(prog, i) + j], prog[i], j));
    lemma_payload_valid(cs.args_spec()[k], prog[i], j);
}

/// A prefix of the encoding plus its next payload is the next prefix, so
/// prefix lengths are monotone and bounded by the total.
proof fn lemma_enc_prefix_bound(args: Seq<ArgPayload>, t: Tile, j: int)
    requires
        0 <= j < args.len(),
    ensures
        enc_args_prefix(args, t, j).len() + enc_payload(args[j], t).len() <= enc_args_prefix(
            args,
            t,
            args.len() as int,
        ).len(),
    decreases args.len(),
{
    lemma_enc_prefix_step(args, t, j + 1, args.len() as int);
}

/// Prefix encodings only grow with their index.
proof fn lemma_enc_prefix_step(args: Seq<ArgPayload>, t: Tile, j: int, n: int)
    requires
        0 <= j <= n,
    ensures
        enc_args_prefix(args, t, j).len() <= enc_args_prefix(args, t, n).len(),
    decreases n,
{
    if j < n {
        lemma_enc_prefix_step(args, t, j, n - 1);
    }
}

proof fn lemma_mask_byte(v: u32)
    ensures
        v & 0xff < 256,
{
    assert(v & 0xff < 256) by (bit_vector);
}

/// Append the little-endian bytes of a 32-bit value.
fn push_u32(buf: &mut Vec<u8>, v: u32)
    ensures
        final(buf)@ == old(buf)@ + enc_u32(v),
{
    proof {
        lemma_mask_byte(v);
        lemma_mask_byte(v >> 8);
        lemma_mask_byte(v >> 16);
        lemma_mask_byte(v >> 24);
    }
    buf.push((v & 0xff) as u8);
    buf.push(((v >> 8) & 0xff) as u8);
    buf.push(((v >> 16) & 0xff) as u8);
    buf.push(((v >> 24) & 0xff) as u8);
    proof {
        assert(buf@ =~= old(buf)@ + enc_u32(v));
    }
}

fn push_i32(buf: &mut Vec<u8>, v: i32)
    ensures
        final(buf)@ == old(buf)@ + enc_i32(v),
{
    push_u32(buf, v as u32);
}

/// Append a tile-relative coordinate.
fn push_coord(buf: &mut Vec<u8>, p: Position, tile: &Tile)
    requires
        p.valid(),
        tile.wf(),
    ensures
        final(buf)@ == old(buf)@ + enc_coord(p, *tile),
{
    let dx = p.x - tile.x0;
    let dy = p.y - tile.y0;
    push_i32(buf, dx as i32);
    push_i32(buf, dy as i32);
    proof {
        assert(buf@ =~= old(buf)@ + enc_coord(p, *tile));
    }
}

/// Append one payload's wire encoding.
fn encode_payload(buf: &mut Vec<u8>, p: &ArgPayload, tile: &Tile)
    requires
        payload_valid(*p),
        tile.wf(),
    ensures
        final(buf)@ == old(buf)@ + enc_payload(*p, *tile),
{
    match p {
        ArgPayload::Coord(c) => {
            push_coord(buf, *c, tile);
        },
        ArgPayload::Coords(v) => {
            let mut k: usize = 0;
            proof {
                assert(v@.take(0) =~= Seq::<Position>::empty());
                assert(buf@ =~= old(buf)@ + enc_coords(v@.take(0), *tile));
            }
            while k < v.len()
                invariant
                    0 <= k <= v@.len(),
                    all_valid(v@),
                    tile.wf(),
                    buf@ == old(buf)@ + enc_coords(v@.take(k as int), *tile),
                decreases v@.len() - k,
            {
                push_coord(buf, v[k], tile);
                proof {
                    assert(v@.take(k + 1).drop_last() =~= v@.take(k as int));
                    assert(v@.take(k + 1).last() == v@[k as int]);
                    assert(buf@ =~= old(buf)@ + enc_coords(v@.take(k + 1), *tile));
                }
                k = k + 1;
            }
            proof {
                assert(v@.take(v@.len() as int) =~= v@);
            }
        },
        ArgPayload::Normal { x, y } => {
            push_i32(buf, *x as i32);
            push_i32(buf, *y as i32);
            proof {
                assert(buf@ =~= old(buf)@ + enc_payload(*p, *tile));
            }
        },
        ArgPayload::Radius(c) => {
            push_i32(buf, c.0);
        },
        ArgPayload::Tag(g) => {
            let tag: u32 = match g {
                BoundaryOverlapResolution::Inside => 1,
                BoundaryOverlapResolution::Outside => 2,
                BoundaryOverlapResolution::Midpoint => 3,
            };
            push_u32(buf, tag);
        },
        ArgPayload::Threshold(c) => {
            push_i32(buf, c.0);
        },
        ArgPayload::Texture(tx) => {
            push_coord(buf, tx.origin, tile);
            push_u32(buf, tx.cell_cm);
            push_u32(buf, tx.width);
            push_u32(buf, tx.height);
            let ghost mid = buf@;
            let mut k: usize = 0;
            proof {
                assert(tx.values@.take(0) =~= Seq::<i32>::empty());
                assert(buf@ =~= mid + enc_values(tx.values@.take(0)));
            }
            while k < tx.values.len()
                invariant
                    0 <= k <= tx.values@.len(),
                    buf@ == mid + enc_values(tx.values@.take(k as int)),
                decreases tx.values@.len() - k,
            {
                push_i32(buf, tx.values[k]);
                proof {
                    assert(tx.values@.take(k + 1).drop_last() =~= tx.values@.take(k as int));
                    assert(tx.values@.take(k + 1).last() == tx.values@[k as int]);
                    assert(buf@ =~= mid + enc_values(tx.values@.take(k + 1)));
                }
                k = k + 1;
            }
            proof {
                assert(tx.values@.take(tx.values@.len() as int) =~= tx.values@);
                assert(buf@ =~= old(buf)@ + enc_payload(*p, *tile));
            }
        },
        ArgPayload::Subdivision(d) => {
            push_u32(buf, d.sites.len() as u32);
            let ghost mid = buf@;
            let mut k: usize = 0;
            proof {
                assert(d.sites@.take(0) =~= Seq::<crate::instruction::VdgSite>::empty());
                assert(buf@ =~= mid + enc_sites(d.sites@.take(0), *tile));
            }
            while k < d.sites.len()
                invariant
                    0 <= k <= d.sites@.len(),
                    d.wf(),
                    tile.wf(),
                    buf@ == mid + enc_sites(d.sites@.take(k as int), *tile),
                decreases d.sites@.len() - k,
            {
                let site = d.sites[k];
                push_coord(buf, site.position, tile);
                push_u32(
                    buf,
                    if site.inside {
                        1
                    } else {
                        0
                    },
                );
                proof {
                    assert(d.sites@.take(k + 1).drop_last() =~= d.sites@.take(k as int));
                    assert(d.sites@.take(k + 1).last() == d.sites@[k as int]);
                    assert(buf@ =~= mid + enc_sites(d.sites@.take(k + 1), *tile));
                }
                k = k + 1;
            }
            proof {
                assert(d.sites@.take(d.sites@.len() as int) =~= d.sites@);
                assert(buf@ =~= old(buf)@ + enc_payload(*p, *tile));
            }
        },
    }
}

/// Walk the instruction list a second time, collecting every constant
/// payload in slot order.
fn extract_arguments(instructions: &Vec<SdfInstruction>) -> (r: Vec<ArgPayload>)
    ensures
        r@.len() == slots_before(instructions@, instructions@.len() as int),
        forall|i: int, k: int|
            0 <= i < instructions@.len() && 0 <= k < instructions@[i].slot_count()
                ==> payload_matches_instr(
                #[trigger] r@[slots_before(instructions@, i) + k],
                instructions@[i],
                k,
            ),
{
    let mut out: Vec<ArgPayload> = Vec::new();
    let mut idx: usize = 0;
    while idx < instructions.len()
        invariant
            0 <= idx <= instructions@.len(),
            out@.len() == slots_before(instructions@, idx as int),
            forall|i: int, k: int|
                0 <= i < idx && 0 <= k < instructions@[i].slot_count() ==> payload_matches_instr(
                    #[trigger] out@[slots_before(instructions@, i) + k],
                    instructions@[i],
                    k,
                ),
        decreases instructions@.len() - idx,
    {
        let ghost base = out@.len() as int;
        let ghost out0 = out@;
        proof {
            lemma_slots_before_mono(instructions@, 0, idx as int);
        }
        push_payloads(&mut out, &instructions[idx]);
        proof {
            lemma_slots_before_upper(instructions@, idx as int);
            assert(slots_before(instructions@, idx + 1) == slots_before(instructions@, idx as int)
                + instructions@[idx as int].slot_count());
            assert forall|i: int, k: int|
                0 <= i < idx + 1 && 0 <= k < instructions@[i].slot_count()
                    implies payload_matches_instr(
                #[trigger] out@[slots_before(instructions@, i) + k],
                instructions@[i],
                k,
            ) by {
                if i < idx {
                    lemma_slots_before_mono(instructions@, 0, i);
                    assert(slots_before(instructions@, i) + instructions@[i].slot_count()
                        <= base);
                    assert(payload_matches_instr(
                        out0[slots_before(instructions@, i) + k],
                        instructions@[i],
                        k,
                    ));
                    assert(out@[slots_before(instructions@, i) + k] == out0[slots_before(
                        instructions@,
                        i,
                    ) + k]);
                }
            }
        }
        idx = idx + 1;
    }
    out
}

/// Append the constant payloads of one instruction, in slot-key order.
fn push_payloads(out: &mut Vec<ArgPayload>, instr: &SdfInstruction)
    ensures
        final(out)@.len() == old(out)@.len() + instr.slot_count(),
        forall|j: int| 0 <= j < old(out)@.len() ==> #[trigger] final(out)@[j] == old(out)@[j],
        forall|k: int|
            0 <= k < instr.slot_count() ==> payload_matches_instr(
                #[trigger] final(out)@[old(out)@.len() + k],
                *instr,
                k,
            ),
{
    match instr {
        SdfInstruction::Point { position, .. } => {
            out.push(ArgPayload::Coord(*position));
        },
        SdfInstruction::PointCloud { points, .. } => {
            out.push(ArgPayload::Coords(copy_positions(points)));
        },
        SdfInstruction::Geodesic { start, end, .. } => {
            out.push(ArgPayload::Coord(*start));
            out.push(ArgPayload::Coord(*end));
        },
        SdfInstruction::GeodesicString { points, .. } => {
            out.push(ArgPayload::Coords(copy_positions(points)));
        },
        SdfInstruction::GreatCircle { point, normal_x, normal_y, interior_point, .. } => {
            out.push(ArgPayload::Coord(*point));
            out.push(ArgPayload::Normal { x: *normal_x, y: *normal_y });
            out.push(ArgPayload::Coord(*interior_point));
        },
        SdfInstruction::Union { .. } => {},
        SdfInstruction::Intersection { .. } => {},
        SdfInstruction::Subtract { .. } => {},
        SdfInstruction::Invert { .. } => {},
        SdfInstruction::Dilate { amount, .. } => {
            out.push(ArgPayload::Radius(*amount));
        },
        SdfInstruction::Edge { .. } => {},
        SdfInstruction::Boundary { overlap_resolution, .. } => {
            out.push(ArgPayload::Tag(*overlap_resolution));
        },
        SdfInstruction::Contour { texture, zero_value, .. } => {
            out.push(ArgPayload::Threshold(*zero_value));
            out.push(ArgPayload::Texture(copy_texture(texture)));
        },
        SdfInstruction::LoadVdg { diagram, .. } => {
            out.push(ArgPayload::Subdivision(copy_vdg(diagram)));
        },
    }
}

/// Slots of instructions before `i` all index below the prefix total.
proof fn lemma_slots_before_upper(prog: Seq<SdfInstruction>, n: int)
    requires
        0 <= n,
    ensures
        forall|i: int|
            0 <= i < n ==> slots_before(prog, i) + (#[trigger] prog[i]).slot_count()
                <= slots_before(prog, n),
    decreases n,
{
    if n > 0 {
        lemma_slots_before_upper(prog, n - 1);
        lemma_slots_before_mono(prog, 0, n - 1);
    }
}

fn copy_positions(ps: &Vec<Position>) -> (r: Vec<Position>)
    ensures
        r@ == ps@,
{
    let mut out: Vec<Position> = Vec::new();
    let mut k: usize = 0;
    while k < ps.len()
        invariant
            0 <= k <= ps@.len(),
            out@ == ps@.take(k as int),
        decreases ps@.len() - k,
    {
        out.push(ps[k]);
        proof {
            assert(out@ =~= ps@.take(k + 1));
        }
        k = k + 1;
    }
    proof {
        assert(out@ =~= ps@);
    }
    out
}

fn copy_values(vs: &Vec<i32>) -> (r: Vec<i32>)
    ensures
        r@ == vs@,
{
    let mut out: Vec<i32> = Vec::new();
    let mut k: usize = 0;
    while k < vs.len()
        invariant
            0 <= k <= vs@.len(),
            out@ == vs@.take(k as int),
        decreases vs@.len() - k,
    {
        out.push(vs[k]);
        proof {
            assert(out@ =~= vs@.take(k + 1));
        }
        k = k + 1;
    }
    proof {
        assert(out@ =~= vs@);
    }
    out
}

fn copy_texture(t: &ContourTexture) -> (r: ContourTexture)
    ensures
        texture_eqv(r, *t),
{
    ContourTexture {
        origin: t.origin,
        cell_cm: t.cell_cm,
        width: t.width,
        height: t.height,
        values: copy_values(&t.values),
    }
}

fn copy_vdg(d: &Vdg) -> (r: Vdg)
    ensures
        r.sites@ == d.sites@,
{
    let mut out: Vec<crate::instruction::VdgSite> = Vec::new();
    let mut k: usize = 0;
    while k < d.sites.len()
        invariant
            0 <= k <= d.sites@.len(),
            out@ == d.sites@.take(k as int),
        decreases d.sites@.len() - k,
    {
        out.push(d.sites[k]);
        proof {
            assert(out@ =~= d.sites@.take(k + 1));
        }
        k = k + 1;
    }
    proof {
        assert(out@ =~= d.sites@);
    }
    Vdg { sites: out }
}

} // verus!
