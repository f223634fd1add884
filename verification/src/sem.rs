//! The meaning of a region-algebra program: the signed distance, in
//! centimeters, that each register denotes at a sample position. A value at or
//! below zero means inside, above zero means outside. Combinators saturate at
//! `VAL_MAX` so that nested fields stay within machine integers; no geometric
//! leaf can reach the saturation bound.

use vstd::prelude::*;

use crate::instruction::{
    BoundaryOverlapResolution, ContourTexture, Register, SdfInstruction, Vdg, VdgSite,
};
use crate::math::{dist_cm, line_side_cm, seg_dist_cm, sqrt_floor, lemma_sqrt_floor_bracket};
use crate::types::{Position, VAL_MAX};

verus! {

/// Saturate a field value at the representable range.
pub open spec fn clamp_val(v: int) -> int {
    if v > VAL_MAX {
        VAL_MAX as int
    } else if v < -VAL_MAX {
        -VAL_MAX as int
    } else {
        v
    }
}

/// Minimum distance to any member of the list; an empty list is outside
/// everywhere.
pub open spec fn min_dist_cm(points: Seq<Position>, s: Position) -> int
    decreases points.len(),
{
    if points.len() == 0 {
        VAL_MAX as int
    } else {
        let rest = min_dist_cm(points.drop_last(), s);
        let d = dist_cm(s, points.last());
        if d < rest {
            d
        } else {
            rest
        }
    }
}

/// Minimum distance to the polyline connecting the points in order; a single
/// point is the distance to that point, and no points at all is outside
/// everywhere.
pub open spec fn polyline_dist_cm(points: Seq<Position>, s: Position) -> int
    decreases points.len(),
{
    if points.len() == 0 {
        VAL_MAX as int
    } else if points.len() == 1 {
        dist_cm(s, points[0])
    } else {
        let rest = polyline_dist_cm(points.drop_last(), s);
        let d = seg_dist_cm(s, points[points.len() - 2], points.last());
        if d < rest {
            d
        } else {
            rest
        }
    }
}

/// Minimum distance to the subdivision sites on the given side; no such site
/// is outside everywhere.
pub open spec fn site_dist_cm(sites: Seq<VdgSite>, inside: bool, s: Position) -> int
    decreases sites.len(),
{
    if sites.len() == 0 {
        VAL_MAX as int
    } else {
        let rest = site_dist_cm(sites.drop_last(), inside, s);
        if sites.last().inside == inside {
            let d = dist_cm(s, sites.last().position);
            if d < rest {
                d
            } else {
                rest
            }
        } else {
            rest
        }
    }
}

/// The signed field of a planar subdivision: distance to the nearest interior
/// site minus distance to the nearest exterior site.
pub open spec fn vdg_value(d: Vdg, s: Position) -> int {
    clamp_val(site_dist_cm(d.sites@, true, s) - site_dist_cm(d.sites@, false, s))
}

/// Nearest-cell index on one texture axis, clamped to the grid.
pub open spec fn cell_index(delta: int, cell: int, size: int) -> int {
    if delta <= 0 {
        0
    } else if delta / cell >= size {
        size - 1
    } else {
        delta / cell
    }
}

/// Nearest-cell texture lookup.
pub open spec fn texture_sample(t: ContourTexture, s: Position) -> int {
    let ix = cell_index(s.x - t.origin.x, t.cell_cm as int, t.width as int);
    let iy = cell_index(s.y - t.origin.y, t.cell_cm as int, t.height as int);
    t.values@[iy * t.width + ix] as int
}

/// Which of two candidate regions a sample belongs to. Where only one (or
/// neither) candidate is satisfied the field is the perpendicular-bisector
/// value `din - dout`; where both are satisfied the policy decides: `Inside`
/// keeps the sample inside, `Outside` pushes it strictly outside, and
/// `Midpoint` stays with the bisector.
pub open spec fn boundary_value(din: int, dout: int, policy: BoundaryOverlapResolution) -> int {
    if din <= 0 && dout <= 0 {
        match policy {
            BoundaryOverlapResolution::Inside => din,
            BoundaryOverlapResolution::Outside => clamp_val(1 - dout),
            BoundaryOverlapResolution::Midpoint => clamp_val(din - dout),
        }
    } else {
        clamp_val(din - dout)
    }
}

/// The field a register denotes, guarded so the definition is total: a read
/// of a register not yet produced denotes zero (well-formed programs never
/// do).
pub open spec fn sem_reg(prog: Seq<SdfInstruction>, r: Register, bound: int, s: Position) -> int
    decreases bound, 1int, 0int,
{
    if 0 <= r.0 < bound && bound <= prog.len() {
        sem(prog, r.0 as int, s)
    } else {
        0
    }
}

/// Pointwise minimum over the registers in the list, each read below `bound`;
/// an empty list is outside everywhere.
pub open spec fn sem_list_min(
    prog: Seq<SdfInstruction>,
    regs: Seq<Register>,
    bound: int,
    s: Position,
) -> int
    decreases bound, 2int, regs.len(),
{
    if regs.len() == 0 {
        VAL_MAX as int
    } else {
        let rest = sem_list_min(prog, regs.drop_last(), bound, s);
        let d = sem_reg(prog, regs.last(), bound, s);
        if d < rest {
            d
        } else {
            rest
        }
    }
}

/// The signed distance the instruction at position `i` produces at sample
/// `s`: the distance semantics of the opcode table.
pub open spec fn sem(prog: Seq<SdfInstruction>, i: int, s: Position) -> int
    decreases i, 3int, 0int,
{
    if 0 <= i < prog.len() {
        match prog[i] {
            SdfInstruction::Point { position, .. } => dist_cm(s, position),
            SdfInstruction::PointCloud { points, .. } => min_dist_cm(points@, s),
            SdfInstruction::Geodesic { start, end, .. } => seg_dist_cm(s, start, end),
            SdfInstruction::GeodesicString { points, .. } => polyline_dist_cm(points@, s),
            SdfInstruction::GreatCircle { point, normal_x, normal_y, interior_point, .. } =>
                clamp_val(
                line_side_cm(s, point, normal_x as int, normal_y as int, interior_point),
            ),
            SdfInstruction::Union { shapes, .. } => sem_list_min(prog, shapes@, i, s),
            SdfInstruction::Intersection { left, right, .. } => {
                let l = sem_reg(prog, left, i, s);
                let r = sem_reg(prog, right, i, s);
                if l > r {
                    l
                } else {
                    r
                }
            },
            SdfInstruction::Subtract { left, right, .. } => {
                let l = sem_reg(prog, left, i, s);
                let r = -sem_reg(prog, right, i, s);
                if l > r {
                    l
                } else {
                    r
                }
            },
            SdfInstruction::Invert { input, .. } => -sem_reg(prog, input, i, s),
            SdfInstruction::Dilate { input, amount, .. } => clamp_val(
                sem_reg(prog, input, i, s) - amount.0,
            ),
            SdfInstruction::Edge { input, .. } => {
                let v = sem_reg(prog, input, i, s);
                if v < 0 {
                    -v
                } else {
                    v
                }
            },
            SdfInstruction::Boundary { inside, outside, overlap_resolution, .. } => boundary_value(
                sem_reg(prog, inside, i, s),
                sem_reg(prog, outside, i, s),
                overlap_resolution,
            ),
            SdfInstruction::Contour { texture, zero_value, .. } => clamp_val(
                texture_sample(texture, s) - zero_value.0,
            ),
            SdfInstruction::LoadVdg { diagram, .. } => vdg_value(diagram, s),
        }
    } else {
        0
    }
}

/// Distances between valid positions stay strictly under the saturation
/// bound.
pub proof fn lemma_dist_cm_bound(p: Position, q: Position)
    requires
        p.valid(),
        q.valid(),
    ensures
        0 <= dist_cm(p, q) < VAL_MAX,
{
    let m = ((p.x - q.x) * (p.x - q.x) + (p.y - q.y) * (p.y - q.y)) as nat;
    assert(m <= 8_000_000_000_000_000_000) by (nonlinear_arith)
        requires
            -2_000_000_000 <= p.x - q.x <= 2_000_000_000,
            -2_000_000_000 <= p.y - q.y <= 2_000_000_000,
            m == ((p.x - q.x) * (p.x - q.x) + (p.y - q.y) * (p.y - q.y)) as nat,
    ;
    lemma_sqrt_floor_bracket(m);
    assert(sqrt_floor(m) < VAL_MAX) by (nonlinear_arith)
        requires
            sqrt_floor(m) * sqrt_floor(m) <= m,
            m <= 8_000_000_000_000_000_000,
            sqrt_floor(m) >= 0,
            VAL_MAX == 1_000_000_000_000_000int,
    ;
}

/// Segment distances between valid positions stay strictly under the
/// saturation bound.
pub proof fn lemma_seg_dist_bound(s: Position, a: Position, b: Position)
    requires
        s.valid(),
        a.valid(),
        b.valid(),
    ensures
        0 <= seg_dist_cm(s, a, b) < VAL_MAX,
{
    let abx = b.x - a.x;
    let aby = b.y - a.y;
    let apx = s.x - a.x;
    let apy = s.y - a.y;
    let td = abx * abx + aby * aby;
    let tn = apx * abx + apy * aby;
    lemma_dist_cm_bound(s, a);
    lemma_dist_cm_bound(s, b);
    if !(td == 0 || tn <= 0) && !(tn >= td) {
        let ap2 = apx * apx + apy * apy;
        let num = ap2 * td - tn * tn;
        let m = if num <= 0 { 0int } else { num / td };
        assert(0 <= ap2 <= 8_000_000_000_000_000_000) by (nonlinear_arith)
            requires
                -2_000_000_000 <= apx <= 2_000_000_000,
                -2_000_000_000 <= apy <= 2_000_000_000,
                ap2 == apx * apx + apy * apy,
        ;
        assert(m <= ap2) by (nonlinear_arith)
            requires
                0 < td,
                num <= ap2 * td,
                m == (if num <= 0 { 0int } else { num / td }),
                0 <= ap2,
        ;
        lemma_sqrt_floor_bracket(m as nat);
        assert(sqrt_floor(m as nat) < VAL_MAX) by (nonlinear_arith)
            requires
                sqrt_floor(m as nat) * sqrt_floor(m as nat) <= m as nat,
                m as nat <= 8_000_000_000_000_000_000,
                sqrt_floor(m as nat) >= 0,
                VAL_MAX == 1_000_000_000_000_000int,
        ;
    }
}

/// Point-cloud minima lie between zero and the saturation bound.
pub proof fn lemma_min_dist_cm_bound(points: Seq<Position>, s: Position)
    requires
        crate::types::all_valid(points),
        s.valid(),
    ensures
        0 <= min_dist_cm(points, s) <= VAL_MAX,
    decreases points.len(),
{
    if points.len() > 0 {
        lemma_min_dist_cm_bound(points.drop_last(), s);
        lemma_dist_cm_bound(s, points.last());
    }
}

/// The point-cloud field really is the minimum over its members: it is a
/// lower bound of every member distance, and some member attains it.
pub proof fn lemma_min_dist_cm_is_min(points: Seq<Position>, s: Position)
    requires
        points.len() > 0,
        crate::types::all_valid(points),
        s.valid(),
    ensures
        forall|k: int| 0 <= k < points.len() ==> min_dist_cm(points, s) <= #[trigger] dist_cm(
            s,
            points[k],
        ),
        exists|k: int| 0 <= k < points.len() && min_dist_cm(points, s) == dist_cm(s, points[k]),
    decreases points.len(),
{
    let d = dist_cm(s, points.last());
    lemma_dist_cm_bound(s, points.last());
    if points.len() == 1 {
        assert(points.drop_last().len() == 0);
        assert(min_dist_cm(points.drop_last(), s) == VAL_MAX);
        assert(points.last() == points[0]);
        assert(min_dist_cm(points, s) == dist_cm(s, points[0]));
    } else {
        assert(crate::types::all_valid(points.drop_last()));
        lemma_min_dist_cm_is_min(points.drop_last(), s);
        let rest = min_dist_cm(points.drop_last(), s);
        assert(forall|k: int|
            0 <= k < points.len() - 1 ==> points.drop_last()[k] == #[trigger] points[k]);
        let kw = choose|k: int|
            0 <= k < points.drop_last().len() && rest == dist_cm(s, points.drop_last()[k]);
        if d < rest {
            assert(min_dist_cm(points, s) == dist_cm(s, points[points.len() - 1]));
        } else {
            assert(min_dist_cm(points, s) == dist_cm(s, points[kw]));
        }
    }
}

/// Polyline distances lie between zero and the saturation bound.
pub proof fn lemma_polyline_dist_cm_bound(points: Seq<Position>, s: Position)
    requires
        crate::types::all_valid(points),
        s.valid(),
    ensures
        0 <= polyline_dist_cm(points, s) <= VAL_MAX,
    decreases points.len(),
{
    if points.len() == 1 {
        lemma_dist_cm_bound(s, points[0]);
    } else if points.len() > 1 {
        assert(crate::types::all_valid(points.drop_last()));
        lemma_polyline_dist_cm_bound(points.drop_last(), s);
        lemma_seg_dist_bound(s, points[points.len() - 2], points.last());
    }
}

/// Site distances lie between zero and the saturation bound.
pub proof fn lemma_site_dist_cm_bound(sites: Seq<VdgSite>, inside: bool, s: Position)
    requires
        forall|i: int| 0 <= i < sites.len() ==> (#[trigger] sites[i]).position.valid(),
        s.valid(),
    ensures
        0 <= site_dist_cm(sites, inside, s) <= VAL_MAX,
    decreases sites.len(),
{
    if sites.len() > 0 {
        lemma_site_dist_cm_bound(sites.drop_last(), inside, s);
        lemma_dist_cm_bound(s, sites.last().position);
    }
}

/// Register-list minima stay in range when every produced register does.
pub proof fn lemma_sem_list_min_bound(
    prog: Seq<SdfInstruction>,
    regs: Seq<Register>,
    bound: int,
    s: Position,
)
    requires
        forall|j: int| 0 <= j < bound ==> -VAL_MAX <= #[trigger] sem(prog, j, s) <= VAL_MAX,
    ensures
        -VAL_MAX <= sem_list_min(prog, regs, bound, s) <= VAL_MAX,
    decreases regs.len(),
{
    if regs.len() == 0 {
        assert(sem_list_min(prog, regs, bound, s) == VAL_MAX);
    } else {
        lemma_sem_list_min_bound(prog, regs.drop_last(), bound, s);
        let r = regs.last();
        if 0 <= r.0 < bound && bound <= prog.len() {
            assert(sem_reg(prog, r, bound, s) == sem(prog, r.0 as int, s));
        } else {
            assert(sem_reg(prog, r, bound, s) == 0);
        }
    }
}

/// A guarded register read stays in range when every produced register
/// does.
proof fn lemma_sem_reg_bound(prog: Seq<SdfInstruction>, r: Register, bound: int, s: Position)
    requires
        forall|j: int| 0 <= j < bound ==> -VAL_MAX <= #[trigger] sem(prog, j, s) <= VAL_MAX,
    ensures
        -VAL_MAX <= sem_reg(prog, r, bound, s) <= VAL_MAX,
{
    if 0 <= r.0 < bound && bound <= prog.len() {
        assert(sem_reg(prog, r, bound, s) == sem(prog, r.0 as int, s));
    } else {
        assert(sem_reg(prog, r, bound, s) == 0);
    }
}

/// Every register of a well-formed program denotes a value within the
/// saturation range: the evaluator can hold fields in 64-bit integers.
pub proof fn lemma_sem_bounded(prog: Seq<SdfInstruction>, n: int, s: Position)
    requires
        crate::instruction::wf_program(prog),
        0 <= n <= prog.len(),
        s.valid(),
    ensures
        forall|j: int| 0 <= j < n ==> -VAL_MAX <= #[trigger] sem(prog, j, s) <= VAL_MAX,
    decreases n,
{
    if n > 0 {
        lemma_sem_bounded(prog, n - 1, s);
        let i = n - 1;
        assert(prog[i].payload_ok());
        match prog[i] {
            SdfInstruction::Point { position, .. } => {
                lemma_dist_cm_bound(s, position);
            },
            SdfInstruction::PointCloud { points, .. } => {
                lemma_min_dist_cm_bound(points@, s);
            },
            SdfInstruction::Geodesic { start, end, .. } => {
                lemma_seg_dist_bound(s, start, end);
            },
            SdfInstruction::GeodesicString { points, .. } => {
                lemma_polyline_dist_cm_bound(points@, s);
            },
            SdfInstruction::Union { shapes, .. } => {
                lemma_sem_list_min_bound(prog, shapes@, i, s);
            },
            SdfInstruction::LoadVdg { diagram, .. } => {
                assert(-VAL_MAX <= vdg_value(diagram, s) <= VAL_MAX);
            },
            SdfInstruction::Intersection { left, right, .. } => {
                lemma_sem_reg_bound(prog, left, i, s);
                lemma_sem_reg_bound(prog, right, i, s);
            },
            SdfInstruction::Subtract { left, right, .. } => {
                lemma_sem_reg_bound(prog, left, i, s);
                lemma_sem_reg_bound(prog, right, i, s);
            },
            SdfInstruction::Invert { input, .. } => {
                lemma_sem_reg_bound(prog, input, i, s);
            },
            SdfInstruction::Dilate { input, .. } => {
                lemma_sem_reg_bound(prog, input, i, s);
            },
            SdfInstruction::Edge { input, .. } => {
                lemma_sem_reg_bound(prog, input, i, s);
            },
            SdfInstruction::Boundary { inside, outside, .. } => {
                lemma_sem_reg_bound(prog, inside, i, s);
                lemma_sem_reg_bound(prog, outside, i, s);
            },
            _ => {},
        }
        assert(-VAL_MAX <= sem(prog, i, s) <= VAL_MAX);
    }
}

} // verus!
