//! Laws of the region algebra, proved once and for all over the program
//! semantics: degenerate leaves are outside everywhere, double negation is
//! identity, union and intersection are pointwise minimum and maximum,
//! dilation shifts and is monotone, edges are non-negative, and the two
//! non-midpoint boundary policies disagree on every ambiguous sample.

use vstd::prelude::*;

use crate::instruction::{BoundaryOverlapResolution, SdfInstruction, wf_program};
use crate::math::dist_cm;
use crate::sem::{
    boundary_value, lemma_min_dist_cm_is_min, lemma_sem_bounded, sem, sem_list_min, sem_reg,
};
use crate::types::{Position, VAL_MAX};

verus! {

/// An empty point cloud evaluates to the outside sentinel at every sample:
/// callers that filter a candidate set down to zero members need no
/// special-case branch.
pub proof fn lemma_point_cloud_empty(prog: Seq<SdfInstruction>, i: int, s: Position)
    requires
        0 <= i < prog.len(),
        prog[i] matches SdfInstruction::PointCloud { points, .. } && points@.len() == 0,
    ensures
        sem(prog, i, s) == VAL_MAX,
        sem(prog, i, s) > 0,
{
}

/// A point cloud evaluates to the minimum distance over its members: it is a
/// lower bound of every member distance and some member attains it.
pub proof fn lemma_point_cloud_min(prog: Seq<SdfInstruction>, i: int, s: Position)
    requires
        wf_program(prog),
        s.valid(),
        0 <= i < prog.len(),
        prog[i] matches SdfInstruction::PointCloud { points, .. } && points@.len() > 0,
    ensures
        prog[i] matches SdfInstruction::PointCloud { points, .. } ==> {
            &&& forall|k: int|
                0 <= k < points@.len() ==> sem(prog, i, s) <= #[trigger] dist_cm(s, points@[k])
            &&& exists|k: int|
                0 <= k < points@.len() && sem(prog, i, s) == dist_cm(s, points@[k])
        },
{
    if let SdfInstruction::PointCloud { points, .. } = prog[i] {
        assert(prog[i].payload_ok());
        lemma_min_dist_cm_is_min(points@, s);
    }
}

/// Double negation is identity: inverting an inverted field evaluates
/// identically to the original field at every sample.
pub proof fn lemma_double_invert(prog: Seq<SdfInstruction>, j: int, s: Position)
    requires
        0 <= j < prog.len(),
        prog[j] matches SdfInstruction::Invert { input: mid, .. } && 0 <= mid.0 < j && (
        prog[mid.0 as int] matches SdfInstruction::Invert { input: src, .. } && src.0 < mid.0),
    ensures
        prog[j] matches SdfInstruction::Invert { input: mid, .. } ==> (prog[mid.0 as int] matches
            SdfInstruction::Invert { input: src, .. } ==> sem(prog, j, s) == sem(
            prog,
            src.0 as int,
            s,
        )),
{
    if let SdfInstruction::Invert { input: mid, .. } = prog[j] {
        if let SdfInstruction::Invert { input: src, .. } = prog[mid.0 as int] {
            assert(sem(prog, j, s) == -sem_reg(prog, mid, j, s));
            assert(sem_reg(prog, mid, j, s) == sem(prog, mid.0 as int, s));
            assert(sem(prog, mid.0 as int, s) == -sem_reg(prog, src, mid.0 as int, s));
        }
    }
}

/// A two-element union evaluates to the pointwise minimum of its operands.
pub proof fn lemma_union_pair(prog: Seq<SdfInstruction>, i: int, s: Position)
    requires
        wf_program(prog),
        s.valid(),
        0 <= i < prog.len(),
        prog[i] matches SdfInstruction::Union { shapes, .. } && shapes@.len() == 2,
    ensures
        prog[i] matches SdfInstruction::Union { shapes, .. } ==> sem(prog, i, s) == (if sem(
            prog,
            shapes@[0].0 as int,
            s,
        ) <= sem(prog, shapes@[1].0 as int, s) {
            sem(prog, shapes@[0].0 as int, s)
        } else {
            sem(prog, shapes@[1].0 as int, s)
        }),
{
    if let SdfInstruction::Union { shapes, .. } = prog[i] {
        assert(prog[i].refs_before(i));
        let a = shapes@[0];
        let b = shapes@[1];
        lemma_sem_bounded(prog, i, s);
        let one = shapes@.drop_last();
        assert(one.len() == 1 && one[0] == a);
        assert(one.drop_last().len() == 0);
        assert(sem_list_min(prog, one.drop_last(), i, s) == VAL_MAX);
        assert(sem_reg(prog, a, i, s) == sem(prog, a.0 as int, s));
        assert(sem_reg(prog, b, i, s) == sem(prog, b.0 as int, s));
        assert(shapes@.last() == b);
        assert(one.last() == a);
        let m1 = sem_list_min(prog, one, i, s);
        assert(m1 == (if sem_reg(prog, a, i, s) < VAL_MAX {
            sem_reg(prog, a, i, s)
        } else {
            VAL_MAX as int
        }));
        assert(sem_list_min(prog, shapes@, i, s) == (if sem_reg(prog, b, i, s) < m1 {
            sem_reg(prog, b, i, s)
        } else {
            m1
        }));
        assert(sem(prog, i, s) == sem_list_min(prog, shapes@, i, s));
        assert(sem(prog, a.0 as int, s) <= VAL_MAX);
        assert(sem(prog, b.0 as int, s) <= VAL_MAX);
    }
}

/// An intersection evaluates to the pointwise maximum of its operands.
pub proof fn lemma_intersection_max(prog: Seq<SdfInstruction>, i: int, s: Position)
    requires
        0 <= i < prog.len(),
        prog[i] matches SdfInstruction::Intersection { left, right, .. } && 0 <= left.0 < i && 0
            <= right.0 < i,
    ensures
        prog[i] matches SdfInstruction::Intersection { left, right, .. } ==> sem(prog, i, s) == (
        if sem(prog, left.0 as int, s) >= sem(prog, right.0 as int, s) {
            sem(prog, left.0 as int, s)
        } else {
            sem(prog, right.0 as int, s)
        }),
{
    if let SdfInstruction::Intersection { left, right, .. } = prog[i] {
        assert(sem_reg(prog, left, i, s) == sem(prog, left.0 as int, s));
        assert(sem_reg(prog, right, i, s) == sem(prog, right.0 as int, s));
    }
}

/// For a non-negative amount that does not drive the field past the lower
/// saturation bound, dilation subtracts the amount exactly.
pub proof fn lemma_dilate_exact(prog: Seq<SdfInstruction>, i: int, s: Position)
    requires
        wf_program(prog),
        s.valid(),
        0 <= i < prog.len(),
        prog[i] matches SdfInstruction::Dilate { input, amount, .. } && 0 <= input.0 < i
            && amount.0 >= 0 && sem(prog, input.0 as int, s) - amount.0 >= -VAL_MAX,
    ensures
        prog[i] matches SdfInstruction::Dilate { input, amount, .. } ==> sem(prog, i, s) == sem(
            prog,
            input.0 as int,
            s,
        ) - amount.0,
{
    if let SdfInstruction::Dilate { input, amount, .. } = prog[i] {
        lemma_sem_bounded(prog, i, s);
        assert(sem_reg(prog, input, i, s) == sem(prog, input.0 as int, s));
    }
}

/// Increasing the dilation amount never grows the outside region: the field
/// of the larger dilation is everywhere at most the field of the smaller.
pub proof fn lemma_dilate_monotone(prog: Seq<SdfInstruction>, i: int, j: int, s: Position)
    requires
        0 <= i < prog.len(),
        0 <= j < prog.len(),
        prog[i] matches SdfInstruction::Dilate { input: a1, amount: d1, .. } && 0 <= a1.0 < i && (
        prog[j] matches SdfInstruction::Dilate { input: a2, amount: d2, .. } && a2 == a1 && 0
            <= a2.0 < j && d1.0 <= d2.0),
    ensures
        sem(prog, j, s) <= sem(prog, i, s),
{
    if let SdfInstruction::Dilate { input: a1, amount: d1, .. } = prog[i] {
        if let SdfInstruction::Dilate { input: a2, amount: d2, .. } = prog[j] {
            assert(sem_reg(prog, a1, i, s) == sem(prog, a1.0 as int, s));
            assert(sem_reg(prog, a2, j, s) == sem(prog, a2.0 as int, s));
        }
    }
}

/// An edge is the absolute value of its operand's field, hence never
/// negative.
pub proof fn lemma_edge_abs(prog: Seq<SdfInstruction>, i: int, s: Position)
    requires
        0 <= i < prog.len(),
        prog[i] matches SdfInstruction::Edge { input, .. } && 0 <= input.0 < i,
    ensures
        prog[i] matches SdfInstruction::Edge { input, .. } ==> sem(prog, i, s) == (if sem(
            prog,
            input.0 as int,
            s,
        ) < 0 {
            -sem(prog, input.0 as int, s)
        } else {
            sem(prog, input.0 as int, s)
        }),
        sem(prog, i, s) >= 0,
{
    if let SdfInstruction::Edge { input, .. } = prog[i] {
        assert(sem_reg(prog, input, i, s) == sem(prog, input.0 as int, s));
    }
}

/// On an ambiguous sample — one satisfying both candidate regions — the
/// `Inside` policy classifies it inside, the `Outside` policy classifies it
/// outside, and so the two policies disagree there.
pub proof fn lemma_boundary_policies(din: int, dout: int)
    requires
        din <= 0,
        dout <= 0,
        -VAL_MAX <= din,
        -VAL_MAX <= dout,
    ensures
        boundary_value(din, dout, BoundaryOverlapResolution::Inside) <= 0,
        boundary_value(din, dout, BoundaryOverlapResolution::Outside) > 0,
        boundary_value(din, dout, BoundaryOverlapResolution::Inside) != boundary_value(
            din,
            dout,
            BoundaryOverlapResolution::Outside,
        ),
{
}

/// The boundary instruction under the `Inside` policy classifies an
/// ambiguous sample as inside; under the `Outside` policy, as outside.
pub proof fn lemma_boundary_classifies(prog: Seq<SdfInstruction>, i: int, s: Position)
    requires
        wf_program(prog),
        s.valid(),
        0 <= i < prog.len(),
        prog[i] matches SdfInstruction::Boundary { inside, outside, .. } && 0 <= inside.0 < i && 0
            <= outside.0 < i && sem(prog, inside.0 as int, s) <= 0 && sem(
            prog,
            outside.0 as int,
            s,
        ) <= 0,
    ensures
        prog[i] matches SdfInstruction::Boundary {
            overlap_resolution: BoundaryOverlapResolution::Inside,
            ..
        } ==> sem(prog, i, s) <= 0,
        prog[i] matches SdfInstruction::Boundary {
            overlap_resolution: BoundaryOverlapResolution::Outside,
            ..
        } ==> sem(prog, i, s) > 0,
{
    if let SdfInstruction::Boundary { inside, outside, overlap_resolution, .. } = prog[i] {
        lemma_sem_bounded(prog, i, s);
        assert(sem_reg(prog, inside, i, s) == sem(prog, inside.0 as int, s));
        assert(sem_reg(prog, outside, i, s) == sem(prog, outside.0 as int, s));
        lemma_boundary_policies(
            sem_reg(prog, inside, i, s),
            sem_reg(prog, outside, i, s),
        );
    }
}

} // verus!
