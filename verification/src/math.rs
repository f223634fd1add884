//! Exact integer geometry for the evaluator: floor square roots and
//! point/segment/line distances in whole centimeters.

use vstd::prelude::*;

use crate::types::{Position, VAL_MAX};

verus! {

/// The floor of the square root of `n`: the largest `r` with `r * r <= n`.
pub open spec fn sqrt_floor(n: nat) -> nat
    decreases n,
{
    if n == 0 {
        0
    } else {
        let p = sqrt_floor((n - 1) as nat);
        if (p + 1) * (p + 1) <= n {
            p + 1
        } else {
            p
        }
    }
}

pub proof fn lemma_sqrt_floor_bracket(n: nat)
    ensures
        sqrt_floor(n) * sqrt_floor(n) <= n,
        n < (sqrt_floor(n) + 1) * (sqrt_floor(n) + 1),
    decreases n,
{
    if n == 0 {
        assert(sqrt_floor(0) == 0);
        assert((sqrt_floor(n) + 1) * (sqrt_floor(n) + 1) > n) by (nonlinear_arith)
            requires
                n == 0,
                sqrt_floor(n) == 0,
        ;
    }
    if n > 0 {
        lemma_sqrt_floor_bracket((n - 1) as nat);
        let p = sqrt_floor((n - 1) as nat);
        assert(sqrt_floor(n) == if (p + 1) * (p + 1) <= n {
            p + 1
        } else {
            p
        });
        if (p + 1) * (p + 1) <= n {
            assert((p + 2) * (p + 2) > n) by (nonlinear_arith)
                requires
                    p >= 0,
                    n - 1 < (p + 1) * (p + 1),
            ;
            assert((sqrt_floor(n) + 1) * (sqrt_floor(n) + 1) > n && sqrt_floor(n) * sqrt_floor(n)
                <= n) by (nonlinear_arith)
                requires
                    sqrt_floor(n) == p + 1,
                    (p + 2) * (p + 2) > n,
                    (p + 1) * (p + 1) <= n,
            ;
        } else {
            assert((sqrt_floor(n) + 1) * (sqrt_floor(n) + 1) > n && sqrt_floor(n) * sqrt_floor(n)
                <= n) by (nonlinear_arith)
                requires
                    sqrt_floor(n) == p,
                    p * p <= n - 1,
                    !((p + 1) * (p + 1) <= n),
            ;
        }
    }
}

/// The bracket `r * r <= n < (r + 1) * (r + 1)` pins the floor square root
/// down.
pub proof fn lemma_sqrt_floor_unique(n: nat, r: nat)
    requires
        r * r <= n,
        n < (r + 1) * (r + 1),
    ensures
        r == sqrt_floor(n),
{
    lemma_sqrt_floor_bracket(n);
    let s = sqrt_floor(n);
    if r < s {
        assert((r + 1) * (r + 1) <= s * s) by (nonlinear_arith)
            requires
                r + 1 <= s,
        ;
    }
    if s < r {
        assert((s + 1) * (s + 1) <= r * r) by (nonlinear_arith)
            requires
                s + 1 <= r,
        ;
    }
}

/// Floor square root by binary search on the 32-bit result range.
pub fn isqrt64(n: u64) -> (r: u64)
    ensures
        r == sqrt_floor(n as nat),
        r * r <= n,
        n < (r + 1) * (r + 1),
        r <= 0x1_0000_0000u64,
{
    let mut lo: u64 = 0;
    let mut hi: u64 = 0x1_0000_0000;
    proof {
        assert((0x1_0000_0000int) * (0x1_0000_0000int) > n);
    }
    while hi - lo > 1
        invariant
            lo < hi <= 0x1_0000_0000u64,
            lo * lo <= n,
            n < hi * hi,
        decreases hi - lo,
    {
        let mid = lo + (hi - lo) / 2;
        proof {
            assert(0 <= (mid as int) * (mid as int) <= 0x1_0000_0000_0000_0000int)
                by (nonlinear_arith)
                requires
                    0 <= mid <= 0x1_0000_0000u64,
            ;
        }
        let sq: u128 = (mid as u128) * (mid as u128);
        if sq <= n as u128 {
            lo = mid;
        } else {
            hi = mid;
        }
    }
    proof {
        lemma_sqrt_floor_unique(n as nat, lo as nat);
    }
    lo
}

/// Distance between two planar positions, in whole centimeters, rounded down.
pub open spec fn dist_cm(p: Position, q: Position) -> int {
    sqrt_floor(((p.x - q.x) * (p.x - q.x) + (p.y - q.y) * (p.y - q.y)) as nat) as int
}

pub fn point_distance(p: Position, q: Position) -> (r: i64)
    requires
        p.valid(),
        q.valid(),
    ensures
        r == dist_cm(p, q),
        0 <= r < VAL_MAX,
{
    let dx = p.x - q.x;
    let dy = p.y - q.y;
    proof {
        assert(dx * dx <= 4_000_000_000_000_000_000 && dx * dx >= 0) by (nonlinear_arith)
            requires
                -2_000_000_000 <= dx <= 2_000_000_000,
        ;
        assert(dy * dy <= 4_000_000_000_000_000_000 && dy * dy >= 0) by (nonlinear_arith)
            requires
                -2_000_000_000 <= dy <= 2_000_000_000,
        ;
    }
    let s: u64 = (dx * dx) as u64 + (dy * dy) as u64;
    let r = isqrt64(s);
    proof {
        assert(r < VAL_MAX) by (nonlinear_arith)
            requires
                r * r <= s as int,
                s <= 8_000_000_000_000_000_000,
                r >= 0,
                VAL_MAX == 1_000_000_000_000_000int,
        ;
    }
    r as i64
}

/// Distance from `p` to the segment `a`-`b`, in whole centimeters: the
/// distance to the nearest endpoint when the perpendicular foot falls outside
/// the segment, else the floor of the perpendicular distance.
pub open spec fn seg_dist_cm(p: Position, a: Position, b: Position) -> int {
    let abx = b.x - a.x;
    let aby = b.y - a.y;
    let apx = p.x - a.x;
    let apy = p.y - a.y;
    let td = abx * abx + aby * aby;
    let tn = apx * abx + apy * aby;
    if td == 0 || tn <= 0 {
        dist_cm(p, a)
    } else if tn >= td {
        dist_cm(p, b)
    } else {
        let num = (apx * apx + apy * apy) * td - tn * tn;
        let m = if num <= 0 {
            0
        } else {
            num / td
        };
        sqrt_floor(m as nat) as int
    }
}

pub fn segment_distance(p: Position, a: Position, b: Position) -> (r: i64)
    requires
        p.valid(),
        a.valid(),
        b.valid(),
    ensures
        r == seg_dist_cm(p, a, b),
        0 <= r < VAL_MAX,
{
    let abx = b.x - a.x;
    let aby = b.y - a.y;
    let apx = p.x - a.x;
    let apy = p.y - a.y;
    proof {
        lemma_square_bound(abx as int);
        lemma_square_bound(aby as int);
        lemma_square_bound(apx as int);
        lemma_square_bound(apy as int);
        lemma_product_bound(apx as int, abx as int);
        lemma_product_bound(apy as int, aby as int);
    }
    let td: i64 = abx * abx + aby * aby;
    let tn: i64 = apx * abx + apy * aby;
    if td == 0 || tn <= 0 {
        point_distance(p, a)
    } else if tn >= td {
        point_distance(p, b)
    } else {
        let ap2: i64 = apx * apx + apy * apy;
        proof {
            assert(0 <= (ap2 as int) * (td as int)
                <= 64_000_000_000_000_000_000_000_000_000_000_000_000int && 0 <= (tn as int) * (
            tn as int) <= 64_000_000_000_000_000_000_000_000_000_000_000_000int)
                by (nonlinear_arith)
                requires
                    0 <= ap2 <= 8_000_000_000_000_000_000i64,
                    0 < td <= 8_000_000_000_000_000_000i64,
                    0 < tn <= 8_000_000_000_000_000_000i64,
            ;
        }
        let num: i128 = (ap2 as i128) * (td as i128) - (tn as i128) * (tn as i128);
        let m: i128 = if num <= 0 {
            0
        } else {
            num / (td as i128)
        };
        proof {
            if num > 0 {
                lemma_div_bound(num as int, td as int, ap2 as int);
            }
        }
        let r = isqrt64(m as u64);
        proof {
            assert(r < VAL_MAX) by (nonlinear_arith)
                requires
                    r * r <= m as int,
                    m <= 8_000_000_000_000_000_000,
                    r >= 0,
                    VAL_MAX == 1_000_000_000_000_000int,
            ;
        }
        r as i64
    }
}

proof fn lemma_square_bound(x: int)
    requires
        -2_000_000_000 <= x <= 2_000_000_000,
    ensures
        0 <= x * x <= 4_000_000_000_000_000_000,
{
    assert(0 <= x * x <= 4_000_000_000_000_000_000) by (nonlinear_arith)
        requires
            -2_000_000_000 <= x <= 2_000_000_000,
    ;
}

proof fn lemma_product_bound(x: int, y: int)
    requires
        -2_000_000_000 <= x <= 2_000_000_000,
        -2_000_000_000 <= y <= 2_000_000_000,
    ensures
        -4_000_000_000_000_000_000 <= x * y <= 4_000_000_000_000_000_000,
{
    assert(-4_000_000_000_000_000_000 <= x * y <= 4_000_000_000_000_000_000) by (nonlinear_arith)
        requires
            -2_000_000_000 <= x <= 2_000_000_000,
            -2_000_000_000 <= y <= 2_000_000_000,
    ;
}

/// If `0 < d` and `n <= c * d` then `n / d <= c`; division by a positive
/// divisor is monotone and cancels multiples.
proof fn lemma_div_bound(n: int, d: int, c: int)
    requires
        0 < d,
        0 <= n <= c * d,
    ensures
        0 <= n / d <= c,
{
    assert(0 <= n / d <= c) by (nonlinear_arith)
        requires
            0 < d,
            0 <= n <= c * d,
    ;
}

/// Signed distance from `p` to the dividing line through `anchor` with normal
/// `(nx, ny)`, in whole centimeters rounded toward zero, with the sign flipped
/// if needed so that `interior` falls on the non-positive side. A zero normal
/// denotes no line at all: everything is outside.
pub open spec fn line_side_cm(
    p: Position,
    anchor: Position,
    nx: int,
    ny: int,
    interior: Position,
) -> int {
    if nx == 0 && ny == 0 {
        VAL_MAX as int
    } else {
        let f = (p.x - anchor.x) * nx + (p.y - anchor.y) * ny;
        let fi = (interior.x - anchor.x) * nx + (interior.y - anchor.y) * ny;
        let sf = if fi > 0 {
            -f
        } else {
            f
        };
        let l = sqrt_floor((nx * nx + ny * ny) as nat) as int;
        if sf >= 0 {
            sf / l
        } else {
            -((-sf) / l)
        }
    }
}

pub fn line_side_distance(p: Position, anchor: Position, nx: i64, ny: i64, interior: Position) -> (r:
    i64)
    requires
        p.valid(),
        anchor.valid(),
        interior.valid(),
        -2_000_000_000 <= nx <= 2_000_000_000,
        -2_000_000_000 <= ny <= 2_000_000_000,
    ensures
        r == line_side_cm(p, anchor, nx as int, ny as int, interior),
        -9_000_000_000_000_000_000 <= r <= 9_000_000_000_000_000_000,
{
    if nx == 0 && ny == 0 {
        return VAL_MAX;
    }
    proof {
        lemma_square_bound(nx as int);
        lemma_square_bound(ny as int);
        lemma_product_bound((p.x - anchor.x) as int, nx as int);
        lemma_product_bound((p.y - anchor.y) as int, ny as int);
        lemma_product_bound((interior.x - anchor.x) as int, nx as int);
        lemma_product_bound((interior.y - anchor.y) as int, ny as int);
    }
    let f: i64 = (p.x - anchor.x) * nx + (p.y - anchor.y) * ny;
    let fi: i64 = (interior.x - anchor.x) * nx + (interior.y - anchor.y) * ny;
    let sf: i64 = if fi > 0 {
        -f
    } else {
        f
    };
    let n2: u64 = (nx * nx) as u64 + (ny * ny) as u64;
    let l: u64 = isqrt64(n2);
    proof {
        if l == 0 {
            assert(n2 == 0) by (nonlinear_arith)
                requires
                    l == 0,
                    n2 < (l + 1) * (l + 1),
            ;
            assert(nx == 0 && ny == 0) by (nonlinear_arith)
                requires
                    (nx as int) * (nx as int) + (ny as int) * (ny as int) == 0,
            ;
        }
    }
    let li: i64 = l as i64;
    if sf >= 0 {
        proof {
            lemma_div_le(sf as int, li as int);
        }
        sf / li
    } else {
        proof {
            lemma_div_le(-(sf as int), li as int);
        }
        -((-sf) / li)
    }
}

/// Dividing a non-negative value by a positive divisor never increases it.
proof fn lemma_div_le(a: int, b: int)
    requires
        0 <= a,
        1 <= b,
    ensures
        0 <= a / b <= a,
{
    assert(0 <= a / b <= a) by (nonlinear_arith)
        requires
            0 <= a,
            1 <= b,
    ;
}

} // verus!
