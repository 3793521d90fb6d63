//! Brush geometry: which pixels a circular brush stamp or a round-capped
//! line segment covers, decided exactly in integer arithmetic.

use vstd::prelude::*;

verus! {

/// Largest coordinate magnitude the brush geometry accepts. Keeping every
/// coordinate within this bound keeps the squared-distance comparisons of
/// `capsule_hit` inside `i128`.
pub const MAX_COORD: i32 = 1048576;

/// The point `(dx, dy)` (relative to the disc's centre) lies within a disc
/// of radius `r`.
pub open spec fn in_disc(dx: int, dy: int, r: int) -> bool {
    dx * dx + dy * dy <= r * r
}

/// The point `(px, py)` lies within distance `r` of the segment from
/// `(ax, ay)` to `(bx, by)`: the round-capped thick line through the two
/// points. Stated without division: with `w` the vector from `a` to the
/// point, `d` the segment vector, `t = w·d` and `dd = |d|^2`, the point is
/// nearest to `a` when `t <= 0`, nearest to `b` when `t >= dd`, and
/// otherwise its squared distance to the line is `|w|^2 - t^2 / dd`.
pub open spec fn in_capsule(px: int, py: int, ax: int, ay: int, bx: int, by: int, r: int) -> bool {
    let dx = bx - ax;
    let dy = by - ay;
    let wx = px - ax;
    let wy = py - ay;
    let dd = dx * dx + dy * dy;
    let t = wx * dx + wy * dy;
    if t <= 0 {
        in_disc(wx, wy, r)
    } else if t >= dd {
        in_disc(px - bx, py - by, r)
    } else {
        (wx * wx + wy * wy) * dd - t * t <= r * r * dd
    }
}

/// A degenerate segment, both endpoints equal, covers exactly the disc
/// around that point.
pub proof fn lemma_capsule_point(px: int, py: int, ax: int, ay: int, r: int)
    ensures
        in_capsule(px, py, ax, ay, ax, ay, r) == in_disc(px - ax, py - ay, r),
{
}

/// Bound on a product from bounds on its factors.
pub proof fn lemma_abs_mul_bound(a: int, b: int, m: int, n: int)
    by (nonlinear_arith)
    requires
        -m <= a <= m,
        -n <= b <= n,
        0 <= m,
        0 <= n,
    ensures
        -(m * n) <= a * b <= m * n,
{
}

/// Decides `in_capsule` for coordinates of bounded magnitude.
pub fn capsule_hit(px: i32, py: i32, ax: i32, ay: i32, bx: i32, by: i32, r: i32) -> (hit: bool)
    requires
        -MAX_COORD <= px <= MAX_COORD,
        -MAX_COORD <= py <= MAX_COORD,
        -MAX_COORD <= ax <= MAX_COORD,
        -MAX_COORD <= ay <= MAX_COORD,
        -MAX_COORD <= bx <= MAX_COORD,
        -MAX_COORD <= by <= MAX_COORD,
        0 <= r <= MAX_COORD,
    ensures
        hit == in_capsule(px as int, py as int, ax as int, ay as int, bx as int, by as int, r as int),
{
    let dx: i64 = bx as i64 - ax as i64;
    let dy: i64 = by as i64 - ay as i64;
    let wx: i64 = px as i64 - ax as i64;
    let wy: i64 = py as i64 - ay as i64;
    proof {
        lemma_abs_mul_bound(dx as int, dx as int, 0x200000, 0x200000);
        lemma_abs_mul_bound(dy as int, dy as int, 0x200000, 0x200000);
        lemma_abs_mul_bound(wx as int, wx as int, 0x200000, 0x200000);
        lemma_abs_mul_bound(wy as int, wy as int, 0x200000, 0x200000);
        lemma_abs_mul_bound(wx as int, dx as int, 0x200000, 0x200000);
        lemma_abs_mul_bound(wy as int, dy as int, 0x200000, 0x200000);
        lemma_abs_mul_bound(r as int, r as int, 0x100000, 0x100000);
    }
    let dd: i64 = dx * dx + dy * dy;
    let t: i64 = wx * dx + wy * dy;
    if t <= 0 {
        wx * wx + wy * wy <= (r as i64) * (r as i64)
    } else if t >= dd {
        let ux: i64 = px as i64 - bx as i64;
        let uy: i64 = py as i64 - by as i64;
        proof {
            lemma_abs_mul_bound(ux as int, ux as int, 0x200000, 0x200000);
            lemma_abs_mul_bound(uy as int, uy as int, 0x200000, 0x200000);
        }
        ux * ux + uy * uy <= (r as i64) * (r as i64)
    } else {
        let ww: i128 = (wx * wx + wy * wy) as i128;
        proof {
            lemma_abs_mul_bound(ww as int, dd as int, 0x80000000000, 0x80000000000);
            lemma_abs_mul_bound(t as int, t as int, 0x80000000000, 0x80000000000);
            lemma_abs_mul_bound((r as i128 * r as i128) as int, dd as int, 0x10000000000, 0x80000000000);
        }
        let lhs: i128 = ww * (dd as i128) - (t as i128) * (t as i128);
        let rhs: i128 = (r as i128) * (r as i128) * (dd as i128);
        lhs <= rhs
    }
}

} // verus!
