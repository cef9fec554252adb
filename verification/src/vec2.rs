//! 2D vectors of fixed-point scalars, and the squared-distance helper that
//! every collision test is built on.
use vstd::prelude::*;

use crate::consts::COORD_LIMIT;

verus! {

/// A 2D point or vector; components are thousandths of a pixel.
#[derive(Clone, Copy, PartialEq, Eq, Structural, Debug)]
pub struct Vec2i {
    pub x: i64,
    pub y: i64,
}

impl Vec2i {
    pub fn new(x: i64, y: i64) -> (v: Vec2i)
        ensures
            v.x == x,
            v.y == y,
    {
        Vec2i { x, y }
    }

    pub fn zero() -> (v: Vec2i)
        ensures
            v.x == 0,
            v.y == 0,
    {
        Vec2i { x: 0, y: 0 }
    }
}

/// Square of the Euclidean distance between `(ax, ay)` and `(bx, by)`.
pub open spec fn dist_sq(ax: int, ay: int, bx: int, by: int) -> int {
    (ax - bx) * (ax - bx) + (ay - by) * (ay - by)
}

/// Computes `dist_sq` exactly, in 128-bit arithmetic.
pub fn dist_sq_i128(a: &Vec2i, b: &Vec2i) -> (d: i128)
    requires
        -COORD_LIMIT <= a.x <= COORD_LIMIT,
        -COORD_LIMIT <= a.y <= COORD_LIMIT,
        -COORD_LIMIT <= b.x <= COORD_LIMIT,
        -COORD_LIMIT <= b.y <= COORD_LIMIT,
    ensures
        d == dist_sq(a.x as int, a.y as int, b.x as int, b.y as int),
        d >= 0,
{
    let dx: i128 = a.x as i128 - b.x as i128;
    let dy: i128 = a.y as i128 - b.y as i128;
    proof {
        crate::num::lemma_abs_mul_le(dx as int, dx as int, 2 * COORD_LIMIT as int, 2 * COORD_LIMIT as int);
        crate::num::lemma_abs_mul_le(dy as int, dy as int, 2 * COORD_LIMIT as int, 2 * COORD_LIMIT as int);
        assert(dx * dx >= 0) by (nonlinear_arith);
        assert(dy * dy >= 0) by (nonlinear_arith);
    }
    dx * dx + dy * dy
}

} // verus!
