//! The ship: heading rotation in fixed point, thrust with the
//! speed-of-light clamp, movement with wrap, and the exact
//! circle-vs-triangle collision test against asteroids.
//!
//! The heading stores `(sin r, cos r)` of the ship's rotation angle `r`,
//! scaled by `DIR_ONE`; rotating by the fixed per-frame step is one
//! fixed-point rotation-matrix application, so no trigonometry is needed at
//! simulation time.  The closest point of the ship's triangular hull to an
//! asteroid's center is kept as an exact rational point (numerators and a
//! positive denominator), so the final circle test is exact integer
//! arithmetic.
use vstd::prelude::*;

use crate::asteroid::{radius_spec, Asteroid};
use crate::consts::{
    DIR_ONE, HALF_SQRT2, LASER_SPEED, LASER_V_LIMIT, MAX_BOUND, PLAYER_SIZE, ROT_COS, ROT_SIN,
    SHIP_THRUST, SPEED_OF_LIGHT,
};
use crate::num::{lemma_abs_mul_le, lemma_tdiv_bound, tdiv, tdiv64};
use crate::utils::{screen_center, wrap_around, wrap_coord, Bounds};
use crate::vec2::{dist_sq, dist_sq_i128, Vec2i};

verus! {

/// `DIR_ONE * DIR_ONE`; denominator of the rear-vertex offsets.
pub const DIR_ONE_SQ: i64 = DIR_ONE * DIR_ONE;

/// Bound on any coordinate handed to the triangle test.
pub const TRI_COORD_LIMIT: i64 = 16_777_216;

/// Bound on the spread of the four points handed to the triangle test.
pub const TRI_SPAN: i64 = 262_144;

/// Bound on the rational denominator the triangle test can produce
/// (twice `TRI_SPAN` squared).
pub const DEN_LIMIT: i128 = 137_438_953_472;

/// Bound on a circle radius handed to the rational circle test.
pub const R_LIMIT: i64 = 82_000_000;

/// Bound on a vertex's offset from the ship's position, per axis.
pub const VERTEX_OFFSET_LIMIT: i64 = 80_000;

/// A heading vector's magnitude stays within a few units of its nominal
/// `DIR_ONE`: each rotation step renormalizes, so the window never drifts.
pub open spec fn heading_ok(h: Vec2i) -> bool {
    (DIR_ONE - 3) * (DIR_ONE - 3) <= h.x * h.x + h.y * h.y <= (DIR_ONE + 6) * (DIR_ONE + 6)
}

/// A heading rescaled back to its nominal magnitude: divided by its own
/// length.  A vector outside a coarse half-to-double band (which rotation
/// steps never produce) resets to the nominal upward heading instead.
pub open spec fn renorm_spec(x: int, y: int) -> (int, int) {
    let l = crate::num::sqrt_floor(x * x + y * y);
    if l < DIR_ONE / 2 || l > 2 * DIR_ONE {
        (0, DIR_ONE as int)
    } else {
        (tdiv(x * DIR_ONE, l), tdiv(y * DIR_ONE, l))
    }
}

/// Clamping to `[lo, hi]`.
pub open spec fn clamp_spec(v: int, lo: int, hi: int) -> int {
    if v < lo {
        lo
    } else if v > hi {
        hi
    } else {
        v
    }
}

fn clamp_i64(v: i64, lo: i64, hi: i64) -> (r: i64)
    requires
        lo <= hi,
    ensures
        r == clamp_spec(v as int, lo as int, hi as int),
        lo <= r <= hi,
{
    if v < lo {
        lo
    } else if v > hi {
        hi
    } else {
        v
    }
}

/// The heading after one rotation step to the right (clockwise).
pub open spec fn rot_right_spec(h: Vec2i) -> (int, int) {
    (
        tdiv(h.x * ROT_COS + h.y * ROT_SIN, DIR_ONE as int),
        tdiv(h.y * ROT_COS - h.x * ROT_SIN, DIR_ONE as int),
    )
}

/// The heading after one rotation step to the left (counterclockwise).
pub open spec fn rot_left_spec(h: Vec2i) -> (int, int) {
    (
        tdiv(h.x * ROT_COS - h.y * ROT_SIN, DIR_ONE as int),
        tdiv(h.y * ROT_COS + h.x * ROT_SIN, DIR_ONE as int),
    )
}

/// The nose of the ship's triangular hull.
pub open spec fn vertex_a(pos: Vec2i, h: Vec2i) -> (int, int) {
    (
        pos.x + tdiv(h.x * PLAYER_SIZE, DIR_ONE as int),
        pos.y - tdiv(h.y * PLAYER_SIZE, DIR_ONE as int),
    )
}

/// The rear vertex 135 degrees around from the nose.
pub open spec fn vertex_b(pos: Vec2i, h: Vec2i) -> (int, int) {
    (
        pos.x - tdiv(HALF_SQRT2 * (h.x + h.y) * PLAYER_SIZE, DIR_ONE_SQ as int),
        pos.y + tdiv(HALF_SQRT2 * (h.y - h.x) * PLAYER_SIZE, DIR_ONE_SQ as int),
    )
}

/// The rear vertex 225 degrees around from the nose.
pub open spec fn vertex_c(pos: Vec2i, h: Vec2i) -> (int, int) {
    (
        pos.x + tdiv(HALF_SQRT2 * (h.y - h.x) * PLAYER_SIZE, DIR_ONE_SQ as int),
        pos.y + tdiv(HALF_SQRT2 * (h.x + h.y) * PLAYER_SIZE, DIR_ONE_SQ as int),
    )
}

/// The closest point of triangle `a b c` to `p`, by Voronoi-region case
/// analysis, as an exact rational point `(x_num, y_num, den)` whose value is
/// `(x_num / den, y_num / den)`.  Degenerate edges (a zero denominator) fall
/// through to the next region, ending at `p` itself.
pub open spec fn closest_on_triangle(
    px: int,
    py: int,
    ax: int,
    ay: int,
    bx: int,
    by: int,
    cx: int,
    cy: int,
) -> (int, int, int) {
    let abx = bx - ax;
    let aby = by - ay;
    let acx = cx - ax;
    let acy = cy - ay;
    let d1 = abx * (px - ax) + aby * (py - ay);
    let d2 = acx * (px - ax) + acy * (py - ay);
    if d1 <= 0 && d2 <= 0 {
        (ax, ay, 1)
    } else {
        let d3 = abx * (px - bx) + aby * (py - by);
        let d4 = acx * (px - bx) + acy * (py - by);
        if d3 >= 0 && d4 <= d3 {
            (bx, by, 1)
        } else if d1 >= 0 && d3 <= 0 && d1 * d4 - d3 * d2 <= 0 && d1 - d3 > 0 {
            (ax * (d1 - d3) + abx * d1, ay * (d1 - d3) + aby * d1, d1 - d3)
        } else {
            let d5 = abx * (px - cx) + aby * (py - cy);
            let d6 = acx * (px - cx) + acy * (py - cy);
            if d6 >= 0 && d5 <= d6 {
                (cx, cy, 1)
            } else if d2 >= 0 && d6 <= 0 && d5 * d2 - d1 * d6 <= 0 && d2 - d6 > 0 {
                (ax * (d2 - d6) + acx * d2, ay * (d2 - d6) + acy * d2, d2 - d6)
            } else if d3 * d6 - d5 * d4 <= 0 && d4 - d3 >= 0 && d5 - d6 >= 0 && (d4 - d3) + (d5
                - d6) > 0 {
                (
                    bx * ((d4 - d3) + (d5 - d6)) + (cx - bx) * (d4 - d3),
                    by * ((d4 - d3) + (d5 - d6)) + (cy - by) * (d4 - d3),
                    (d4 - d3) + (d5 - d6),
                )
            } else {
                (px, py, 1)
            }
        }
    }
}

/// What the closest-point case analysis returns, geometrically: either the
/// query point itself (when it lies in the triangle's interior region), or
/// a point of the triangle's boundary — a convex combination, with the
/// weight `t / den` in `[0, 1]`, along one of the three edges, with the
/// vertex regions landing on an edge's endpoint.  (A bounded form of the
/// minimality the case analysis is built for is proved separately:
/// `lemma_closest_point_beats_corners`.)
pub proof fn lemma_closest_point_on_hull(
    px: int,
    py: int,
    ax: int,
    ay: int,
    bx: int,
    by: int,
    cx: int,
    cy: int,
)
    ensures
        ({
            let q = closest_on_triangle(px, py, ax, ay, bx, by, cx, cy);
            ||| (q.0 == px * q.2 && q.1 == py * q.2)
            ||| exists|t: int|
                #![trigger (bx - ax) * t]
                0 <= t <= q.2 && q.0 == ax * q.2 + (bx - ax) * t && q.1 == ay * q.2 + (by - ay)
                    * t
            ||| exists|t: int|
                #![trigger (cx - ax) * t]
                0 <= t <= q.2 && q.0 == ax * q.2 + (cx - ax) * t && q.1 == ay * q.2 + (cy - ay)
                    * t
            ||| exists|t: int|
                #![trigger (cx - bx) * t]
                0 <= t <= q.2 && q.0 == bx * q.2 + (cx - bx) * t && q.1 == by * q.2 + (cy - by)
                    * t
        }),
{
    let q = closest_on_triangle(px, py, ax, ay, bx, by, cx, cy);
    let abx = bx - ax;
    let aby = by - ay;
    let acx = cx - ax;
    let acy = cy - ay;
    let d1 = abx * (px - ax) + aby * (py - ay);
    let d2 = acx * (px - ax) + acy * (py - ay);
    let d3 = abx * (px - bx) + aby * (py - by);
    let d4 = acx * (px - bx) + acy * (py - by);
    let d5 = abx * (px - cx) + aby * (py - cy);
    let d6 = acx * (px - cx) + acy * (py - cy);
    if d1 <= 0 && d2 <= 0 {
        assert(q.0 == ax * q.2 + (bx - ax) * 0 && q.1 == ay * q.2 + (by - ay) * 0)
            by (nonlinear_arith)
            requires
                q.0 == ax && q.1 == ay && q.2 == 1,
        ;
    } else if d3 >= 0 && d4 <= d3 {
        assert(q.0 == ax * q.2 + (bx - ax) * 1 && q.1 == ay * q.2 + (by - ay) * 1)
            by (nonlinear_arith)
            requires
                q.0 == bx && q.1 == by && q.2 == 1,
        ;
        assert(0 <= 1 <= q.2 && q.0 == ax * q.2 + (bx - ax) * 1 && q.1 == ay * q.2 + (by - ay)
            * 1);
    } else if d1 >= 0 && d3 <= 0 && d1 * d4 - d3 * d2 <= 0 && d1 - d3 > 0 {
        assert(0 <= d1 <= q.2 && q.0 == ax * q.2 + (bx - ax) * d1 && q.1 == ay * q.2 + (by - ay)
            * d1);
    } else if d6 >= 0 && d5 <= d6 {
        assert(q.0 == ax * q.2 + (cx - ax) * 1 && q.1 == ay * q.2 + (cy - ay) * 1)
            by (nonlinear_arith)
            requires
                q.0 == cx && q.1 == cy && q.2 == 1,
        ;
        assert(0 <= 1 <= q.2 && q.0 == ax * q.2 + (cx - ax) * 1 && q.1 == ay * q.2 + (cy - ay)
            * 1);
    } else if d2 >= 0 && d6 <= 0 && d5 * d2 - d1 * d6 <= 0 && d2 - d6 > 0 {
        assert(0 <= d2 <= q.2 && q.0 == ax * q.2 + (cx - ax) * d2 && q.1 == ay * q.2 + (cy - ay)
            * d2);
    } else if d3 * d6 - d5 * d4 <= 0 && d4 - d3 >= 0 && d5 - d6 >= 0 && (d4 - d3) + (d5 - d6)
        > 0 {
        assert(0 <= d4 - d3 <= q.2 && q.0 == bx * q.2 + (cx - bx) * (d4 - d3) && q.1 == by * q.2
            + (cy - by) * (d4 - d3));
    } else {
        assert(q.0 == px * q.2 && q.1 == py * q.2) by (nonlinear_arith)
            requires
                q.0 == px && q.1 == py && q.2 == 1,
        ;
    }
}

/// The rational point `(qx / den, qy / den)` lies no farther from
/// `(px, py)` than the integer point `(vx, vy)` does: squared distances,
/// compared with everything scaled by `den`, so the comparison is exact.
pub open spec fn rat_no_farther(
    qx: int,
    qy: int,
    den: int,
    px: int,
    py: int,
    vx: int,
    vy: int,
) -> bool {
    (qx - px * den) * (qx - px * den) + (qy - py * den) * (qy - py * den) <= ((vx - px) * (vx - px)
        + (vy - py) * (vy - py)) * (den * den)
}

/// Restates a plain squared-distance comparison between integer points as
/// the rational comparison with denominator one.
proof fn lemma_point_no_farther(qx: int, qy: int, px: int, py: int, rx: int, ry: int)
    requires
        (qx - px) * (qx - px) + (qy - py) * (qy - py) <= (rx - px) * (rx - px) + (ry - py) * (ry
            - py),
    ensures
        rat_no_farther(qx, qy, 1, px, py, rx, ry),
{
    assert((qx - px * 1) * (qx - px * 1) + (qy - py * 1) * (qy - py * 1) <= ((rx - px) * (rx - px)
        + (ry - py) * (ry - py)) * (1 * 1)) by (nonlinear_arith)
        requires
            (qx - px) * (qx - px) + (qy - py) * (qy - py) <= (rx - px) * (rx - px) + (ry - py) * (
            ry - py),
    ;
}

/// Lagrange's identity in the plane: the square of a dot product falls
/// short of the product of the squared norms by the squared cross product.
proof fn lemma_cauchy_schwarz(ux: int, uy: int, vx: int, vy: int)
    ensures
        (ux * vx + uy * vy) * (ux * vx + uy * vy) <= (ux * ux + uy * uy) * (vx * vx + vy * vy),
{
    assert((ux * ux + uy * uy) * (vx * vx + vy * vy) == (ux * ux) * (vx * vx) + (uy * uy) * (vy
        * vy) + (ux * ux) * (vy * vy) + (uy * uy) * (vx * vx)) by (nonlinear_arith);
    assert((ux * vx + uy * vy) * (ux * vx + uy * vy) == (ux * vx) * (ux * vx) + 2 * ((ux * vx) * (
    uy * vy)) + (uy * vy) * (uy * vy)) by (nonlinear_arith);
    assert((ux * vy - uy * vx) * (ux * vy - uy * vx) == (ux * vy) * (ux * vy) - 2 * ((ux * vy) * (
    uy * vx)) + (uy * vx) * (uy * vx)) by (nonlinear_arith);
    assert((ux * vx) * (ux * vx) == (ux * ux) * (vx * vx)) by (nonlinear_arith);
    assert((uy * vy) * (uy * vy) == (uy * uy) * (vy * vy)) by (nonlinear_arith);
    assert((ux * vy) * (ux * vy) == (ux * ux) * (vy * vy)) by (nonlinear_arith);
    assert((uy * vx) * (uy * vx) == (uy * uy) * (vx * vx)) by (nonlinear_arith);
    assert((ux * vx) * (uy * vy) == (ux * vy) * (uy * vx)) by (nonlinear_arith);
    assert((ux * vy - uy * vx) * (ux * vy - uy * vx) >= 0) by (nonlinear_arith);
}

/// The squared distance from the query point to the foot of its projection
/// on an edge, with everything scaled by the edge's squared length `nu`:
/// the classic orthogonal-decomposition identity.
proof fn lemma_foot_identity(wx: int, wy: int, ux: int, uy: int, d: int, nu: int)
    requires
        d == ux * wx + uy * wy,
        nu == ux * ux + uy * uy,
    ensures
        (nu * wx - ux * d) * (nu * wx - ux * d) + (nu * wy - uy * d) * (nu * wy - uy * d) == nu * (
        nu * (wx * wx + wy * wy) - d * d),
{
    assert((nu * wx - ux * d) * (nu * wx - ux * d) == (nu * wx) * (nu * wx) - 2 * ((nu * wx) * (ux
        * d)) + (ux * d) * (ux * d)) by (nonlinear_arith);
    assert((nu * wy - uy * d) * (nu * wy - uy * d) == (nu * wy) * (nu * wy) - 2 * ((nu * wy) * (uy
        * d)) + (uy * d) * (uy * d)) by (nonlinear_arith);
    assert((nu * wx) * (nu * wx) == (nu * nu) * (wx * wx)) by (nonlinear_arith);
    assert((nu * wy) * (nu * wy) == (nu * nu) * (wy * wy)) by (nonlinear_arith);
    assert((nu * wx) * (ux * d) == (nu * d) * (ux * wx)) by (nonlinear_arith);
    assert((nu * wy) * (uy * d) == (nu * d) * (uy * wy)) by (nonlinear_arith);
    assert((ux * d) * (ux * d) == (d * d) * (ux * ux)) by (nonlinear_arith);
    assert((uy * d) * (uy * d) == (d * d) * (uy * uy)) by (nonlinear_arith);
    assert((nu * d) * (ux * wx) + (nu * d) * (uy * wy) == (nu * d) * d) by (nonlinear_arith)
        requires
            d == ux * wx + uy * wy,
    ;
    assert((nu * nu) * (wx * wx) + (nu * nu) * (wy * wy) == (nu * nu) * (wx * wx + wy * wy))
        by (nonlinear_arith);
    assert((d * d) * (ux * ux) + (d * d) * (uy * uy) == (d * d) * nu) by (nonlinear_arith)
        requires
            nu == ux * ux + uy * uy,
    ;
    assert((nu * nu) * (wx * wx + wy * wy) - 2 * ((nu * d) * d) + (d * d) * nu == nu * (nu * (wx
        * wx + wy * wy) - d * d)) by (nonlinear_arith);
}

/// Scalar core of the cross comparison between an edge's projection foot
/// and the corner opposite the edge: under the region's side condition
/// `u * e <= s * d` and Cauchy-Schwarz `s * s <= u * v`, the foot wins.
proof fn lemma_edge_beats_far_vertex(u: int, v: int, s: int, d: int, e: int)
    requires
        s * s <= u * v,
        u * e <= s * d,
    ensures
        u * v - 2 * (u * e) + d * d >= 0,
{
    assert(s * s - 2 * (s * d) + d * d == (s - d) * (s - d)) by (nonlinear_arith);
    assert((s - d) * (s - d) >= 0) by (nonlinear_arith);
}

/// One edge region of the closest-point case analysis: the exact rational
/// projection of the query point onto the edge from `(ex, ey)` along
/// `(ux, uy)` is no farther from the query point than either edge endpoint,
/// nor — under the region's side condition — than the corner
/// `(ex + sx, ey + sy)` opposite the edge.
proof fn lemma_edge_projection_beats_corners(
    px: int,
    py: int,
    ex: int,
    ey: int,
    ux: int,
    uy: int,
    sx: int,
    sy: int,
    qx: int,
    qy: int,
    den: int,
    d: int,
)
    requires
        den == ux * ux + uy * uy,
        d == ux * (px - ex) + uy * (py - ey),
        qx == ex * den + ux * d,
        qy == ey * den + uy * d,
        den * (sx * (px - ex) + sy * (py - ey)) <= (ux * sx + uy * sy) * d,
    ensures
        rat_no_farther(qx, qy, den, px, py, ex, ey),
        rat_no_farther(qx, qy, den, px, py, ex + ux, ey + uy),
        rat_no_farther(qx, qy, den, px, py, ex + sx, ey + sy),
{
    let wx = px - ex;
    let wy = py - ey;
    let nw = wx * wx + wy * wy;
    let nv = sx * sx + sy * sy;
    let sv = ux * sx + uy * sy;
    let mo = sx * wx + sy * wy;
    assert(den >= 0) by (nonlinear_arith)
        requires
            den == ux * ux + uy * uy,
    ;
    lemma_foot_identity(wx, wy, ux, uy, d, den);
    assert(qx - px * den == -(den * wx - ux * d)) by (nonlinear_arith)
        requires
            qx == ex * den + ux * d,
            wx == px - ex,
    ;
    assert(qy - py * den == -(den * wy - uy * d)) by (nonlinear_arith)
        requires
            qy == ey * den + uy * d,
            wy == py - ey,
    ;
    assert((qx - px * den) * (qx - px * den) == (den * wx - ux * d) * (den * wx - ux * d))
        by (nonlinear_arith)
        requires
            qx - px * den == -(den * wx - ux * d),
    ;
    assert((qy - py * den) * (qy - py * den) == (den * wy - uy * d) * (den * wy - uy * d))
        by (nonlinear_arith)
        requires
            qy - py * den == -(den * wy - uy * d),
    ;
    assert((qx - px * den) * (qx - px * den) + (qy - py * den) * (qy - py * den) == den * (den * nw
        - d * d));
    assert((ex - px) * (ex - px) + (ey - py) * (ey - py) == nw) by (nonlinear_arith)
        requires
            wx == px - ex,
            wy == py - ey,
            nw == wx * wx + wy * wy,
    ;
    assert(den * (den * nw - d * d) <= nw * (den * den)) by (nonlinear_arith)
        requires
            den >= 0,
    ;
    assert(rat_no_farther(qx, qy, den, px, py, ex, ey));
    assert(((ex + ux) - px) * ((ex + ux) - px) + ((ey + uy) - py) * ((ey + uy) - py) == nw - 2 * d
        + den) by (nonlinear_arith)
        requires
            wx == px - ex,
            wy == py - ey,
            nw == wx * wx + wy * wy,
            d == ux * wx + uy * wy,
            den == ux * ux + uy * uy,
    ;
    assert(den * (den * nw - d * d) <= (nw - 2 * d + den) * (den * den)) by (nonlinear_arith)
        requires
            den >= 0,
    ;
    assert(rat_no_farther(qx, qy, den, px, py, ex + ux, ey + uy));
    lemma_cauchy_schwarz(ux, uy, sx, sy);
    assert(((ex + sx) - px) * ((ex + sx) - px) + ((ey + sy) - py) * ((ey + sy) - py) == nw - 2 * mo
        + nv) by (nonlinear_arith)
        requires
            wx == px - ex,
            wy == py - ey,
            nw == wx * wx + wy * wy,
            mo == sx * wx + sy * wy,
            nv == sx * sx + sy * sy,
    ;
    assert(den * mo <= sv * d);
    lemma_edge_beats_far_vertex(den, nv, sv, d, mo);
    assert(den * (den * nw - d * d) <= (nw - 2 * mo + nv) * (den * den)) by (nonlinear_arith)
        requires
            den >= 0,
            den * nv - 2 * (den * mo) + d * d >= 0,
    ;
    assert(rat_no_farther(qx, qy, den, px, py, ex + sx, ey + sy));
}

/// A bounded form of the closest-point minimality: the point the case
/// analysis returns is never farther from the query point than any of the
/// triangle's three corners.  (Minimality over the whole hull is the
/// algorithm's geometric intent; the corner bound is the part stated and
/// proved here.)
pub proof fn lemma_closest_point_beats_corners(
    px: int,
    py: int,
    ax: int,
    ay: int,
    bx: int,
    by: int,
    cx: int,
    cy: int,
)
    ensures
        ({
            let q = closest_on_triangle(px, py, ax, ay, bx, by, cx, cy);
            &&& rat_no_farther(q.0, q.1, q.2, px, py, ax, ay)
            &&& rat_no_farther(q.0, q.1, q.2, px, py, bx, by)
            &&& rat_no_farther(q.0, q.1, q.2, px, py, cx, cy)
        }),
{
    let q = closest_on_triangle(px, py, ax, ay, bx, by, cx, cy);
    let ux = bx - ax;
    let uy = by - ay;
    let vx = cx - ax;
    let vy = cy - ay;
    let d1 = ux * (px - ax) + uy * (py - ay);
    let d2 = vx * (px - ax) + vy * (py - ay);
    let d3 = ux * (px - bx) + uy * (py - by);
    let d4 = vx * (px - bx) + vy * (py - by);
    let d5 = ux * (px - cx) + uy * (py - cy);
    let d6 = vx * (px - cx) + vy * (py - cy);
    let nu = ux * ux + uy * uy;
    let nv = vx * vx + vy * vy;
    let sv = ux * vx + uy * vy;
    let na = (ax - px) * (ax - px) + (ay - py) * (ay - py);
    let nb = (bx - px) * (bx - px) + (by - py) * (by - py);
    let nc = (cx - px) * (cx - px) + (cy - py) * (cy - py);
    assert(nu >= 0 && nv >= 0 && na >= 0 && nb >= 0 && nc >= 0) by (nonlinear_arith)
        requires
            nu == ux * ux + uy * uy,
            nv == vx * vx + vy * vy,
            na == (ax - px) * (ax - px) + (ay - py) * (ay - py),
            nb == (bx - px) * (bx - px) + (by - py) * (by - py),
            nc == (cx - px) * (cx - px) + (cy - py) * (cy - py),
    ;
    assert(d3 == d1 - nu) by (nonlinear_arith)
        requires
            ux == bx - ax,
            uy == by - ay,
            d1 == ux * (px - ax) + uy * (py - ay),
            d3 == ux * (px - bx) + uy * (py - by),
            nu == ux * ux + uy * uy,
    ;
    assert(d4 == d2 - sv) by (nonlinear_arith)
        requires
            ux == bx - ax,
            uy == by - ay,
            d2 == vx * (px - ax) + vy * (py - ay),
            d4 == vx * (px - bx) + vy * (py - by),
            sv == ux * vx + uy * vy,
    ;
    assert(d5 == d1 - sv) by (nonlinear_arith)
        requires
            vx == cx - ax,
            vy == cy - ay,
            d1 == ux * (px - ax) + uy * (py - ay),
            d5 == ux * (px - cx) + uy * (py - cy),
            sv == ux * vx + uy * vy,
    ;
    assert(d6 == d2 - nv) by (nonlinear_arith)
        requires
            vx == cx - ax,
            vy == cy - ay,
            d2 == vx * (px - ax) + vy * (py - ay),
            d6 == vx * (px - cx) + vy * (py - cy),
            nv == vx * vx + vy * vy,
    ;
    assert(nb - na == nu - 2 * d1) by (nonlinear_arith)
        requires
            ux == bx - ax,
            uy == by - ay,
            d1 == ux * (px - ax) + uy * (py - ay),
            nu == ux * ux + uy * uy,
            na == (ax - px) * (ax - px) + (ay - py) * (ay - py),
            nb == (bx - px) * (bx - px) + (by - py) * (by - py),
    ;
    assert(nc - na == nv - 2 * d2) by (nonlinear_arith)
        requires
            vx == cx - ax,
            vy == cy - ay,
            d2 == vx * (px - ax) + vy * (py - ay),
            nv == vx * vx + vy * vy,
            na == (ax - px) * (ax - px) + (ay - py) * (ay - py),
            nc == (cx - px) * (cx - px) + (cy - py) * (cy - py),
    ;
    assert(nu - 2 * sv + nv >= 0) by (nonlinear_arith)
        requires
            nu == ux * ux + uy * uy,
            nv == vx * vx + vy * vy,
            sv == ux * vx + uy * vy,
    ;
    if d1 <= 0 && d2 <= 0 {
        lemma_point_no_farther(ax, ay, px, py, ax, ay);
        lemma_point_no_farther(ax, ay, px, py, bx, by);
        lemma_point_no_farther(ax, ay, px, py, cx, cy);
    } else if d3 >= 0 && d4 <= d3 {
        lemma_point_no_farther(bx, by, px, py, bx, by);
        lemma_point_no_farther(bx, by, px, py, ax, ay);
        assert(nc - nb == 2 * (d3 - d4) + (nu - 2 * sv + nv));
        lemma_point_no_farther(bx, by, px, py, cx, cy);
    } else if d1 >= 0 && d3 <= 0 && d1 * d4 - d3 * d2 <= 0 && d1 - d3 > 0 {
        assert(d1 * d4 - d3 * d2 == nu * d2 - sv * d1) by (nonlinear_arith)
            requires
                d4 == d2 - sv,
                d3 == d1 - nu,
        ;
        assert(q.2 == nu && q.0 == ax * q.2 + ux * d1 && q.1 == ay * q.2 + uy * d1);
        lemma_edge_projection_beats_corners(
            px,
            py,
            ax,
            ay,
            ux,
            uy,
            vx,
            vy,
            q.0,
            q.1,
            q.2,
            d1,
        );
        assert(ax + ux == bx && ay + uy == by && ax + vx == cx && ay + vy == cy);
    } else if d6 >= 0 && d5 <= d6 {
        lemma_point_no_farther(cx, cy, px, py, cx, cy);
        lemma_point_no_farther(cx, cy, px, py, ax, ay);
        assert(nb - nc == 2 * (d6 - d5) + (nu - 2 * sv + nv));
        lemma_point_no_farther(cx, cy, px, py, bx, by);
    } else if d2 >= 0 && d6 <= 0 && d5 * d2 - d1 * d6 <= 0 && d2 - d6 > 0 {
        assert(d5 * d2 - d1 * d6 == nv * d1 - sv * d2) by (nonlinear_arith)
            requires
                d5 == d1 - sv,
                d6 == d2 - nv,
        ;
        assert(q.2 == nv && q.0 == ax * q.2 + vx * d2 && q.1 == ay * q.2 + vy * d2);
        lemma_edge_projection_beats_corners(
            px,
            py,
            ax,
            ay,
            vx,
            vy,
            ux,
            uy,
            q.0,
            q.1,
            q.2,
            d2,
        );
        assert(ax + vx == cx && ay + vy == cy && ax + ux == bx && ay + uy == by);
    } else if d3 * d6 - d5 * d4 <= 0 && d4 - d3 >= 0 && d5 - d6 >= 0 && (d4 - d3) + (d5 - d6)
        > 0 {
        let rx = cx - bx;
        let ry = cy - by;
        let sx = ax - bx;
        let sy = ay - by;
        let g = d4 - d3;
        let w2 = nu - 2 * sv + nv;
        let t2 = nu - sv;
        assert(w2 == rx * rx + ry * ry) by (nonlinear_arith)
            requires
                ux == bx - ax,
                uy == by - ay,
                vx == cx - ax,
                vy == cy - ay,
                rx == cx - bx,
                ry == cy - by,
                nu == ux * ux + uy * uy,
                nv == vx * vx + vy * vy,
                sv == ux * vx + uy * vy,
                w2 == nu - 2 * sv + nv,
        ;
        assert(t2 == rx * sx + ry * sy) by (nonlinear_arith)
            requires
                ux == bx - ax,
                uy == by - ay,
                vx == cx - ax,
                vy == cy - ay,
                rx == cx - bx,
                ry == cy - by,
                sx == ax - bx,
                sy == ay - by,
                nu == ux * ux + uy * uy,
                sv == ux * vx + uy * vy,
                t2 == nu - sv,
        ;
        assert(g == rx * (px - bx) + ry * (py - by)) by (nonlinear_arith)
            requires
                rx == cx - bx,
                ry == cy - by,
                g == d4 - d3,
                d3 == ux * (px - bx) + uy * (py - by),
                d4 == vx * (px - bx) + vy * (py - by),
                ux == bx - ax,
                uy == by - ay,
                vx == cx - ax,
                vy == cy - ay,
        ;
        assert(sx * (px - bx) + sy * (py - by) == -d3) by (nonlinear_arith)
            requires
                sx == ax - bx,
                sy == ay - by,
                ux == bx - ax,
                uy == by - ay,
                d3 == ux * (px - bx) + uy * (py - by),
        ;
        assert(d3 * d6 - d5 * d4 == -(w2 * d3) - t2 * g) by (nonlinear_arith)
            requires
                d3 == d1 - nu,
                d4 == d2 - sv,
                d5 == d1 - sv,
                d6 == d2 - nv,
                w2 == nu - 2 * sv + nv,
                t2 == nu - sv,
                g == d4 - d3,
        ;
        assert(w2 * (-d3) <= t2 * g) by (nonlinear_arith)
            requires
                -(w2 * d3) - t2 * g <= 0,
        ;
        assert(w2 * (sx * (px - bx) + sy * (py - by)) <= (rx * sx + ry * sy) * g)
            by (nonlinear_arith)
            requires
                w2 * (-d3) <= t2 * g,
                sx * (px - bx) + sy * (py - by) == -d3,
                t2 == rx * sx + ry * sy,
        ;
        assert(q.2 == w2 && q.0 == bx * q.2 + rx * g && q.1 == by * q.2 + ry * g);
        lemma_edge_projection_beats_corners(
            px,
            py,
            bx,
            by,
            rx,
            ry,
            sx,
            sy,
            q.0,
            q.1,
            q.2,
            g,
        );
        assert(bx + rx == cx && by + ry == cy && bx + sx == ax && by + sy == ay);
    } else {
        lemma_point_no_farther(px, py, px, py, ax, ay);
        lemma_point_no_farther(px, py, px, py, bx, by);
        lemma_point_no_farther(px, py, px, py, cx, cy);
    }
}

/// The rational point `(qx / den, qy / den)` lies within distance `r` of
/// `(cx, cy)`: compared with everything scaled by `den`, so the test is
/// exact.
pub open spec fn in_circle_rat(qx: int, qy: int, den: int, cx: int, cy: int, r: int) -> bool {
    (qx - cx * den) * (qx - cx * den) + (qy - cy * den) * (qy - cy * den) <= (r * den) * (r * den)
}

/// The exact ship-vs-asteroid test: the cheap bounding-circle check, then
/// the closest point of the ship's hull tested against the asteroid's
/// circle.
pub open spec fn player_hits(p: Player, a: Asteroid) -> bool {
    let va = vertex_a(p.position, p.heading);
    let vb = vertex_b(p.position, p.heading);
    let vc = vertex_c(p.position, p.heading);
    let q = closest_on_triangle(
        a.position.x as int,
        a.position.y as int,
        va.0,
        va.1,
        vb.0,
        vb.1,
        vc.0,
        vc.1,
    );
    &&& dist_sq(
        p.position.x as int,
        p.position.y as int,
        a.position.x as int,
        a.position.y as int,
    ) <= PLAYER_SIZE * PLAYER_SIZE
    &&& in_circle_rat(
        q.0,
        q.1,
        q.2,
        a.position.x as int,
        a.position.y as int,
        radius_spec(a.lives),
    )
}

#[derive(Clone, Copy)]
pub struct Player {
    pub position: Vec2i,
    /// `(sin r, cos r)` of the rotation angle `r`, scaled by `DIR_ONE`.
    pub heading: Vec2i,
    pub velocity: Vec2i,
    pub thrusting: bool,
    pub lives: u32,
}

impl Player {
    /// On screen, heading near its nominal magnitude, velocity within the
    /// speed of light.
    pub open spec fn wf(self) -> bool {
        &&& 0 <= self.position.x <= MAX_BOUND
        &&& 0 <= self.position.y <= MAX_BOUND
        &&& heading_ok(self.heading)
        &&& -SPEED_OF_LIGHT <= self.velocity.x <= SPEED_OF_LIGHT
        &&& -SPEED_OF_LIGHT <= self.velocity.y <= SPEED_OF_LIGHT
    }

    /// A fresh ship: at the screen center, pointing straight up, at rest.
    pub fn new(bounds: &Bounds) -> (p: Player)
        requires
            bounds.wf(),
        ensures
            p.wf(),
            p.position.x == bounds.width as int / 2,
            p.position.y == bounds.height as int / 2,
            p.heading.x == 0,
            p.heading.y == DIR_ONE,
            p.velocity.x == 0 && p.velocity.y == 0,
            p.thrusting == false,
            p.lives == 3,
    {
        Player {
            position: screen_center(bounds),
            heading: Vec2i { x: 0, y: DIR_ONE },
            velocity: Vec2i::zero(),
            thrusting: false,
            lives: 3,
        }
    }

    /// One rotation step clockwise, renormalized.
    pub fn rotate_right(&mut self)
        requires
            old(self).wf(),
        ensures
            (final(self).heading.x as int, final(self).heading.y as int) == renorm_spec(
                rot_right_spec(old(self).heading).0,
                rot_right_spec(old(self).heading).1,
            ),
            final(self).position == old(self).position,
            final(self).velocity == old(self).velocity,
            final(self).thrusting == old(self).thrusting,
            final(self).lives == old(self).lives,
            final(self).wf(),
    {
        let hx = self.heading.x;
        let hy = self.heading.y;
        proof {
            lemma_heading_component_bound(self.heading);
            lemma_abs_mul_le(hx as int, ROT_COS as int, 2 * DIR_ONE as int, ROT_COS as int);
            lemma_abs_mul_le(hy as int, ROT_SIN as int, 2 * DIR_ONE as int, ROT_SIN as int);
            lemma_abs_mul_le(hy as int, ROT_COS as int, 2 * DIR_ONE as int, ROT_COS as int);
            lemma_abs_mul_le(hx as int, ROT_SIN as int, 2 * DIR_ONE as int, ROT_SIN as int);
            lemma_tdiv_bound(
                hx as int * ROT_COS + hy as int * ROT_SIN,
                DIR_ONE as int,
                3 * DIR_ONE as int,
            );
            lemma_tdiv_bound(
                hy as int * ROT_COS - hx as int * ROT_SIN,
                DIR_ONE as int,
                3 * DIR_ONE as int,
            );
        }
        let nx = tdiv64(hx * ROT_COS + hy * ROT_SIN, DIR_ONE);
        let ny = tdiv64(hy * ROT_COS - hx * ROT_SIN, DIR_ONE);
        self.heading = renorm_heading(nx, ny);
    }

    /// One rotation step counterclockwise, renormalized.
    pub fn rotate_left(&mut self)
        requires
            old(self).wf(),
        ensures
            (final(self).heading.x as int, final(self).heading.y as int) == renorm_spec(
                rot_left_spec(old(self).heading).0,
                rot_left_spec(old(self).heading).1,
            ),
            final(self).position == old(self).position,
            final(self).velocity == old(self).velocity,
            final(self).thrusting == old(self).thrusting,
            final(self).lives == old(self).lives,
            final(self).wf(),
    {
        let hx = self.heading.x;
        let hy = self.heading.y;
        proof {
            lemma_heading_component_bound(self.heading);
            lemma_abs_mul_le(hx as int, ROT_COS as int, 2 * DIR_ONE as int, ROT_COS as int);
            lemma_abs_mul_le(hy as int, ROT_SIN as int, 2 * DIR_ONE as int, ROT_SIN as int);
            lemma_abs_mul_le(hy as int, ROT_COS as int, 2 * DIR_ONE as int, ROT_COS as int);
            lemma_abs_mul_le(hx as int, ROT_SIN as int, 2 * DIR_ONE as int, ROT_SIN as int);
            lemma_tdiv_bound(
                hx as int * ROT_COS - hy as int * ROT_SIN,
                DIR_ONE as int,
                3 * DIR_ONE as int,
            );
            lemma_tdiv_bound(
                hy as int * ROT_COS + hx as int * ROT_SIN,
                DIR_ONE as int,
                3 * DIR_ONE as int,
            );
        }
        let nx = tdiv64(hx * ROT_COS - hy * ROT_SIN, DIR_ONE);
        let ny = tdiv64(hy * ROT_COS + hx * ROT_SIN, DIR_ONE);
        self.heading = renorm_heading(nx, ny);
    }

    /// One frame of thrust along the heading, with each velocity component
    /// clamped to the speed of light: however often thrust is applied, the
    /// velocity stays within `[-SPEED_OF_LIGHT, SPEED_OF_LIGHT]` per axis.
    pub fn thrust(&mut self)
        requires
            old(self).wf(),
        ensures
            final(self).velocity.x == clamp_spec(
                old(self).velocity.x + tdiv(old(self).heading.x * SHIP_THRUST, DIR_ONE as int),
                -SPEED_OF_LIGHT as int,
                SPEED_OF_LIGHT as int,
            ),
            final(self).velocity.y == clamp_spec(
                old(self).velocity.y - tdiv(old(self).heading.y * SHIP_THRUST, DIR_ONE as int),
                -SPEED_OF_LIGHT as int,
                SPEED_OF_LIGHT as int,
            ),
            -SPEED_OF_LIGHT <= final(self).velocity.x <= SPEED_OF_LIGHT,
            -SPEED_OF_LIGHT <= final(self).velocity.y <= SPEED_OF_LIGHT,
            final(self).thrusting == true,
            final(self).position == old(self).position,
            final(self).heading == old(self).heading,
            final(self).lives == old(self).lives,
            final(self).wf(),
    {
        let hx = self.heading.x;
        let hy = self.heading.y;
        proof {
            lemma_heading_component_bound(self.heading);
            lemma_abs_mul_le(hx as int, SHIP_THRUST as int, 2 * DIR_ONE as int, SHIP_THRUST as int);
            lemma_abs_mul_le(hy as int, SHIP_THRUST as int, 2 * DIR_ONE as int, SHIP_THRUST as int);
            lemma_tdiv_bound(hx as int * SHIP_THRUST, DIR_ONE as int, 2 * SHIP_THRUST as int);
            lemma_tdiv_bound(hy as int * SHIP_THRUST, DIR_ONE as int, 2 * SHIP_THRUST as int);
        }
        let ax = tdiv64(hx * SHIP_THRUST, DIR_ONE);
        let ay = tdiv64(hy * SHIP_THRUST, DIR_ONE);
        self.velocity.x = clamp_i64(self.velocity.x + ax, -SPEED_OF_LIGHT, SPEED_OF_LIGHT);
        self.velocity.y = clamp_i64(self.velocity.y - ay, -SPEED_OF_LIGHT, SPEED_OF_LIGHT);
        self.thrusting = true;
    }

    /// The velocity of a laser fired along the current heading.
    pub fn laser_velocity(&self) -> (v: Vec2i)
        requires
            heading_ok(self.heading),
        ensures
            v.x == tdiv(self.heading.x * LASER_SPEED, DIR_ONE as int),
            v.y == -tdiv(self.heading.y * LASER_SPEED, DIR_ONE as int),
            -LASER_V_LIMIT <= v.x <= LASER_V_LIMIT,
            -LASER_V_LIMIT <= v.y <= LASER_V_LIMIT,
    {
        let hx = self.heading.x;
        let hy = self.heading.y;
        proof {
            lemma_heading_component_bound(self.heading);
            lemma_abs_mul_le(hx as int, LASER_SPEED as int, 2 * DIR_ONE as int, LASER_SPEED as int);
            lemma_abs_mul_le(hy as int, LASER_SPEED as int, 2 * DIR_ONE as int, LASER_SPEED as int);
            lemma_tdiv_bound(hx as int * LASER_SPEED, DIR_ONE as int, 2 * LASER_SPEED as int);
            lemma_tdiv_bound(hy as int * LASER_SPEED, DIR_ONE as int, 2 * LASER_SPEED as int);
        }
        let vx = tdiv64(hx * LASER_SPEED, DIR_ONE);
        let vy = tdiv64(hy * LASER_SPEED, DIR_ONE);
        Vec2i { x: vx, y: -vy }
    }

    /// One frame of movement: drift by the velocity, then wrap to the
    /// screen.
    pub fn update(&mut self, bounds: &Bounds)
        requires
            old(self).wf(),
            bounds.wf(),
        ensures
            final(self).position.x == wrap_coord(
                old(self).position.x + old(self).velocity.x,
                bounds.width as int,
            ),
            final(self).position.y == wrap_coord(
                old(self).position.y + old(self).velocity.y,
                bounds.height as int,
            ),
            final(self).heading == old(self).heading,
            final(self).velocity == old(self).velocity,
            final(self).thrusting == old(self).thrusting,
            final(self).lives == old(self).lives,
            final(self).wf(),
            0 <= final(self).position.x <= bounds.width,
            0 <= final(self).position.y <= bounds.height,
    {
        self.position.x = self.position.x + self.velocity.x;
        self.position.y = self.position.y + self.velocity.y;
        wrap_around(&mut self.position, bounds);
    }

    /// The three vertices of the ship's triangular hull, derived from the
    /// position and heading by the fixed angular offsets of the hull.
    pub fn get_vertices(position: &Vec2i, heading: &Vec2i) -> (v: (Vec2i, Vec2i, Vec2i))
        requires
            heading_ok(*heading),
            -MAX_BOUND <= position.x <= MAX_BOUND,
            -MAX_BOUND <= position.y <= MAX_BOUND,
        ensures
            (v.0.x as int, v.0.y as int) == vertex_a(*position, *heading),
            (v.1.x as int, v.1.y as int) == vertex_b(*position, *heading),
            (v.2.x as int, v.2.y as int) == vertex_c(*position, *heading),
            -VERTEX_OFFSET_LIMIT <= v.0.x - position.x <= VERTEX_OFFSET_LIMIT,
            -VERTEX_OFFSET_LIMIT <= v.0.y - position.y <= VERTEX_OFFSET_LIMIT,
            -VERTEX_OFFSET_LIMIT <= v.1.x - position.x <= VERTEX_OFFSET_LIMIT,
            -VERTEX_OFFSET_LIMIT <= v.1.y - position.y <= VERTEX_OFFSET_LIMIT,
            -VERTEX_OFFSET_LIMIT <= v.2.x - position.x <= VERTEX_OFFSET_LIMIT,
            -VERTEX_OFFSET_LIMIT <= v.2.y - position.y <= VERTEX_OFFSET_LIMIT,
            (PLAYER_SIZE - 10) * (PLAYER_SIZE - 10) <= dist_sq(
                v.0.x as int,
                v.0.y as int,
                position.x as int,
                position.y as int,
            ) <= (PLAYER_SIZE + 10) * (PLAYER_SIZE + 10),
            (PLAYER_SIZE - 10) * (PLAYER_SIZE - 10) <= dist_sq(
                v.1.x as int,
                v.1.y as int,
                position.x as int,
                position.y as int,
            ) <= (PLAYER_SIZE + 10) * (PLAYER_SIZE + 10),
            (PLAYER_SIZE - 10) * (PLAYER_SIZE - 10) <= dist_sq(
                v.2.x as int,
                v.2.y as int,
                position.x as int,
                position.y as int,
            ) <= (PLAYER_SIZE + 10) * (PLAYER_SIZE + 10),
    {
        let hx = heading.x;
        let hy = heading.y;
        proof {
            lemma_heading_component_bound(*heading);
            lemma_abs_mul_le(hx as int, PLAYER_SIZE as int, 2 * DIR_ONE as int, PLAYER_SIZE as int);
            lemma_abs_mul_le(hy as int, PLAYER_SIZE as int, 2 * DIR_ONE as int, PLAYER_SIZE as int);
            lemma_tdiv_bound(hx as int * PLAYER_SIZE, DIR_ONE as int, 2 * PLAYER_SIZE as int);
            lemma_tdiv_bound(hy as int * PLAYER_SIZE, DIR_ONE as int, 2 * PLAYER_SIZE as int);
            lemma_abs_mul_le(
                HALF_SQRT2 as int,
                hx as int + hy as int,
                HALF_SQRT2 as int,
                4 * DIR_ONE as int,
            );
            lemma_abs_mul_le(
                HALF_SQRT2 as int * (hx as int + hy as int),
                PLAYER_SIZE as int,
                HALF_SQRT2 as int * (4 * DIR_ONE as int),
                PLAYER_SIZE as int,
            );
            lemma_abs_mul_le(
                HALF_SQRT2 as int,
                hy as int - hx as int,
                HALF_SQRT2 as int,
                4 * DIR_ONE as int,
            );
            lemma_abs_mul_le(
                HALF_SQRT2 as int * (hy as int - hx as int),
                PLAYER_SIZE as int,
                HALF_SQRT2 as int * (4 * DIR_ONE as int),
                PLAYER_SIZE as int,
            );
            lemma_tdiv_bound(
                HALF_SQRT2 as int * (hx as int + hy as int) * PLAYER_SIZE,
                DIR_ONE_SQ as int,
                VERTEX_OFFSET_LIMIT as int,
            );
            lemma_tdiv_bound(
                HALF_SQRT2 as int * (hy as int - hx as int) * PLAYER_SIZE,
                DIR_ONE_SQ as int,
                VERTEX_OFFSET_LIMIT as int,
            );
        }
        let off_ax = tdiv64(hx * PLAYER_SIZE, DIR_ONE);
        let off_ay = tdiv64(hy * PLAYER_SIZE, DIR_ONE);
        let sum = hx + hy;
        let diff = hy - hx;
        let off_b = tdiv64(HALF_SQRT2 * sum * PLAYER_SIZE, DIR_ONE_SQ);
        let off_d = tdiv64(HALF_SQRT2 * diff * PLAYER_SIZE, DIR_ONE_SQ);
        proof {
            assert(-65_542 <= hx <= 65_542 && -65_542 <= hy <= 65_542) by (nonlinear_arith)
                requires
                    hx as int * hx as int + hy as int * hy as int <= (DIR_ONE + 6) * (DIR_ONE + 6),
                    DIR_ONE == 65536,
            ;
            lemma_vertex_a_window(hx as int, hy as int, off_ax as int, off_ay as int);
            lemma_vertex_bc_window(hx as int, hy as int, off_b as int, off_d as int);
            assert((-(off_ay as int)) * (-(off_ay as int)) == off_ay as int * off_ay as int
                && (-(off_b as int)) * (-(off_b as int)) == off_b as int * off_b as int)
                by (nonlinear_arith);
        }
        let va = Vec2i { x: position.x + off_ax, y: position.y - off_ay };
        let vb = Vec2i { x: position.x - off_b, y: position.y + off_d };
        let vc = Vec2i { x: position.x + off_d, y: position.y + off_b };
        (va, vb, vc)
    }

    /// The closest point of triangle `a b c` to `p`, as an exact rational
    /// point scaled by a positive denominator.
    pub fn point_on_triangle(p: Vec2i, a: Vec2i, b: Vec2i, c: Vec2i) -> (q: (i128, i128, i128))
        requires
            tri_input_ok(p, a, b, c),
        ensures
            (q.0 as int, q.1 as int, q.2 as int) == closest_on_triangle(
                p.x as int,
                p.y as int,
                a.x as int,
                a.y as int,
                b.x as int,
                b.y as int,
                c.x as int,
                c.y as int,
            ),
            1 <= q.2 <= DEN_LIMIT,
            -2 * TRI_SPAN * q.2 <= q.0 - p.x * q.2 <= 2 * TRI_SPAN * q.2,
            -2 * TRI_SPAN * q.2 <= q.1 - p.y * q.2 <= 2 * TRI_SPAN * q.2,
    {
        closest_point_impl(p, a, b, c)
    }

    /// The rational point `q` lies within distance `r` of the circle center
    /// `c`; exact, everything scaled by the denominator.
    pub fn point_in_circle(q: (i128, i128, i128), c: Vec2i, r: i64) -> (inside: bool)
        requires
            1 <= q.2 <= DEN_LIMIT,
            -2 * TRI_SPAN * q.2 <= q.0 - c.x * q.2 <= 2 * TRI_SPAN * q.2,
            -2 * TRI_SPAN * q.2 <= q.1 - c.y * q.2 <= 2 * TRI_SPAN * q.2,
            -TRI_COORD_LIMIT <= c.x <= TRI_COORD_LIMIT,
            -TRI_COORD_LIMIT <= c.y <= TRI_COORD_LIMIT,
            0 <= r <= R_LIMIT,
        ensures
            inside == in_circle_rat(
                q.0 as int,
                q.1 as int,
                q.2 as int,
                c.x as int,
                c.y as int,
                r as int,
            ),
    {
        proof {
            lemma_abs_mul_le(c.x as int, q.2 as int, TRI_COORD_LIMIT as int, DEN_LIMIT as int);
            lemma_abs_mul_le(c.y as int, q.2 as int, TRI_COORD_LIMIT as int, DEN_LIMIT as int);
            lemma_abs_mul_le(r as int, q.2 as int, R_LIMIT as int, DEN_LIMIT as int);
            assert(TRI_COORD_LIMIT as int * DEN_LIMIT as int <= 3_000_000_000_000_000_000
                && R_LIMIT as int * DEN_LIMIT as int <= 12_000_000_000_000_000_000 && 2
                * TRI_SPAN as int * q.2 as int <= 100_000_000_000_000_000 && -2
                * TRI_SPAN as int * q.2 as int >= -100_000_000_000_000_000) by (nonlinear_arith)
                requires
                    1 <= q.2 <= DEN_LIMIT,
                    TRI_COORD_LIMIT == 16_777_216,
                    TRI_SPAN == 262_144,
                    DEN_LIMIT == 137_438_953_472,
                    R_LIMIT == 82_000_000,
            ;
        }
        let ex: i128 = q.0 - c.x as i128 * q.2;
        let ey: i128 = q.1 - c.y as i128 * q.2;
        let rd: i128 = r as i128 * q.2;
        proof {
            lemma_abs_mul_le(
                ex as int,
                ex as int,
                100_000_000_000_000_000,
                100_000_000_000_000_000,
            );
            lemma_abs_mul_le(
                ey as int,
                ey as int,
                100_000_000_000_000_000,
                100_000_000_000_000_000,
            );
            lemma_abs_mul_le(
                rd as int,
                rd as int,
                12_000_000_000_000_000_000,
                12_000_000_000_000_000_000,
            );
            assert(ex as int * ex as int >= 0 && ey as int * ey as int >= 0) by (nonlinear_arith);
        }
        ex * ex + ey * ey <= rd * rd
    }

    /// The cheap broad-phase gate: is the asteroid's center within the
    /// ship's bounding circle?
    pub fn collide_check(&self, asteroid: &Asteroid) -> (near: bool)
        requires
            self.wf(),
            asteroid.wf(),
        ensures
            near == (dist_sq(
                self.position.x as int,
                self.position.y as int,
                asteroid.position.x as int,
                asteroid.position.y as int,
            ) <= PLAYER_SIZE * PLAYER_SIZE),
    {
        let d = dist_sq_i128(&self.position, &asteroid.position);
        d <= (PLAYER_SIZE * PLAYER_SIZE) as i128
    }

    /// The two-phase ship-vs-asteroid collision test: the bounding-circle
    /// gate, then the exact closest-point-on-triangle test.
    pub fn collides(&self, asteroid: &Asteroid) -> (hit: bool)
        requires
            self.wf(),
            asteroid.wf(),
        ensures
            hit == player_hits(*self, *asteroid),
    {
        if self.collide_check(asteroid) {
            proof {
                let px = self.position.x as int;
                let ax = asteroid.position.x as int;
                let py = self.position.y as int;
                let ay = asteroid.position.y as int;
                assert((px - ax) * (px - ax) >= 0 && (py - ay) * (py - ay) >= 0)
                    by (nonlinear_arith);
                assert(-PLAYER_SIZE <= px - ax <= PLAYER_SIZE && -PLAYER_SIZE <= py - ay
                    <= PLAYER_SIZE) by (nonlinear_arith)
                    requires
                        (px - ax) * (px - ax) + (py - ay) * (py - ay) <= PLAYER_SIZE * PLAYER_SIZE,
                        (px - ax) * (px - ax) >= 0,
                        (py - ay) * (py - ay) >= 0,
                        PLAYER_SIZE == 25_000,
                ;
            }
            let (va, vb, vc) = Player::get_vertices(&self.position, &self.heading);
            let q = Player::point_on_triangle(asteroid.position, va, vb, vc);
            Player::point_in_circle(q, asteroid.position, asteroid.radius())
        } else {
            false
        }
    }
}

impl Default for Player {
    /// A fresh ship on the default viewport: exactly `Player::new` there.
    fn default() -> (p: Player)
        ensures
            p.wf(),
            p.position.x == crate::consts::DEFAULT_WIDTH as int / 2,
            p.position.y == crate::consts::DEFAULT_HEIGHT as int / 2,
            p.heading.x == 0 && p.heading.y == DIR_ONE,
            p.velocity.x == 0 && p.velocity.y == 0,
            p.thrusting == false,
            p.lives == 3,
    {
        Player::new(&Bounds::default())
    }
}

/// The Voronoi-region case analysis behind `Player::point_on_triangle`.
#[verifier::rlimit(40)]
fn closest_point_impl(p: Vec2i, a: Vec2i, b: Vec2i, c: Vec2i) -> (q: (i128, i128, i128))
    requires
        tri_input_ok(p, a, b, c),
    ensures
        (q.0 as int, q.1 as int, q.2 as int) == closest_on_triangle(
            p.x as int,
            p.y as int,
            a.x as int,
            a.y as int,
            b.x as int,
            b.y as int,
            c.x as int,
            c.y as int,
        ),
        1 <= q.2 <= DEN_LIMIT,
        -2 * TRI_SPAN * q.2 <= q.0 - p.x * q.2 <= 2 * TRI_SPAN * q.2,
        -2 * TRI_SPAN * q.2 <= q.1 - p.y * q.2 <= 2 * TRI_SPAN * q.2,
{
    let ghost s = TRI_SPAN as int;
    let ghost dl = DEN_LIMIT as int;
    let px = p.x as i128;
    let py = p.y as i128;
    let ax = a.x as i128;
    let ay = a.y as i128;
    let bx = b.x as i128;
    let by = b.y as i128;
    let cx = c.x as i128;
    let cy = c.y as i128;
    let abx = bx - ax;
    let aby = by - ay;
    let acx = cx - ax;
    let acy = cy - ay;
    let apx = px - ax;
    let apy = py - ay;
    proof {
        lemma_abs_mul_le(abx as int, apx as int, s, s);
        lemma_abs_mul_le(aby as int, apy as int, s, s);
        lemma_abs_mul_le(acx as int, apx as int, s, s);
        lemma_abs_mul_le(acy as int, apy as int, s, s);
    }
    let d1 = abx * apx + aby * apy;
    let d2 = acx * apx + acy * apy;
    if d1 <= 0 && d2 <= 0 {
        return (ax, ay, 1);
    }
    let bpx = px - bx;
    let bpy = py - by;
    proof {
        lemma_abs_mul_le(abx as int, bpx as int, s, s);
        lemma_abs_mul_le(aby as int, bpy as int, s, s);
        lemma_abs_mul_le(acx as int, bpx as int, s, s);
        lemma_abs_mul_le(acy as int, bpy as int, s, s);
    }
    let d3 = abx * bpx + aby * bpy;
    let d4 = acx * bpx + acy * bpy;
    if d3 >= 0 && d4 <= d3 {
        return (bx, by, 1);
    }
    proof {
        lemma_abs_mul_le(d1 as int, d4 as int, 2 * s * s, 2 * s * s);
        lemma_abs_mul_le(d3 as int, d2 as int, 2 * s * s, 2 * s * s);
    }
    if d1 >= 0 && d3 <= 0 && d1 * d4 - d3 * d2 <= 0 && d1 - d3 > 0 {
        let den = d1 - d3;
        proof {
            assert(den == abx * abx + aby * aby) by (nonlinear_arith)
                requires
                    den == d1 - d3,
                    d1 == abx * apx + aby * apy,
                    d3 == abx * bpx + aby * bpy,
                    apx - bpx == abx,
                    apy - bpy == aby,
            ;
            lemma_abs_mul_le(abx as int, abx as int, s, s);
            lemma_abs_mul_le(aby as int, aby as int, s, s);
            lemma_abs_mul_le(a.x as int, den as int, TRI_COORD_LIMIT as int, dl);
            lemma_abs_mul_le(a.y as int, den as int, TRI_COORD_LIMIT as int, dl);
            lemma_abs_mul_le(abx as int, d1 as int, s, dl);
            lemma_abs_mul_le(aby as int, d1 as int, s, dl);
        }
        let qx = ax * den + abx * d1;
        let qy = ay * den + aby * d1;
        proof {
            lemma_span_bound(qx as int, px as int, ax as int, abx as int, den as int, d1 as int, s);
            lemma_span_bound(qy as int, py as int, ay as int, aby as int, den as int, d1 as int, s);
        }
        return (qx, qy, den);
    }
    let cpx = px - cx;
    let cpy = py - cy;
    proof {
        lemma_abs_mul_le(abx as int, cpx as int, s, s);
        lemma_abs_mul_le(aby as int, cpy as int, s, s);
        lemma_abs_mul_le(acx as int, cpx as int, s, s);
        lemma_abs_mul_le(acy as int, cpy as int, s, s);
    }
    let d5 = abx * cpx + aby * cpy;
    let d6 = acx * cpx + acy * cpy;
    if d6 >= 0 && d5 <= d6 {
        return (cx, cy, 1);
    }
    proof {
        lemma_abs_mul_le(d5 as int, d2 as int, 2 * s * s, 2 * s * s);
        lemma_abs_mul_le(d1 as int, d6 as int, 2 * s * s, 2 * s * s);
    }
    if d2 >= 0 && d6 <= 0 && d5 * d2 - d1 * d6 <= 0 && d2 - d6 > 0 {
        let den = d2 - d6;
        proof {
            assert(den == acx * acx + acy * acy) by (nonlinear_arith)
                requires
                    den == d2 - d6,
                    d2 == acx * apx + acy * apy,
                    d6 == acx * cpx + acy * cpy,
                    apx - cpx == acx,
                    apy - cpy == acy,
            ;
            lemma_abs_mul_le(acx as int, acx as int, s, s);
            lemma_abs_mul_le(acy as int, acy as int, s, s);
            lemma_abs_mul_le(a.x as int, den as int, TRI_COORD_LIMIT as int, dl);
            lemma_abs_mul_le(a.y as int, den as int, TRI_COORD_LIMIT as int, dl);
            lemma_abs_mul_le(acx as int, d2 as int, s, dl);
            lemma_abs_mul_le(acy as int, d2 as int, s, dl);
        }
        let qx = ax * den + acx * d2;
        let qy = ay * den + acy * d2;
        proof {
            lemma_span_bound(qx as int, px as int, ax as int, acx as int, den as int, d2 as int, s);
            lemma_span_bound(qy as int, py as int, ay as int, acy as int, den as int, d2 as int, s);
        }
        return (qx, qy, den);
    }
    proof {
        lemma_abs_mul_le(d3 as int, d6 as int, 2 * s * s, 2 * s * s);
        lemma_abs_mul_le(d5 as int, d4 as int, 2 * s * s, 2 * s * s);
    }
    if d3 * d6 - d5 * d4 <= 0 && d4 - d3 >= 0 && d5 - d6 >= 0 && (d4 - d3) + (d5 - d6) > 0 {
        let num = d4 - d3;
        let den = num + (d5 - d6);
        let bcx = cx - bx;
        let bcy = cy - by;
        proof {
            assert(den == bcx * bcx + bcy * bcy) by (nonlinear_arith)
                requires
                    den == (d4 - d3) + (d5 - d6),
                    d3 == abx * bpx + aby * bpy,
                    d4 == acx * bpx + acy * bpy,
                    d5 == abx * cpx + aby * cpy,
                    d6 == acx * cpx + acy * cpy,
                    acx - abx == bcx,
                    acy - aby == bcy,
                    bpx - cpx == bcx,
                    bpy - cpy == bcy,
            ;
            lemma_abs_mul_le(bcx as int, bcx as int, s, s);
            lemma_abs_mul_le(bcy as int, bcy as int, s, s);
            lemma_abs_mul_le(b.x as int, den as int, TRI_COORD_LIMIT as int, dl);
            lemma_abs_mul_le(b.y as int, den as int, TRI_COORD_LIMIT as int, dl);
            lemma_abs_mul_le(bcx as int, num as int, s, dl);
            lemma_abs_mul_le(bcy as int, num as int, s, dl);
        }
        let qx = bx * den + bcx * num;
        let qy = by * den + bcy * num;
        proof {
            lemma_span_bound(qx as int, px as int, bx as int, bcx as int, den as int, num as int, s);
            lemma_span_bound(qy as int, py as int, by as int, bcy as int, den as int, num as int, s);
        }
        return (qx, qy, den);
    }
    (px, py, 1)
}

/// Span bound for an edge-region result: `q = v * den + e * num` with
/// `0 <= num <= den`, `|v - p| <= s` and `|e| <= s` keeps `q / den` within
/// `2 s` of `p`.
proof fn lemma_span_bound(q: int, p: int, v: int, e: int, den: int, num: int, s: int)
    requires
        q == v * den + e * num,
        0 <= num <= den,
        -s <= v - p <= s,
        -s <= e <= s,
        s >= 0,
        den >= 1,
    ensures
        -2 * s * den <= q - p * den <= 2 * s * den,
{
    assert(q - p * den == (v - p) * den + e * num) by (nonlinear_arith)
        requires
            q == v * den + e * num,
    ;
    lemma_abs_mul_le(v - p, den, s, den);
    lemma_abs_mul_le(e, num, s, den);
    assert(2 * s * den == s * den + s * den) by (nonlinear_arith);
    assert(-2 * s * den == -(s * den) - s * den) by (nonlinear_arith);
}

/// The four points handed to the triangle test: bounded coordinates, all
/// within `TRI_SPAN` of one another per axis.
pub open spec fn tri_input_ok(p: Vec2i, a: Vec2i, b: Vec2i, c: Vec2i) -> bool {
    &&& -TRI_COORD_LIMIT <= p.x <= TRI_COORD_LIMIT
    &&& -TRI_COORD_LIMIT <= p.y <= TRI_COORD_LIMIT
    &&& -TRI_COORD_LIMIT <= a.x <= TRI_COORD_LIMIT
    &&& -TRI_COORD_LIMIT <= a.y <= TRI_COORD_LIMIT
    &&& -TRI_COORD_LIMIT <= b.x <= TRI_COORD_LIMIT
    &&& -TRI_COORD_LIMIT <= b.y <= TRI_COORD_LIMIT
    &&& -TRI_COORD_LIMIT <= c.x <= TRI_COORD_LIMIT
    &&& -TRI_COORD_LIMIT <= c.y <= TRI_COORD_LIMIT
    &&& -TRI_SPAN <= a.x - b.x <= TRI_SPAN
    &&& -TRI_SPAN <= a.y - b.y <= TRI_SPAN
    &&& -TRI_SPAN <= a.x - c.x <= TRI_SPAN
    &&& -TRI_SPAN <= a.y - c.y <= TRI_SPAN
    &&& -TRI_SPAN <= b.x - c.x <= TRI_SPAN
    &&& -TRI_SPAN <= b.y - c.y <= TRI_SPAN
    &&& -TRI_SPAN <= p.x - a.x <= TRI_SPAN
    &&& -TRI_SPAN <= p.y - a.y <= TRI_SPAN
    &&& -TRI_SPAN <= p.x - b.x <= TRI_SPAN
    &&& -TRI_SPAN <= p.y - b.y <= TRI_SPAN
    &&& -TRI_SPAN <= p.x - c.x <= TRI_SPAN
    &&& -TRI_SPAN <= p.y - c.y <= TRI_SPAN
}

/// `|h.x|` and `|h.y|` are at most `2 * DIR_ONE` for any well-formed
/// heading.
pub proof fn lemma_heading_component_bound(h: Vec2i)
    requires
        heading_ok(h),
    ensures
        -2 * DIR_ONE <= h.x <= 2 * DIR_ONE,
        -2 * DIR_ONE <= h.y <= 2 * DIR_ONE,
{
    assert(-2 * DIR_ONE <= h.x <= 2 * DIR_ONE && -2 * DIR_ONE <= h.y <= 2 * DIR_ONE)
        by (nonlinear_arith)
        requires
            h.x * h.x + h.y * h.y <= (DIR_ONE + 6) * (DIR_ONE + 6),
            DIR_ONE == 65536,
    ;
}

/// The nose vertex sits at distance `PLAYER_SIZE` from the ship (within a
/// hundredth of a pixel): a heading from the window scaled by
/// `PLAYER_SIZE / DIR_ONE` keeps its relative magnitude.
proof fn lemma_vertex_a_window(hx: int, hy: int, ox: int, oy: int)
    requires
        (DIR_ONE - 3) * (DIR_ONE - 3) <= hx * hx + hy * hy <= (DIR_ONE + 6) * (DIR_ONE + 6),
        -65_542 <= hx <= 65_542,
        -65_542 <= hy <= 65_542,
        ox == tdiv(hx * PLAYER_SIZE, DIR_ONE as int),
        oy == tdiv(hy * PLAYER_SIZE, DIR_ONE as int),
    ensures
        (PLAYER_SIZE - 10) * (PLAYER_SIZE - 10) <= ox * ox + oy * oy <= (PLAYER_SIZE + 10) * (
        PLAYER_SIZE + 10),
{
    let n = hx * hx + hy * hy;
    let d = DIR_ONE as int;
    lemma_abs_mul_le(hx, PLAYER_SIZE as int, 65_542, 25_000);
    lemma_abs_mul_le(hy, PLAYER_SIZE as int, 65_542, 25_000);
    crate::num::lemma_scaled_norm_window(
        hx * PLAYER_SIZE,
        hy * PLAYER_SIZE,
        d,
        1_638_550_000,
    );
    assert((hx * PLAYER_SIZE) * (hx * PLAYER_SIZE) + (hy * PLAYER_SIZE) * (hy * PLAYER_SIZE) == n
        * (PLAYER_SIZE * PLAYER_SIZE)) by (nonlinear_arith)
        requires
            n == hx * hx + hy * hy,
    ;
    assert(n * (PLAYER_SIZE * PLAYER_SIZE) - 4 * 1_638_550_000 * d >= (PLAYER_SIZE - 10) * (
    PLAYER_SIZE - 10) * (d * d)) by (nonlinear_arith)
        requires
            n >= (DIR_ONE - 3) * (DIR_ONE - 3),
            d == 65536,
            DIR_ONE == 65536,
            PLAYER_SIZE == 25_000,
    ;
    assert(n * (PLAYER_SIZE * PLAYER_SIZE) + 4 * 1_638_550_000 * d + 2 * d * d <= (PLAYER_SIZE
        + 10) * (PLAYER_SIZE + 10) * (d * d)) by (nonlinear_arith)
        requires
            n <= (DIR_ONE + 6) * (DIR_ONE + 6),
            d == 65536,
            DIR_ONE == 65536,
            PLAYER_SIZE == 25_000,
    ;
    assert((ox * d) * (ox * d) + (oy * d) * (oy * d) == (ox * ox + oy * oy) * (d * d))
        by (nonlinear_arith);
    assert((tdiv(hx * PLAYER_SIZE, d) * d) * (tdiv(hx * PLAYER_SIZE, d) * d) == (ox * d) * (ox
        * d) && (tdiv(hy * PLAYER_SIZE, d) * d) * (tdiv(hy * PLAYER_SIZE, d) * d) == (oy * d) * (
    oy * d));
    crate::num::lemma_mul_cancel((PLAYER_SIZE - 10) * (PLAYER_SIZE - 10), ox * ox + oy * oy, d);
    crate::num::lemma_mul_cancel(ox * ox + oy * oy, (PLAYER_SIZE + 10) * (PLAYER_SIZE + 10), d);
}

/// The two rear vertices sit at distance `PLAYER_SIZE` from the ship
/// (within a hundredth of a pixel): the 45-degree offsets scale the window
/// heading by `sqrt(2)/2` twice over.
proof fn lemma_vertex_bc_window(hx: int, hy: int, o1: int, o2: int)
    requires
        (DIR_ONE - 3) * (DIR_ONE - 3) <= hx * hx + hy * hy <= (DIR_ONE + 6) * (DIR_ONE + 6),
        -65_542 <= hx <= 65_542,
        -65_542 <= hy <= 65_542,
        o1 == tdiv(HALF_SQRT2 * (hx + hy) * PLAYER_SIZE, DIR_ONE_SQ as int),
        o2 == tdiv(HALF_SQRT2 * (hy - hx) * PLAYER_SIZE, DIR_ONE_SQ as int),
    ensures
        (PLAYER_SIZE - 10) * (PLAYER_SIZE - 10) <= o1 * o1 + o2 * o2 <= (PLAYER_SIZE + 10) * (
        PLAYER_SIZE + 10),
{
    let n = hx * hx + hy * hy;
    let d2 = DIR_ONE_SQ as int;
    let x = HALF_SQRT2 * (hx + hy) * PLAYER_SIZE;
    let y = HALF_SQRT2 * (hy - hx) * PLAYER_SIZE;
    lemma_abs_mul_le(HALF_SQRT2 as int, hx + hy, 46_340, 131_084);
    lemma_abs_mul_le(HALF_SQRT2 as int, hy - hx, 46_340, 131_084);
    lemma_abs_mul_le(HALF_SQRT2 as int * (hx + hy), PLAYER_SIZE as int, 6_074_432_560, 25_000);
    lemma_abs_mul_le(HALF_SQRT2 as int * (hy - hx), PLAYER_SIZE as int, 6_074_432_560, 25_000);
    crate::num::lemma_scaled_norm_window(x, y, d2, 151_860_814_000_000);
    assert(x * x + y * y == 2 * (HALF_SQRT2 * HALF_SQRT2) * (PLAYER_SIZE * PLAYER_SIZE) * n)
        by (nonlinear_arith)
        requires
            x == HALF_SQRT2 * (hx + hy) * PLAYER_SIZE,
            y == HALF_SQRT2 * (hy - hx) * PLAYER_SIZE,
            n == hx * hx + hy * hy,
    ;
    assert(2 * (HALF_SQRT2 * HALF_SQRT2) * (PLAYER_SIZE * PLAYER_SIZE) * n - 4
        * 151_860_814_000_000 * d2 >= (PLAYER_SIZE - 10) * (PLAYER_SIZE - 10) * (d2 * d2))
        by (nonlinear_arith)
        requires
            n >= (DIR_ONE - 3) * (DIR_ONE - 3),
            d2 == 4_294_967_296,
            DIR_ONE == 65536,
            HALF_SQRT2 == 46_340,
            PLAYER_SIZE == 25_000,
    ;
    assert(2 * (HALF_SQRT2 * HALF_SQRT2) * (PLAYER_SIZE * PLAYER_SIZE) * n + 4
        * 151_860_814_000_000 * d2 + 2 * d2 * d2 <= (PLAYER_SIZE + 10) * (PLAYER_SIZE + 10) * (d2
        * d2)) by (nonlinear_arith)
        requires
            n <= (DIR_ONE + 6) * (DIR_ONE + 6),
            d2 == 4_294_967_296,
            DIR_ONE == 65536,
            HALF_SQRT2 == 46_340,
            PLAYER_SIZE == 25_000,
    ;
    assert((o1 * d2) * (o1 * d2) + (o2 * d2) * (o2 * d2) == (o1 * o1 + o2 * o2) * (d2 * d2))
        by (nonlinear_arith);
    assert((tdiv(x, d2) * d2) * (tdiv(x, d2) * d2) == (o1 * d2) * (o1 * d2) && (tdiv(y, d2) * d2)
        * (tdiv(y, d2) * d2) == (o2 * d2) * (o2 * d2));
    crate::num::lemma_mul_cancel((PLAYER_SIZE - 10) * (PLAYER_SIZE - 10), o1 * o1 + o2 * o2, d2);
    crate::num::lemma_mul_cancel(o1 * o1 + o2 * o2, (PLAYER_SIZE + 10) * (PLAYER_SIZE + 10), d2);
}

/// Dividing a vector of length `l` (within the coarse band) by `l` lands
/// its squared magnitude within the heading window: the truncating division
/// loses less than one unit per component.
proof fn lemma_renorm_window(x: int, y: int, n: int, l: int, qx: int, qy: int)
    requires
        n == x * x + y * y,
        DIR_ONE / 2 <= l <= 2 * DIR_ONE,
        l * l <= n < (l + 1) * (l + 1),
        qx == tdiv(x * DIR_ONE, l),
        qy == tdiv(y * DIR_ONE, l),
    ensures
        (DIR_ONE - 3) * (DIR_ONE - 3) <= qx * qx + qy * qy <= (DIR_ONE + 6) * (DIR_ONE + 6),
{
    let d = DIR_ONE as int;
    assert(x * x <= n && y * y <= n) by (nonlinear_arith)
        requires
            n == x * x + y * y,
    ;
    assert(-l <= x <= l && -l <= y <= l) by (nonlinear_arith)
        requires
            x * x <= n,
            y * y <= n,
            n < (l + 1) * (l + 1),
            l >= 0,
    ;
    crate::num::lemma_abs_mul_le(x, d, l, d);
    crate::num::lemma_abs_mul_le(y, d, l, d);
    crate::num::lemma_scaled_norm_window(x * d, y * d, l, l * d);
    assert((x * d) * (x * d) + (y * d) * (y * d) == n * (d * d)) by (nonlinear_arith)
        requires
            n == x * x + y * y,
    ;
    assert(n * (d * d) - 4 * (l * d) * l >= (d - 3) * (d - 3) * (l * l)) by (nonlinear_arith)
        requires
            n >= l * l,
            d / 2 <= l <= 2 * d,
            d == 65536,
    ;
    assert(n * (d * d) + 4 * (l * d) * l + 2 * l * l <= (d + 6) * (d + 6) * (l * l))
        by (nonlinear_arith)
        requires
            n < (l + 1) * (l + 1),
            d / 2 <= l <= 2 * d,
            d == 65536,
    ;
    assert((qx * l) * (qx * l) + (qy * l) * (qy * l) == (qx * qx + qy * qy) * (l * l))
        by (nonlinear_arith);
    assert((tdiv(x * d, l) * l) * (tdiv(x * d, l) * l) == (qx * l) * (qx * l) && (tdiv(y * d, l)
        * l) * (tdiv(y * d, l) * l) == (qy * l) * (qy * l));
    crate::num::lemma_mul_cancel((d - 3) * (d - 3), qx * qx + qy * qy, l);
    crate::num::lemma_mul_cancel(qx * qx + qy * qy, (d + 6) * (d + 6), l);
}

/// Rescales a rotated heading back to its nominal magnitude; the reset
/// branch is unreachable for what a rotation step produces.
fn renorm_heading(hx: i64, hy: i64) -> (h: Vec2i)
    requires
        -3 * DIR_ONE <= hx <= 3 * DIR_ONE,
        -3 * DIR_ONE <= hy <= 3 * DIR_ONE,
    ensures
        (h.x as int, h.y as int) == renorm_spec(hx as int, hy as int),
        heading_ok(h),
{
    proof {
        lemma_abs_mul_le(hx as int, hx as int, 196_608, 196_608);
        lemma_abs_mul_le(hy as int, hy as int, 196_608, 196_608);
        assert(hx as int * hx as int >= 0 && hy as int * hy as int >= 0) by (nonlinear_arith);
    }
    let n: i64 = hx * hx + hy * hy;
    let l64 = crate::num::isqrt(n as u64);
    proof {
        assert(l64 <= 300_000) by (nonlinear_arith)
            requires
                l64 * l64 <= 77_309_411_328,
        ;
    }
    let li: i64 = l64 as i64;
    if li < 32768 || li > 2 * DIR_ONE {
        Vec2i { x: 0, y: DIR_ONE }
    } else {
        proof {
            assert(hx as int * hx as int <= n && hy as int * hy as int <= n) by (nonlinear_arith)
                requires
                    n == hx as int * hx as int + hy as int * hy as int,
                    hx as int * hx as int >= 0,
                    hy as int * hy as int >= 0,
            ;
            assert(-li <= hx <= li && -li <= hy <= li) by (nonlinear_arith)
                requires
                    hx as int * hx as int <= n,
                    hy as int * hy as int <= n,
                    n < (li + 1) * (li + 1),
                    li >= 0,
            ;
            lemma_abs_mul_le(hx as int, DIR_ONE as int, li as int, DIR_ONE as int);
            lemma_abs_mul_le(hy as int, DIR_ONE as int, li as int, DIR_ONE as int);
            assert(li as int * DIR_ONE as int == DIR_ONE as int * li as int) by (nonlinear_arith);
            lemma_tdiv_bound(hx as int * DIR_ONE as int, li as int, DIR_ONE as int);
            lemma_tdiv_bound(hy as int * DIR_ONE as int, li as int, DIR_ONE as int);
        }
        let qx = tdiv64(hx * DIR_ONE, li);
        let qy = tdiv64(hy * DIR_ONE, li);
        proof {
            lemma_renorm_window(
                hx as int,
                hy as int,
                n as int,
                li as int,
                qx as int,
                qy as int,
            );
        }
        Vec2i { x: qx, y: qy }
    }
}

} // verus!
