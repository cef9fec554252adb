//! The library's only window onto the pseudo-random number generator, and
//! the random-direction helper built on it.  Everything downstream is
//! verified for every value the generator may hand back.
use vstd::prelude::*;

use crate::consts::{DIR_NORM_MAX, DIR_NORM_MIN, DIR_ONE, SPAWN_ATTEMPTS};
use crate::num::{
    isqrt, lemma_abs_mul_le, lemma_mul_cancel, lemma_scaled_norm_window, lemma_tdiv_bound, tdiv,
    tdiv64,
};
use crate::vec2::Vec2i;

verus! {

/// Relies on `macroquad::rand::gen_range` (the quad-rand generator): for
/// `low < high` it computes `low + (high - low) * r` for a pseudo-random
/// `r` in `[0, 1)`, in double precision truncated toward zero, so the result
/// lies between the two bounds; it never panics.  The bounds are kept small
/// enough that the double-precision round trip is exact.
#[verifier::external_body]
pub(crate) fn gen_range_i64(low: i64, high: i64) -> (r: i64)
    requires
        low < high,
        -0x100_0000_0000 <= low,
        high <= 0x100_0000_0000,
    ensures
        low <= r <= high,
{
    macroquad::rand::gen_range(low, high)
}

/// A pseudo-random tumble angle, in microradians (0.1 to 0.3 degrees).
pub(crate) fn rand_tumble() -> (r: i64)
    ensures
        1745 <= r <= 5236,
{
    gen_range_i64(1745, 5236)
}

/// A pseudo-random direction: a nonzero vector of magnitude close to
/// `DIR_ONE`, found by rejection-sampling an offset away from the origin and
/// rescaling it.  The squared magnitude lands in the
/// `[DIR_NORM_MIN, DIR_NORM_MAX]` window, so the direction is in particular
/// never degenerate.  The retry loop is capped; the cap is generous enough
/// that the fixed fallback direction is unreachable in practice.
pub(crate) fn rand_direction() -> (d: Vec2i)
    ensures
        -DIR_ONE <= d.x <= DIR_ONE,
        -DIR_ONE <= d.y <= DIR_ONE,
        DIR_NORM_MIN * DIR_NORM_MIN <= d.x * d.x + d.y * d.y <= DIR_NORM_MAX * DIR_NORM_MAX,
        d.x != 0 || d.y != 0,
{
    let mut attempts: u32 = 0;
    while attempts < SPAWN_ATTEMPTS
        invariant
            attempts <= SPAWN_ATTEMPTS,
        decreases SPAWN_ATTEMPTS - attempts,
    {
        let vx = gen_range_i64(-1000, 1000);
        let vy = gen_range_i64(-1000, 1000);
        proof {
            lemma_abs_mul_le(vx as int, vx as int, 1000, 1000);
            lemma_abs_mul_le(vy as int, vy as int, 1000, 1000);
            assert(vx as int * vx as int >= 0 && vy as int * vy as int >= 0) by (nonlinear_arith);
        }
        let n: i64 = vx * vx + vy * vy;
        if n >= 62500 {
            let len: u64 = isqrt(n as u64);
            proof {
                assert(len <= 1414) by (nonlinear_arith)
                    requires
                        len * len <= 2_000_000,
                ;
            }
            let li: i64 = len as i64;
            proof {
                assert(li >= 250) by (nonlinear_arith)
                    requires
                        (li + 1) * (li + 1) > 62500,
                        li >= 0,
                ;
                assert(vx * vx <= n && vy * vy <= n) by (nonlinear_arith)
                    requires
                        n == vx * vx + vy * vy,
                        vx * vx >= 0,
                        vy * vy >= 0,
                ;
                assert(-li <= vx <= li && -li <= vy <= li) by (nonlinear_arith)
                    requires
                        vx * vx <= n,
                        vy * vy <= n,
                        n < (li + 1) * (li + 1),
                        li >= 0,
                ;
                lemma_abs_mul_le(vx as int, DIR_ONE as int, li as int, DIR_ONE as int);
                lemma_abs_mul_le(vy as int, DIR_ONE as int, li as int, DIR_ONE as int);
                assert(li as int * DIR_ONE as int == DIR_ONE as int * li as int) by (nonlinear_arith);
                lemma_tdiv_bound(vx as int * DIR_ONE as int, li as int, DIR_ONE as int);
                lemma_tdiv_bound(vy as int * DIR_ONE as int, li as int, DIR_ONE as int);
            }
            let dx = tdiv64(vx * DIR_ONE, li);
            let dy = tdiv64(vy * DIR_ONE, li);
            proof {
                lemma_dir_norm_window(vx as int, vy as int, n as int, li as int, dx as int, dy as int);
            }
            return Vec2i { x: dx, y: dy };
        }
        attempts = attempts + 1;
    }
    Vec2i { x: DIR_ONE, y: 0 }
}

/// Scaling a direction from the norm window by a speed `s` and dividing
/// back by `DIR_ONE` yields a velocity whose magnitude stays within two
/// percent of `s`: the direction window is within one percent of unit, and
/// the truncating division loses less than one unit per component.
pub(crate) proof fn lemma_velocity_norm_window(dx: int, dy: int, s: int, vx: int, vy: int)
    requires
        DIR_NORM_MIN * DIR_NORM_MIN <= dx * dx + dy * dy <= DIR_NORM_MAX * DIR_NORM_MAX,
        -DIR_ONE <= dx <= DIR_ONE,
        -DIR_ONE <= dy <= DIR_ONE,
        1000 <= s <= 100_000_000_000,
        vx == tdiv(dx * s, DIR_ONE as int),
        vy == tdiv(dy * s, DIR_ONE as int),
    ensures
        (98 * s) * (98 * s) <= (vx * vx + vy * vy) * (100 * 100),
        (vx * vx + vy * vy) * (100 * 100) <= (102 * s) * (102 * s),
{
    let x = dx * s;
    let y = dy * s;
    let xb = DIR_ONE as int * s;
    let nq = vx * vx + vy * vy;
    lemma_abs_mul_le(dx, s, DIR_ONE as int, s);
    lemma_abs_mul_le(dy, s, DIR_ONE as int, s);
    lemma_scaled_norm_window(x, y, DIR_ONE as int, xb);
    assert(x * x + y * y == (dx * dx + dy * dy) * (s * s)) by (nonlinear_arith)
        requires
            x == dx * s,
            y == dy * s,
    ;
    assert((dx * dx + dy * dy) * (s * s) >= DIR_NORM_MIN * DIR_NORM_MIN * (s * s) && (dx * dx + dy
        * dy) * (s * s) <= DIR_NORM_MAX * DIR_NORM_MAX * (s * s)) by (nonlinear_arith)
        requires
            DIR_NORM_MIN * DIR_NORM_MIN <= dx * dx + dy * dy <= DIR_NORM_MAX * DIR_NORM_MAX,
            s >= 1000,
    ;
    assert((98 * s) * (98 * s) * (DIR_ONE * DIR_ONE) <= (DIR_NORM_MIN * DIR_NORM_MIN * (s * s) - 4
        * xb * DIR_ONE) * (100 * 100)) by (nonlinear_arith)
        requires
            s >= 1000,
            xb == DIR_ONE as int * s,
            DIR_ONE == 65536,
            DIR_NORM_MIN == 65_000,
    ;
    assert((DIR_NORM_MAX * DIR_NORM_MAX * (s * s) + 4 * xb * DIR_ONE + 2 * DIR_ONE * DIR_ONE) * (
    100 * 100) <= (102 * s) * (102 * s) * (DIR_ONE * DIR_ONE)) by (nonlinear_arith)
        requires
            s >= 1000,
            xb == DIR_ONE as int * s,
            DIR_ONE == 65536,
            DIR_NORM_MAX == 66_000,
    ;
    assert((vx * DIR_ONE) * (vx * DIR_ONE) + (vy * DIR_ONE) * (vy * DIR_ONE) == nq * (DIR_ONE
        * DIR_ONE)) by (nonlinear_arith)
        requires
            nq == vx * vx + vy * vy,
    ;
    assert((tdiv(x, DIR_ONE as int) * DIR_ONE) * (tdiv(x, DIR_ONE as int) * DIR_ONE) == (vx
        * DIR_ONE) * (vx * DIR_ONE) && (tdiv(y, DIR_ONE as int) * DIR_ONE) * (tdiv(
        y,
        DIR_ONE as int,
    ) * DIR_ONE) == (vy * DIR_ONE) * (vy * DIR_ONE));
    assert((nq * (100 * 100)) * (DIR_ONE * DIR_ONE) == (nq * (DIR_ONE * DIR_ONE)) * (100 * 100))
        by (nonlinear_arith)
        requires
            nq == vx * vx + vy * vy,
    ;
    let lo = DIR_NORM_MIN * DIR_NORM_MIN * (s * s) - 4 * xb * DIR_ONE;
    let hi = DIR_NORM_MAX * DIR_NORM_MAX * (s * s) + 4 * xb * DIR_ONE + 2 * DIR_ONE * DIR_ONE;
    assert(lo <= nq * (DIR_ONE * DIR_ONE) <= hi);
    assert(lo * (100 * 100) <= (nq * (DIR_ONE * DIR_ONE)) * (100 * 100) <= hi * (100 * 100))
        by (nonlinear_arith)
        requires
            lo <= nq * (DIR_ONE * DIR_ONE) <= hi,
    ;
    assert((98 * s) * (98 * s) * (DIR_ONE * DIR_ONE) <= (nq * (100 * 100)) * (DIR_ONE * DIR_ONE));
    assert((nq * (100 * 100)) * (DIR_ONE * DIR_ONE) <= (102 * s) * (102 * s) * (DIR_ONE
        * DIR_ONE));
    lemma_mul_cancel((98 * s) * (98 * s), nq * (100 * 100), DIR_ONE as int);
    lemma_mul_cancel(nq * (100 * 100), (102 * s) * (102 * s), DIR_ONE as int);
}

/// The rescaled sample's squared magnitude lands in the direction-norm
/// window: truncating division loses less than one unit per component, a
/// vanishing fraction of the `DIR_ONE` scale.
proof fn lemma_dir_norm_window(vx: int, vy: int, n: int, li: int, dx: int, dy: int)
    requires
        n == vx * vx + vy * vy,
        62500 <= n <= 2_000_000,
        250 <= li <= 1415,
        li * li <= n < (li + 1) * (li + 1),
        -1000 <= vx <= 1000,
        -1000 <= vy <= 1000,
        dx == tdiv(vx * DIR_ONE, li as int),
        dy == tdiv(vy * DIR_ONE, li as int),
    ensures
        DIR_NORM_MIN * DIR_NORM_MIN <= dx * dx + dy * dy <= DIR_NORM_MAX * DIR_NORM_MAX,
        dx != 0 || dy != 0,
{
    let x = vx * DIR_ONE;
    let y = vy * DIR_ONE;
    lemma_abs_mul_le(vx, DIR_ONE as int, 1000, DIR_ONE as int);
    lemma_abs_mul_le(vy, DIR_ONE as int, 1000, DIR_ONE as int);
    lemma_scaled_norm_window(x, y, li, 65_536_000);
    assert(x * x + y * y == n * (DIR_ONE * DIR_ONE)) by (nonlinear_arith)
        requires
            x == vx * DIR_ONE,
            y == vy * DIR_ONE,
            n == vx * vx + vy * vy,
    ;
    assert(n * (DIR_ONE * DIR_ONE) - 4 * 65_536_000 * li >= DIR_NORM_MIN * DIR_NORM_MIN * (li
        * li)) by (nonlinear_arith)
        requires
            n >= li * li,
            250 <= li <= 1415,
            DIR_ONE == 65536,
            DIR_NORM_MIN == 65_000,
    ;
    assert(n * (DIR_ONE * DIR_ONE) + 4 * 65_536_000 * li + 2 * li * li <= DIR_NORM_MAX
        * DIR_NORM_MAX * (li * li)) by (nonlinear_arith)
        requires
            n < (li + 1) * (li + 1),
            250 <= li <= 1415,
            DIR_ONE == 65536,
            DIR_NORM_MAX == 66_000,
    ;
    assert((dx * li) * (dx * li) + (dy * li) * (dy * li) == (dx * dx + dy * dy) * (li * li))
        by (nonlinear_arith);
    assert((tdiv(x, li) * li) * (tdiv(x, li) * li) == (dx * li) * (dx * li) && (tdiv(y, li) * li)
        * (tdiv(y, li) * li) == (dy * li) * (dy * li));
    lemma_mul_cancel(DIR_NORM_MIN as int * DIR_NORM_MIN as int, dx * dx + dy * dy, li);
    lemma_mul_cancel(dx * dx + dy * dy, DIR_NORM_MAX as int * DIR_NORM_MAX as int, li);
    assert(dx != 0 || dy != 0) by (nonlinear_arith)
        requires
            dx * dx + dy * dy >= DIR_NORM_MIN * DIR_NORM_MIN,
            DIR_NORM_MIN == 65_000,
    ;
}

} // verus!
