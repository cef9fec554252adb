//! Small exact-arithmetic helpers: truncating fixed-point division, integer
//! square root, and the product-bound lemma the overflow proofs lean on.
use vstd::prelude::*;

verus! {

/// Division of `x` by `d`, rounded toward zero, as Rust's `/` rounds.
pub open spec fn tdiv(x: int, d: int) -> int
    recommends
        d > 0,
{
    if x >= 0 {
        x / d
    } else {
        -((-x) / d)
    }
}

/// `|a * b| <= aa * bb` whenever `|a| <= aa` and `|b| <= bb`.
pub proof fn lemma_abs_mul_le(a: int, b: int, aa: int, bb: int)
    requires
        -aa <= a <= aa,
        -bb <= b <= bb,
    ensures
        -(aa * bb) <= a * b <= aa * bb,
{
    assert(-(aa * bb) <= a * b <= aa * bb) by (nonlinear_arith)
        requires
            -aa <= a <= aa,
            -bb <= b <= bb,
    ;
}

/// Rounding toward zero never grows the magnitude of the quotient:
/// `|tdiv(x, d) * d| <= |x|`, hence `|tdiv(x, d)| <= b` once `|x| <= b * d`.
pub proof fn lemma_tdiv_bound(x: int, d: int, b: int)
    requires
        d > 0,
        b >= 0,
        -(b * d) <= x <= b * d,
    ensures
        -b <= tdiv(x, d) <= b,
{
    if x >= 0 {
        assert(0 <= x / d <= b) by (nonlinear_arith)
            requires
                d > 0,
                b >= 0,
                0 <= x <= b * d,
        ;
    } else {
        assert(0 <= (-x) / d <= b) by (nonlinear_arith)
            requires
                d > 0,
                b >= 0,
                0 < -x <= b * d,
        ;
    }
}

/// The truncated quotient lands within one divisor of the dividend:
/// `|x - tdiv(x, d) * d| < d`.
pub proof fn lemma_tdiv_rem(x: int, d: int)
    requires
        d > 0,
    ensures
        x - (d - 1) <= tdiv(x, d) * d <= x + (d - 1),
{
    if x >= 0 {
        vstd::arithmetic::div_mod::lemma_fundamental_div_mod(x, d);
        vstd::arithmetic::div_mod::lemma_mod_bound(x, d);
        let q = tdiv(x, d);
        assert(q == x / d);
        assert(q * d == d * (x / d)) by (nonlinear_arith)
            requires
                q == x / d,
        ;
    } else {
        vstd::arithmetic::div_mod::lemma_fundamental_div_mod(-x, d);
        vstd::arithmetic::div_mod::lemma_mod_bound(-x, d);
        let q = tdiv(x, d);
        assert(q == -((-x) / d));
        assert(q * d == -(d * ((-x) / d))) by (nonlinear_arith)
            requires
                q == -((-x) / d),
        ;
    }
}

/// Dividing a vector's components by `d` keeps the squared norm, scaled
/// back by `d * d`, within an error band of the original squared norm.
pub proof fn lemma_scaled_norm_window(x: int, y: int, d: int, xb: int)
    requires
        d >= 1,
        xb >= 0,
        -xb <= x <= xb,
        -xb <= y <= xb,
    ensures
        (tdiv(x, d) * d) * (tdiv(x, d) * d) + (tdiv(y, d) * d) * (tdiv(y, d) * d) >= x * x + y * y
            - 4 * xb * d,
        (tdiv(x, d) * d) * (tdiv(x, d) * d) + (tdiv(y, d) * d) * (tdiv(y, d) * d) <= x * x + y * y
            + 4 * xb * d + 2 * d * d,
{
    lemma_tdiv_rem(x, d);
    lemma_tdiv_rem(y, d);
    let qx = tdiv(x, d) * d;
    let qy = tdiv(y, d) * d;
    assert(qx * qx >= x * x - 2 * xb * d && qx * qx <= x * x + 2 * xb * d + d * d)
        by (nonlinear_arith)
        requires
            x - (d - 1) <= qx <= x + (d - 1),
            -xb <= x <= xb,
            d >= 1,
            xb >= 0,
    ;
    assert(qy * qy >= y * y - 2 * xb * d && qy * qy <= y * y + 2 * xb * d + d * d)
        by (nonlinear_arith)
        requires
            y - (d - 1) <= qy <= y + (d - 1),
            -xb <= y <= xb,
            d >= 1,
            xb >= 0,
    ;
    assert(4 * xb * d == 2 * xb * d + 2 * xb * d && 2 * d * d == d * d + d * d)
        by (nonlinear_arith);
}

/// Cancelling a positive square factor from both sides of a comparison.
pub proof fn lemma_mul_cancel(a: int, b: int, m: int)
    requires
        m > 0,
        a * (m * m) <= b * (m * m),
    ensures
        a <= b,
{
    assert(a <= b) by (nonlinear_arith)
        requires
            m > 0,
            a * (m * m) <= b * (m * m),
    ;
}

/// Division of `x` by `d`, rounded toward zero.
pub fn tdiv64(x: i64, d: i64) -> (r: i64)
    requires
        d > 0,
        x > i64::MIN,
    ensures
        r == tdiv(x as int, d as int),
{
    if x >= 0 {
        ((x as u64) / (d as u64)) as i64
    } else {
        let m: i64 = -x;
        -(((m as u64) / (d as u64)) as i64)
    }
}

/// The integer square root, as a mathematical function: the largest `r`
/// with `r * r <= n`.
pub open spec fn sqrt_floor(n: int) -> int
    decreases n,
{
    if n <= 0 {
        0
    } else {
        let r = sqrt_floor(n - 1);
        if (r + 1) * (r + 1) <= n {
            r + 1
        } else {
            r
        }
    }
}

/// `sqrt_floor` is nonnegative and brackets its argument between
/// consecutive squares.
pub proof fn lemma_sqrt_floor_bounds(n: int)
    requires
        n >= 0,
    ensures
        sqrt_floor(n) >= 0,
        sqrt_floor(n) * sqrt_floor(n) <= n < (sqrt_floor(n) + 1) * (sqrt_floor(n) + 1),
    decreases n,
{
    if n > 0 {
        lemma_sqrt_floor_bounds(n - 1);
        let r = sqrt_floor(n - 1);
        if (r + 1) * (r + 1) <= n {
            assert(n < (r + 2) * (r + 2)) by (nonlinear_arith)
                requires
                    n - 1 < (r + 1) * (r + 1),
                    r >= 0,
            ;
        }
    }
}

/// Any nonnegative root bracketing `n` between consecutive squares is the
/// integer square root.
pub proof fn lemma_sqrt_floor_unique(n: int, r: int)
    requires
        n >= 0,
        r >= 0,
        r * r <= n < (r + 1) * (r + 1),
    ensures
        r == sqrt_floor(n),
{
    lemma_sqrt_floor_bounds(n);
    let s = sqrt_floor(n);
    assert(r == s) by (nonlinear_arith)
        requires
            r >= 0,
            s >= 0,
            r * r <= n < (r + 1) * (r + 1),
            s * s <= n < (s + 1) * (s + 1),
    ;
}

/// Integer square root: the largest `r` with `r * r <= n`.
pub fn isqrt(n: u64) -> (r: u64)
    requires
        n <= 0x4000_0000_0000_0000,
    ensures
        r * r <= n < (r + 1) * (r + 1),
        r as int == sqrt_floor(n as int),
{
    let r = isqrt_loop(n);
    proof {
        lemma_sqrt_floor_unique(n as int, r as int);
    }
    r
}

/// The search loop behind `isqrt`.
fn isqrt_loop(n: u64) -> (r: u64)
    requires
        n <= 0x4000_0000_0000_0000,
    ensures
        r * r <= n < (r + 1) * (r + 1),
{
    let mut r: u64 = 0;
    loop
        invariant
            n <= 0x4000_0000_0000_0000,
            r * r <= n,
            r <= 0x8000_0000,
            r <= n,
        ensures
            r * r <= n < (r + 1) * (r + 1),
        decreases n - r,
    {
        let s: u64 = r + 1;
        proof {
            assert(s * s <= 0x8000_0001 * 0x8000_0001) by (nonlinear_arith)
                requires
                    s <= 0x8000_0001,
            ;
        }
        if s * s <= n {
            proof {
                assert(s <= 0x8000_0000 && s <= n) by (nonlinear_arith)
                    requires
                        s * s <= n,
                        n <= 0x4000_0000_0000_0000,
                        s >= 1,
                ;
            }
            r = s;
        } else {
            break;
        }
    }
    r
}

} // verus!
