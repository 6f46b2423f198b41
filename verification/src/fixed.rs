//! Signed 64-bit fixed-point scalars and the division helpers the renderer
//! is built on.
//!
//! A coordinate is an `i64` holding `SCALE` units per pixel (screen space) or
//! per world unit (object/world space). All products are taken in `i128`, so
//! the only obligations left to callers are the range bounds stated in the
//! `requires` clauses.

use vstd::prelude::*;
use vstd::arithmetic::div_mod::{lemma_fundamental_div_mod, lemma_fundamental_div_mod_converse};

verus! {

/// Fixed-point units per pixel or per world unit.
pub const SCALE: i64 = 65536;

/// Half of `SCALE`; the fixed-point value of a pixel-center offset.
pub const HALF_SCALE: i64 = 32768;

/// Largest magnitude of a screen-space coordinate the rasterizer accepts
/// (`MAX_COORD / SCALE` = 32768 pixels from the origin).
pub const MAX_COORD: i64 = 0x8000_0000;

/// Largest camera-space depth the rasterizer accepts.
pub const MAX_DEPTH: i64 = 0x800_0000_0000;

/// Largest magnitude of an object-space or world-space component, including
/// the translation held by a transform.
pub const MAX_WORLD: i64 = 0x100_0000_0000;

/// Widest render target edge supported, in pixels; keeps every pixel-center
/// coordinate within `MAX_COORD`.
pub const MAX_DIM: usize = 32768;

/// Mathematical floor of `n / d` for a positive divisor. Ghost `/` on `int`
/// is Euclidean division, which coincides with the floor when `d > 0`.
pub open spec fn floor_div_spec(n: int, d: int) -> int {
    n / d
}

/// `a * b` scaled back down to fixed point, rounding toward minus infinity.
pub open spec fn fx_mul_spec(a: int, b: int) -> int {
    (a * b) / (SCALE as int)
}

/// Floor division of a (possibly negative) dividend by a positive divisor,
/// computed with unsigned machine division.
pub fn floor_div(n: i128, d: i128) -> (q: i128)
    requires
        0 < d,
        i128::MIN < n,
    ensures
        q == floor_div_spec(n as int, d as int),
{
    if n >= 0 {
        let qu: u128 = (n as u128) / (d as u128);
        proof {
            lemma_fundamental_div_mod(n as int, d as int);
        }
        qu as i128
    } else {
        let m: u128 = (-n) as u128;
        let du: u128 = d as u128;
        let qm: u128 = m / du;
        let rm: u128 = m % du;
        proof {
            lemma_fundamental_div_mod(m as int, du as int);
        }
        if rm == 0 {
            proof {
                assert((-(qm as int)) * (d as int) == -(d as int * qm as int)) by (nonlinear_arith);
                lemma_fundamental_div_mod_converse(n as int, d as int, -(qm as int), 0);
            }
            -(qm as i128)
        } else {
            proof {
                assert((-(qm as int) - 1) * (d as int) + (d as int - rm as int)
                    == -(d as int * qm as int + rm as int)) by (nonlinear_arith);
                lemma_fundamental_div_mod_converse(
                    n as int,
                    d as int,
                    -(qm as int) - 1,
                    d as int - rm as int,
                );
            }
            -(qm as i128) - 1
        }
    }
}

/// Fixed-point product of two scalars, exact up to the final floor.
pub fn fx_mul(a: i64, b: i64) -> (r: i64)
    requires
        i64::MIN <= fx_mul_spec(a as int, b as int) <= i64::MAX,
    ensures
        r == fx_mul_spec(a as int, b as int),
{
    let wide: i128 = (a as i128) * (b as i128);
    let q: i128 = floor_div(wide, SCALE as i128);
    q as i64
}

/// The floor of a quotient with a positive divisor never overshoots the
/// bounds of the dividend's convex hull: if `lo * d <= n <= hi * d` then
/// `lo <= n / d <= hi`.
pub proof fn lemma_floor_div_bounds(n: int, d: int, lo: int, hi: int)
    requires
        0 < d,
        lo * d <= n,
        n <= hi * d,
    ensures
        lo <= floor_div_spec(n, d) <= hi,
{
    lemma_fundamental_div_mod(n, d);
    let q = n / d;
    let r = n % d;
    assert(n == d * q + r);
    assert(0 <= r < d);
    assert(lo * d <= d * q + r);
    if q < lo {
        assert(q + 1 <= lo);
        assert((q + 1) * d <= lo * d) by (nonlinear_arith)
            requires
                q + 1 <= lo,
                0 < d,
        ;
        assert((q + 1) * d == q * d + d) by (nonlinear_arith);
        assert(d * q == q * d) by (nonlinear_arith);
        assert(false);
    }
    if q > hi {
        assert(hi + 1 <= q);
        assert((hi + 1) * d <= q * d) by (nonlinear_arith)
            requires
                hi + 1 <= q,
                0 < d,
        ;
        assert((hi + 1) * d == hi * d + d) by (nonlinear_arith);
        assert(d * q == q * d) by (nonlinear_arith);
        assert(false);
    }
}

/// A multiple of the divisor reaching at least `v` has a factor of at least
/// `v`'s quotient.
pub proof fn lemma_div_lower_bound(v: int, d: int, x: int)
    requires
        0 < d,
        x * d >= v,
    ensures
        x >= floor_div_spec(v, d),
{
    lemma_fundamental_div_mod(v, d);
    let q = v / d;
    let r = v % d;
    assert(x >= q) by (nonlinear_arith)
        requires
            x * d >= v,
            v == d * q + r,
            0 <= r < d,
    ;
}

/// A multiple of the divisor staying at most `v` has a factor of at most
/// `v`'s quotient.
pub proof fn lemma_div_upper_bound(v: int, d: int, x: int)
    requires
        0 < d,
        x * d <= v,
    ensures
        x <= floor_div_spec(v, d),
{
    lemma_fundamental_div_mod(v, d);
    let q = v / d;
    let r = v % d;
    assert(x <= q) by (nonlinear_arith)
        requires
            x * d <= v,
            v == d * q + r,
            0 <= r < d,
    ;
}

/// Exact product of two fixed-point scalars in wide arithmetic.
pub fn wide_mul(a: i64, b: i64) -> (r: i128)
    ensures
        r == a as int * b as int,
{
    proof {
        assert(-0x4000_0000_0000_0000_0000_0000_0000_0000 <= a as int * b as int
            <= 0x4000_0000_0000_0000_0000_0000_0000_0000) by (nonlinear_arith)
            requires
                i64::MIN <= a <= i64::MAX,
                i64::MIN <= b <= i64::MAX,
        ;
    }
    (a as i128) * (b as i128)
}

/// Bound on a product from bounds on its factors.
pub proof fn lemma_mul_bound(a: int, b: int, m_a: int, m_b: int)
    requires
        -m_a <= a <= m_a,
        -m_b <= b <= m_b,
        0 <= m_a,
        0 <= m_b,
    ensures
        -(m_a * m_b) <= a * b <= m_a * m_b,
{
    assert(-(m_a * m_b) <= a * b <= m_a * m_b) by (nonlinear_arith)
        requires
            -m_a <= a <= m_a,
            -m_b <= b <= m_b,
            0 <= m_a,
            0 <= m_b,
    ;
}

/// Floor division by a positive divisor never grows the magnitude.
pub proof fn lemma_floor_div_abs_bound(n: int, d: int, m: int)
    requires
        0 < d,
        -m <= n <= m,
        0 <= m,
    ensures
        -m <= floor_div_spec(n, d) <= m,
{
    assert((-m) * d <= n && n <= m * d) by (nonlinear_arith)
        requires
            0 < d,
            -m <= n <= m,
            0 <= m,
    ;
    lemma_floor_div_bounds(n, d, -m, m);
}

/// Scaling by a factor no larger than one in magnitude (at most `SCALE`
/// fixed-point units) never grows a bounded scalar.
pub proof fn lemma_fx_mul_unit_bound(a: int, b: int, m: int)
    requires
        -(SCALE as int) <= a <= SCALE as int,
        -m <= b <= m,
        0 <= m,
    ensures
        -m <= fx_mul_spec(a, b) <= m,
{
    let s = SCALE as int;
    assert(-(m * s) <= a * b <= m * s) by (nonlinear_arith)
        requires
            -s <= a <= s,
            -m <= b <= m,
            0 <= m,
            0 < s,
    ;
    assert((-m) * s == -(m * s)) by (nonlinear_arith);
    lemma_floor_div_bounds(a * b, s, -m, m);
}

} // verus!
