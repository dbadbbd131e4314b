//! Fixed-point arithmetic shared by every component.
//!
//! A real value `x` is stored as the integer `x * UNIT`, so one unit of
//! amplitude, one hertz, or one table slot each correspond to `UNIT`
//! stored ticks.  Multiplication of two scaled values therefore divides
//! by `UNIT` once, truncating toward zero as the host's native division
//! does.

use vstd::prelude::*;

verus! {

/// Number of fixed-point ticks in 1.0.
pub const UNIT: i64 = 1_000_000;

/// Truncating (toward zero) division, the semantics of the host's `/`.
/// Only meaningful for `b > 0`.
pub open spec fn div_trunc(a: int, b: int) -> int {
    if a >= 0 {
        a / b
    } else {
        -((-a) / b)
    }
}

/// Product of two fixed-point values, rescaled back to one `UNIT` factor.
pub open spec fn fx_mul(a: int, b: int) -> int {
    div_trunc(a * b, UNIT as int)
}

/// Truncating division of `x` by `UNIT`.
pub fn div_unit(x: i64) -> (r: i64)
    requires
        x > i64::MIN,
    ensures
        r as int == div_trunc(x as int, UNIT as int),
{
    if x >= 0 {
        x / UNIT
    } else {
        -((-x) / UNIT)
    }
}

/// Fixed-point multiply: `a * b / UNIT`, truncating toward zero.
pub fn mul_unit(a: i64, b: i64) -> (r: i64)
    requires
        a * b < i64::MAX as int,
        a * b > i64::MIN as int,
    ensures
        r as int == fx_mul(a as int, b as int),
{
    let p: i64 = a * b;
    div_unit(p)
}

/// `x` forced into `[lo, hi]`.
pub open spec fn clamp_spec(x: int, lo: int, hi: int) -> int {
    if x < lo {
        lo
    } else if x > hi {
        hi
    } else {
        x
    }
}

/// Force `x` into `[lo, hi]`.
pub fn clamp(x: i64, lo: i64, hi: i64) -> (r: i64)
    requires
        lo <= hi,
    ensures
        r as int == clamp_spec(x as int, lo as int, hi as int),
{
    if x < lo {
        lo
    } else if x > hi {
        hi
    } else {
        x
    }
}

/// A product of bounded factors is bounded by the product of the bounds.
pub proof fn lemma_mul_abs_bound(a: int, b: int, ab: int, bb: int)
    by (nonlinear_arith)
    requires
        -ab <= a <= ab,
        -bb <= b <= bb,
        0 <= ab,
        0 <= bb,
    ensures
        -(ab * bb) <= a * b <= ab * bb,
{
}

/// Truncating division shrinks: if `|x| <= m * b` then `|x / b| <= m`.
pub proof fn lemma_div_trunc_bound(x: int, b: int, m: int)
    requires
        0 < b,
        0 <= m,
        -(m * b) <= x <= m * b,
    ensures
        -m <= div_trunc(x, b) <= m,
{
    vstd::arithmetic::div_mod::lemma_div_multiples_vanish(m, b);
    assert(b * m == m * b) by (nonlinear_arith);
    assert((m * b) / b == m);
    if x >= 0 {
        vstd::arithmetic::div_mod::lemma_div_is_ordered(x, m * b, b);
        vstd::arithmetic::div_mod::lemma_div_pos_is_pos(x, b);
        assert(div_trunc(x, b) == x / b);
    } else {
        vstd::arithmetic::div_mod::lemma_div_is_ordered(-x, m * b, b);
        vstd::arithmetic::div_mod::lemma_div_pos_is_pos(-x, b);
        assert(div_trunc(x, b) == -((-x) / b));
    }
}

/// Dividing an exact multiple of `b` by `b` recovers the factor, for
/// either sign of the factor.
pub proof fn lemma_div_trunc_exact(a: int, b: int)
    requires
        0 < b,
    ensures
        div_trunc(a * b, b) == a,
{
    if a >= 0 {
        vstd::arithmetic::div_mod::lemma_div_multiples_vanish(a, b);
        assert(a * b >= 0) by (nonlinear_arith)
            requires a >= 0 && b > 0;
        assert(b * a == a * b) by (nonlinear_arith);
        assert(div_trunc(a * b, b) == (a * b) / b);
    } else {
        vstd::arithmetic::div_mod::lemma_div_multiples_vanish(-a, b);
        assert(a * b < 0) by (nonlinear_arith)
            requires a < 0 && b > 0;
        assert(b * (-a) == -(a * b)) by (nonlinear_arith);
        assert(div_trunc(a * b, b) == -((-(a * b)) / b));
    }
}

} // verus!
