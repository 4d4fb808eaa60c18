//! Fixed-point arithmetic shared by the parser and the layout engine.
//!
//! Lengths in pixels are held in 26.6 fixed point (64 units to a pixel) and
//! variation-axis values in 16.16 fixed point (65536 units to one). Both are
//! plain integers; this module supplies the divisions that round toward
//! negative infinity, which is what the mathematical `/` on integers with a
//! positive divisor means.

use vstd::prelude::*;

verus! {

/// Units of a 26.6 fixed-point value that make one pixel.
pub const UNITS_PER_PIXEL: i64 = 64;

/// Units of a 16.16 fixed-point value that make one.
pub const FIXED_ONE: i32 = 0x1_0000;

/// Quotient of `n` by a positive `d`, rounded toward negative infinity.
pub fn floor_div(n: i128, d: i128) -> (q: i128)
    requires
        d > 0,
        n > i128::MIN,
    ensures
        q == n / d,
{
    if n >= 0 {
        n / d
    } else {
        let m: i128 = -n;
        let q0: i128 = m / d;
        let r0: i128 = m % d;
        assert(m == d * q0 + r0 && 0 <= r0 < d) by (nonlinear_arith)
            requires
                q0 == m / d,
                r0 == m % d,
                d > 0,
                m > 0,
        ;
        if r0 == 0 {
            assert(n / d == -q0) by (nonlinear_arith)
                requires
                    n == -(d * q0),
                    d > 0,
            ;
            -q0
        } else {
            assert(n / d == -q0 - 1) by (nonlinear_arith)
                requires
                    n == -(d * q0 + r0),
                    0 < r0 < d,
                    d > 0,
            ;
            -q0 - 1
        }
    }
}

/// `a * b / d` on mathematical integers, for a positive `d`.
pub open spec fn spec_mul_div(a: int, b: int, d: int) -> int {
    (a * b) / d
}

/// A quotient by a positive divisor lies between the quotients of any lower
/// and upper bound on the dividend.
pub proof fn lemma_div_monotone(lo: int, n: int, hi: int, d: int)
    requires
        d > 0,
        lo <= n <= hi,
    ensures
        lo / d <= n / d <= hi / d,
{
    vstd::arithmetic::div_mod::lemma_div_is_ordered(lo, n, d);
    vstd::arithmetic::div_mod::lemma_div_is_ordered(n, hi, d);
}

/// Dividing an exact multiple gives the other factor back.
pub proof fn lemma_div_exact(x: int, d: int)
    requires
        d > 0,
    ensures
        (x * d) / d == x,
{
    vstd::arithmetic::div_mod::lemma_div_multiples_vanish(x, d);
    assert(x * d == d * x) by (nonlinear_arith);
}

/// `a * b / d` for 64-bit factors and a positive divisor, without overflow
/// in the product.
pub fn mul_div(a: i64, b: i64, d: i64) -> (q: i128)
    requires
        d > 0,
    ensures
        q == spec_mul_div(a as int, b as int, d as int),
{
    assert(-0x4000_0000_0000_0000_0000_0000_0000_0000 <= (a as int) * (b as int)
        <= 0x4000_0000_0000_0000_0000_0000_0000_0000) by (nonlinear_arith)
        requires
            -0x8000_0000_0000_0000 <= a <= 0x7fff_ffff_ffff_ffff,
            -0x8000_0000_0000_0000 <= b <= 0x7fff_ffff_ffff_ffff,
    ;
    let p: i128 = (a as i128) * (b as i128);
    floor_div(p, d as i128)
}

} // verus!
