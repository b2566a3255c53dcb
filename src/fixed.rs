//! Fixed-point scalars: every sample, control value and coefficient of the
//! library is a signed Q32.32 number held in an `i64`.
use vstd::prelude::*;

verus! {

/// A Q32.32 fixed-point number: the raw integer `x` stands for `x / 2^32`.
pub type Real = i64;

/// The raw value of `1.0`.
pub const ONE: i64 = 0x1_0000_0000;

/// The raw value of `0.5`.
pub const HALF: i64 = 0x8000_0000;

/// Raw `ONE` as a mathematical integer.
pub open spec fn one() -> int {
    0x1_0000_0000
}

/// Saturation into the range of `i64`.
pub open spec fn clamp(x: int) -> int {
    if x > i64::MAX {
        i64::MAX as int
    } else if x < i64::MIN {
        i64::MIN as int
    } else {
        x
    }
}

/// Saturating sum.
pub open spec fn add_spec(a: int, b: int) -> int {
    clamp(a + b)
}

/// Saturating difference.
pub open spec fn sub_spec(a: int, b: int) -> int {
    clamp(a - b)
}

/// Saturating product, rounded toward minus infinity.
pub open spec fn mul_spec(a: int, b: int) -> int {
    clamp((a * b) / one())
}

/// Saturating quotient, rounded toward minus infinity. Division by zero
/// saturates toward the sign of the dividend, and `0 / 0` is `0`.
pub open spec fn div_spec(a: int, b: int) -> int {
    if b == 0 {
        if a > 0 {
            i64::MAX as int
        } else if a < 0 {
            i64::MIN as int
        } else {
            0
        }
    } else if b > 0 {
        clamp((a * one()) / b)
    } else {
        clamp((-a * one()) / (-b))
    }
}

/// The whole part of a fixed-point number, rounded toward minus infinity.
pub open spec fn floor_spec(a: int) -> int {
    (a / one()) * one()
}

/// The fractional part of a fixed-point number, in `[0, ONE)`.
pub open spec fn frac_spec(a: int) -> int {
    a % one()
}

/// The fixed-point value of a whole number.
pub open spec fn from_int_spec(n: int) -> int {
    clamp(n * one())
}

fn clamp_i128(x: i128) -> (r: i64)
    ensures
        r == clamp(x as int),
{
    if x > i64::MAX as i128 {
        i64::MAX
    } else if x < i64::MIN as i128 {
        i64::MIN
    } else {
        x as i64
    }
}

/// Floor division of a wide integer by a positive divisor.
fn floor_div(a: i128, d: i128) -> (r: i128)
    requires
        d > 0,
    ensures
        r == a as int / d as int,
{
    if a >= 0 {
        a / d
    } else {
        let q: i128 = (-(a + 1)) / d;
        proof {
            let na = -(a + 1);
            assert(na >= 0);
            lemma_floor_neg(a as int, d as int);
        }
        -q - 1
    }
}

proof fn lemma_floor_neg(a: int, d: int)
    requires
        a < 0,
        d > 0,
    ensures
        a / d == -((-(a + 1)) / d) - 1,
{
    let q = (-(a + 1)) / d;
    let r = (-(a + 1)) % d;
    vstd::arithmetic::div_mod::lemma_fundamental_div_mod(-(a + 1), d);
    assert(-(a + 1) == d * q + r);
    assert(0 <= r < d) by {
        vstd::arithmetic::div_mod::lemma_mod_bound(-(a + 1), d);
    }
    assert(a == (-q - 1) * d + (d - 1 - r)) by (nonlinear_arith)
        requires
            -(a + 1) == d * q + r,
    ;
    vstd::arithmetic::div_mod::lemma_fundamental_div_mod_converse(a, d, -q - 1, d - 1 - r);
}

proof fn lemma_wide_product(a: int, b: int)
    requires
        i64::MIN <= a <= i64::MAX,
        i64::MIN <= b <= i64::MAX,
    ensures
        i128::MIN <= a * b <= i128::MAX,
{
    assert(-0x8000_0000_0000_0000 <= a <= 0x8000_0000_0000_0000);
    assert(-0x8000_0000_0000_0000 <= b <= 0x8000_0000_0000_0000);
    assert(a * b <= 0x4000_0000_0000_0000_0000_0000_0000_0000) by (nonlinear_arith)
        requires
            -0x8000_0000_0000_0000 <= a <= 0x8000_0000_0000_0000,
            -0x8000_0000_0000_0000 <= b <= 0x8000_0000_0000_0000,
    ;
    assert(a * b >= -0x4000_0000_0000_0000_0000_0000_0000_0000) by (nonlinear_arith)
        requires
            -0x8000_0000_0000_0000 <= a <= 0x8000_0000_0000_0000,
            -0x8000_0000_0000_0000 <= b <= 0x8000_0000_0000_0000,
    ;
}

/// Saturating sum of two fixed-point numbers.
pub fn fx_add(a: Real, b: Real) -> (r: Real)
    ensures
        r == add_spec(a as int, b as int),
{
    clamp_i128(a as i128 + b as i128)
}

/// Saturating difference of two fixed-point numbers.
pub fn fx_sub(a: Real, b: Real) -> (r: Real)
    ensures
        r == sub_spec(a as int, b as int),
{
    clamp_i128(a as i128 - b as i128)
}

/// Saturating product of two fixed-point numbers.
pub fn fx_mul(a: Real, b: Real) -> (r: Real)
    ensures
        r == mul_spec(a as int, b as int),
{
    proof {
        lemma_wide_product(a as int, b as int);
    }
    let p: i128 = a as i128 * b as i128;
    clamp_i128(floor_div(p, ONE as i128))
}

/// Saturating quotient of two fixed-point numbers.
pub fn fx_div(a: Real, b: Real) -> (r: Real)
    ensures
        r == div_spec(a as int, b as int),
{
    if b == 0 {
        return if a > 0 {
            i64::MAX
        } else if a < 0 {
            i64::MIN
        } else {
            0
        };
    }
    proof {
        lemma_wide_product(a as int, ONE as int);
    }
    let p: i128 = a as i128 * ONE as i128;
    assert(p > i128::MIN) by (nonlinear_arith)
        requires
            p == a * 0x1_0000_0000,
            a >= -0x8000_0000_0000_0000,
    ;
    if b > 0 {
        clamp_i128(floor_div(p, b as i128))
    } else {
        assert(-p == (-(a as int)) * one()) by (nonlinear_arith)
            requires
                p == a * 0x1_0000_0000,
        ;
        clamp_i128(floor_div(-p, -(b as i128)))
    }
}

/// The fractional part of `a`, in `[0, ONE)`.
pub fn fx_frac(a: Real) -> (r: Real)
    ensures
        r == frac_spec(a as int),
        0 <= r < ONE,
{
    let q: i128 = floor_div(a as i128, ONE as i128);
    proof {
        vstd::arithmetic::div_mod::lemma_fundamental_div_mod(a as int, one());
        vstd::arithmetic::div_mod::lemma_mod_bound(a as int, one());
    }
    (a as i128 - q * ONE as i128) as i64
}

/// The whole part of `a`, rounded toward minus infinity.
pub fn fx_floor(a: Real) -> (r: Real)
    ensures
        r == floor_spec(a as int),
        r + frac_spec(a as int) == a,
{
    let f = fx_frac(a);
    proof {
        vstd::arithmetic::div_mod::lemma_fundamental_div_mod(a as int, one());
    }
    a - f
}

/// The fixed-point value of a whole number, saturated.
pub fn from_int(n: i64) -> (r: Real)
    ensures
        r == from_int_spec(n as int),
{
    proof {
        lemma_wide_product(n as int, ONE as int);
    }
    clamp_i128(n as i128 * ONE as i128)
}

} // verus!
