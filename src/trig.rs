//! Fixed-point circular functions. Angles are measured in turns: `ONE` is a
//! full circle, so a phase accumulator feeds them directly.
use vstd::prelude::*;
use crate::fixed::{add_spec, div_spec, fx_add, fx_div, fx_frac, fx_mul, mul_spec, one, Real, ONE};

verus! {

/// Odd Taylor coefficients of `sin(pi/2 * z)`, in Q32.32.
pub const S1: i64 = 6746518852;
pub const S3: i64 = -2774394673;
pub const S5: i64 = 342277223;
pub const S7: i64 = -20107981;
pub const S9: i64 = 689090;
pub const S11: i64 = -15457;
pub const S13: i64 = 244;

/// A quarter turn, raw.
pub const QUARTER: i64 = 0x4000_0000;

/// Clamp into `[0, ONE]`.
pub open spec fn unit(x: int) -> int {
    if x < 0 {
        0
    } else if x > one() {
        one()
    } else {
        x
    }
}

/// The sine of a quarter-circle position `z` (`0` is no angle, `ONE` is a
/// quarter turn), as the polynomial evaluated in fixed point, in `[0, ONE]`.
pub open spec fn quarter_sine(z: int) -> int {
    let z2 = mul_spec(z, z);
    let r = add_spec(S11 as int, mul_spec(S13 as int, z2));
    let r = add_spec(S9 as int, mul_spec(r, z2));
    let r = add_spec(S7 as int, mul_spec(r, z2));
    let r = add_spec(S5 as int, mul_spec(r, z2));
    let r = add_spec(S3 as int, mul_spec(r, z2));
    let r = add_spec(S1 as int, mul_spec(r, z2));
    unit(mul_spec(r, z))
}

/// The sine of an angle in turns, by reflection into the first quarter.
pub open spec fn sine_spec(p: int) -> int {
    let q = one() / 4;
    let t = p % one();
    if t <= q {
        quarter_sine(4 * t)
    } else if t <= 2 * q {
        quarter_sine(4 * (2 * q - t))
    } else if t <= 3 * q {
        -quarter_sine(4 * (t - 2 * q))
    } else {
        -quarter_sine(4 * (one() - t))
    }
}

/// The cosine of an angle in turns: the sine a quarter turn later.
pub open spec fn cosine_spec(p: int) -> int {
    sine_spec(p % one() + one() / 4)
}

/// The tangent of an angle in turns; at a pole it saturates to the largest value.
pub open spec fn tangent_spec(p: int) -> int {
    if cosine_spec(p) == 0 {
        i64::MAX as int
    } else {
        div_spec(sine_spec(p), cosine_spec(p))
    }
}

fn quarter_sine_exec(z: Real) -> (r: Real)
    ensures
        r == quarter_sine(z as int),
        0 <= r <= ONE,
{
    let z2 = fx_mul(z, z);
    let r = fx_add(S11, fx_mul(S13, z2));
    let r = fx_add(S9, fx_mul(r, z2));
    let r = fx_add(S7, fx_mul(r, z2));
    let r = fx_add(S5, fx_mul(r, z2));
    let r = fx_add(S3, fx_mul(r, z2));
    let r = fx_add(S1, fx_mul(r, z2));
    let v = fx_mul(r, z);
    if v < 0 {
        0
    } else if v > ONE {
        ONE
    } else {
        v
    }
}

/// The sine of `p` turns.
pub fn sin_turns(p: Real) -> (r: Real)
    ensures
        r == sine_spec(p as int),
        -ONE <= r <= ONE,
{
    let t = fx_frac(p);
    if t <= QUARTER {
        quarter_sine_exec(4 * t)
    } else if t <= 2 * QUARTER {
        quarter_sine_exec(4 * (2 * QUARTER - t))
    } else if t <= 3 * QUARTER {
        -quarter_sine_exec(4 * (t - 2 * QUARTER))
    } else {
        -quarter_sine_exec(4 * (ONE - t))
    }
}

/// The cosine of `p` turns.
pub fn cos_turns(p: Real) -> (r: Real)
    ensures
        r == cosine_spec(p as int),
        -ONE <= r <= ONE,
{
    let t = fx_frac(p);
    sin_turns(t + QUARTER)
}

/// The tangent of `p` turns, saturating at a pole.
pub fn tan_turns(p: Real) -> (r: Real)
    ensures
        r == tangent_spec(p as int),
{
    let c = cos_turns(p);
    if c == 0 {
        i64::MAX
    } else {
        fx_div(sin_turns(p), c)
    }
}

proof fn lemma_mul_by_zero(x: int)
    ensures
        mul_spec(x, 0) == 0,
        mul_spec(0, x) == 0,
{
    assert(x * 0 == 0);
    assert(0 * x == 0);
}

proof fn lemma_quarter_sine_zero()
    ensures
        quarter_sine(0) == 0,
{
    lemma_mul_by_zero(0);
    let r = add_spec(S11 as int, mul_spec(S13 as int, 0));
    let r = add_spec(S9 as int, mul_spec(r, 0));
    let r = add_spec(S7 as int, mul_spec(r, 0));
    let r = add_spec(S5 as int, mul_spec(r, 0));
    let r = add_spec(S3 as int, mul_spec(r, 0));
    let r = add_spec(S1 as int, mul_spec(r, 0));
    lemma_mul_by_zero(r);
}

proof fn lemma_mul_by_one(x: int)
    requires
        i64::MIN <= x <= i64::MAX,
    ensures
        mul_spec(x, one()) == x,
{
    vstd::arithmetic::div_mod::lemma_div_multiples_vanish(x, one());
    assert(one() * x == x * one());
}

/// The sine is zero at no angle and one at a quarter turn.
pub proof fn lemma_sine_landmarks()
    ensures
        sine_spec(0) == 0,
        sine_spec(one() / 4) == one(),
{
    lemma_quarter_sine_zero();
    assert(0int % one() == 0);
    vstd::arithmetic::div_mod::lemma_small_mod((one() / 4) as nat, one() as nat);
    let z = one();
    lemma_mul_by_one(one());
    let r0 = add_spec(S11 as int, mul_spec(S13 as int, one()));
    lemma_mul_by_one(S13 as int);
    lemma_mul_by_one(r0);
    let r1 = add_spec(S9 as int, mul_spec(r0, one()));
    lemma_mul_by_one(r1);
    let r2 = add_spec(S7 as int, mul_spec(r1, one()));
    lemma_mul_by_one(r2);
    let r3 = add_spec(S5 as int, mul_spec(r2, one()));
    lemma_mul_by_one(r3);
    let r4 = add_spec(S3 as int, mul_spec(r3, one()));
    lemma_mul_by_one(r4);
    let r5 = add_spec(S1 as int, mul_spec(r4, one()));
    lemma_mul_by_one(r5);
    assert(r5 == one() + 2);
}

/// The sine is odd: a negative angle gives the negated value.
pub proof fn lemma_sine_odd(p: int)
    ensures
        sine_spec(-p) == -sine_spec(p),
{
    lemma_quarter_sine_zero();
    let o = one();
    let t = p % o;
    vstd::arithmetic::div_mod::lemma_fundamental_div_mod(p, o);
    vstd::arithmetic::div_mod::lemma_mod_bound(p, o);
    let k = p / o;
    if t == 0 {
        vstd::arithmetic::div_mod::lemma_fundamental_div_mod_converse(-p, o, -k, 0);
        assert((-p) % o == 0);
    } else {
        assert(-p == (-k - 1) * o + (o - t)) by (nonlinear_arith)
            requires
                p == o * k + t,
        ;
        vstd::arithmetic::div_mod::lemma_fundamental_div_mod_converse(-p, o, -k - 1, o - t);
        assert((-p) % o == o - t);
    }
}

/// Half a turn on, the sine is negated.
pub proof fn lemma_sine_half_turn(p: int)
    ensures
        sine_spec(p + one() / 2) == -sine_spec(p),
{
    lemma_quarter_sine_zero();
    let o = one();
    let t = p % o;
    vstd::arithmetic::div_mod::lemma_fundamental_div_mod(p, o);
    vstd::arithmetic::div_mod::lemma_mod_bound(p, o);
    let k = p / o;
    if t < o / 2 {
        vstd::arithmetic::div_mod::lemma_fundamental_div_mod_converse(p + o / 2, o, k, t + o / 2);
    } else {
        assert(p + o / 2 == (k + 1) * o + (t - o / 2)) by (nonlinear_arith)
            requires
                p == o * k + t,
                o == 0x1_0000_0000,
        ;
        vstd::arithmetic::div_mod::lemma_fundamental_div_mod_converse(p + o / 2, o, k + 1, t - o / 2);
    }
}

} // verus!
