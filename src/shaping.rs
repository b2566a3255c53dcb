//! Wave shapers: a sine folder and a soft clipper.
use vstd::prelude::*;
use crate::fixed::{add_spec, div_spec, fx_add, fx_div, fx_mul, mul_spec, one, Real, ONE};
use crate::trig::{sin_turns, sine_spec};

verus! {

/// A full turn in radians, `2 * pi`, raw.
pub const TAU: i64 = 26986075409;

/// The soft clipper's knee: inputs beyond three in magnitude are fully clipped.
pub const KNEE: i64 = 3 * ONE;

/// A rational soft clipper shaped like `tanh`: `x (27 + x^2) / (27 + 9 x^2)`
/// inside the knee, `-ONE` or `ONE` beyond it.
pub open spec fn soft_clip_spec(x: int) -> int {
    if x >= 3 * one() {
        one()
    } else if x <= -3 * one() {
        -one()
    } else {
        let x2 = mul_spec(x, x);
        div_spec(mul_spec(x, add_spec(27 * one(), x2)), add_spec(27 * one(), mul_spec(9 * one(), x2)))
    }
}

/// The folded sample: the sine of `wave / fold` turns.
pub open spec fn fold_spec(wave: int, fold: int) -> int {
    sine_spec(div_spec(wave, fold))
}

/// Soft-clips `x`.
pub fn soft_clip(x: Real) -> (r: Real)
    ensures
        r == soft_clip_spec(x as int),
{
    if x >= KNEE {
        ONE
    } else if x <= -KNEE {
        -ONE
    } else {
        let x2 = fx_mul(x, x);
        assert(x2 >= 0) by (nonlinear_arith)
            requires
                x2 == mul_spec(x as int, x as int),
        ;
        let den = fx_add(27 * ONE, fx_mul(9 * ONE, x2));
        assert(den > 0) by (nonlinear_arith)
            requires
                den == add_spec(27 * one(), mul_spec(9 * one(), x2 as int)),
                x2 >= 0,
        ;
        fx_div(fx_mul(x, fx_add(27 * ONE, x2)), den)
    }
}

/// Folds `wave` through a sine, `fold` setting how many folds fit a unit swing.
pub fn sine_fold(wave: Real, fold: Real) -> (r: Real)
    ensures
        r == fold_spec(wave as int, fold as int),
{
    sin_turns(fx_div(wave, fold))
}

} // verus!
