//! Per-sample arithmetic of the combinator modules, over resolved values.
use vstd::prelude::*;
use crate::fixed::{add_spec, fx_add, fx_mul, fx_sub, mul_spec, one, sub_spec, Real, ONE};

verus! {

/// The value a control stands for: a constant, or the output of an earlier module.
#[derive(Clone, Copy, Debug, PartialEq, Eq, Structural)]
pub enum In {
    /// A constant.
    Fixed(i64),
    /// Output slot `slot` of the module tagged `tag`.
    Reference(usize, usize),
}

/// What `c` resolves to against the published outputs `outs`.
pub open spec fn val(outs: Seq<i64>, c: In) -> int {
    match c {
        In::Fixed(v) => v as int,
        In::Reference(t, _s) => outs[t as int] as int,
    }
}

/// A control may be read by the module tagged `t` only if it is constant
/// or refers to slot 0 of a module created before `t`.
pub open spec fn valid_in(c: In, t: int) -> bool {
    match c {
        In::Fixed(_v) => true,
        In::Reference(u, s) => u < t && s == 0,
    }
}

/// The weighted sum of the first `n` waves, wave `i` scaled by level `i`.
pub open spec fn mix_acc(outs: Seq<i64>, waves: Seq<usize>, levels: Seq<In>, n: int) -> int
    decreases n,
{
    if n <= 0 {
        0
    } else {
        add_spec(
            mix_acc(outs, waves, levels, n - 1),
            mul_spec(outs[waves[n - 1] as int] as int, val(outs, levels[n - 1])),
        )
    }
}

/// The product of the first `n` waves.
pub open spec fn product_acc(outs: Seq<i64>, waves: Seq<usize>, n: int) -> int
    decreases n,
{
    if n <= 0 {
        one()
    } else {
        mul_spec(product_acc(outs, waves, n - 1), outs[waves[n - 1] as int] as int)
    }
}

/// The sum of the first `n` waves.
pub open spec fn sum_acc(outs: Seq<i64>, waves: Seq<usize>, n: int) -> int
    decreases n,
{
    if n <= 0 {
        0
    } else {
        add_spec(sum_acc(outs, waves, n - 1), outs[waves[n - 1] as int] as int)
    }
}

/// A blend of `w1` and `w2`: `alpha == 0` gives all of `w1`, `alpha == ONE` all of `w2`.
pub open spec fn cross_fade_spec(w1: int, w2: int, alpha: int) -> int {
    add_spec(mul_spec(alpha, w2), mul_spec(sub_spec(one(), alpha), w1))
}

/// A carrier frequency: `base_hz` moved by `index * mod_hz * wave`.
pub open spec fn modulate_spec(base_hz: int, mod_hz: int, index: int, wave: int) -> int {
    add_spec(base_hz, mul_spec(mul_spec(index, mod_hz), wave))
}

/// Cross-fades two samples by `alpha`.
pub fn cross_fade(w1: Real, w2: Real, alpha: Real) -> (r: Real)
    ensures
        r == cross_fade_spec(w1 as int, w2 as int, alpha as int),
{
    fx_add(fx_mul(alpha, w2), fx_mul(fx_sub(ONE, alpha), w1))
}

/// The frequency-modulated carrier frequency.
pub fn modulate(base_hz: Real, mod_hz: Real, index: Real, wave: Real) -> (r: Real)
    ensures
        r == modulate_spec(base_hz as int, mod_hz as int, index as int, wave as int),
{
    fx_add(base_hz, fx_mul(fx_mul(index, mod_hz), wave))
}

} // verus!
