//! Biquad coefficient design and the biquad, comb and all-pass filters.
use vstd::prelude::*;
use crate::fixed::{
    add_spec, div_spec, fx_add, fx_div, fx_mul, fx_sub, mul_spec, one, sub_spec, Real, HALF, ONE,
};
use crate::trig::{cos_turns, cosine_spec, sin_turns, sine_spec, tan_turns, tangent_spec};

verus! {

/// A quarter, raw.
pub const QUARTER_ONE: i64 = 0x4000_0000;

/// An eighth of a turn (`pi / 4` radians), raw.
pub const EIGHTH_TURN: i64 = 0x2000_0000;

/// Design coefficients `(b1, b2, a0, a1, a2)` as mathematical integers.
pub type Coeffs = (int, int, int, int, int);

/// The normalised cutoff `fc / sample_rate`, an angle in turns.
pub open spec fn phi_spec(sample_rate: int, fc: int) -> int {
    div_spec(fc, sample_rate)
}

/// Feedback coefficients shared by the low- and high-pass designs.
pub open spec fn pass_b2(sample_rate: int, fc: int, q: int) -> int {
    let s = sine_spec(phi_spec(sample_rate, fc));
    let q2 = add_spec(q, q);
    div_spec(sub_spec(q2, s), add_spec(q2, s))
}

/// `-(1 + b2) cos(phi)`.
pub open spec fn b1_of(sample_rate: int, fc: int, b2: int) -> int {
    mul_spec(sub_spec(0, add_spec(one(), b2)), cosine_spec(phi_spec(sample_rate, fc)))
}

pub open spec fn lpf_spec(sample_rate: int, fc: int, q: int) -> Coeffs {
    let b2 = pass_b2(sample_rate, fc, q);
    let b1 = b1_of(sample_rate, fc, b2);
    let a0 = mul_spec(QUARTER_ONE as int, add_spec(add_spec(one(), b1), b2));
    (b1, b2, a0, add_spec(a0, a0), a0)
}

pub open spec fn hpf_spec(sample_rate: int, fc: int, q: int) -> Coeffs {
    let b2 = pass_b2(sample_rate, fc, q);
    let b1 = b1_of(sample_rate, fc, b2);
    let a0 = mul_spec(QUARTER_ONE as int, add_spec(sub_spec(one(), b1), b2));
    (b1, b2, a0, sub_spec(0, add_spec(a0, a0)), a0)
}

/// `t * x + (1 - t) * y`.
pub open spec fn blend(t: int, x: int, y: int) -> int {
    add_spec(mul_spec(t, x), mul_spec(sub_spec(one(), t), y))
}

pub open spec fn lphpf_spec(sample_rate: int, fc: int, q: int, t: int) -> Coeffs {
    let l = lpf_spec(sample_rate, fc, q);
    let h = hpf_spec(sample_rate, fc, q);
    (l.0, l.1, blend(t, l.2, h.2), blend(t, l.3, h.3), blend(t, l.4, h.4))
}

/// `tan(pi/4 - phi/(2q))`, the band designs' feedback coefficient.
pub open spec fn band_b2(sample_rate: int, fc: int, q: int) -> int {
    tangent_spec(sub_spec(EIGHTH_TURN as int, div_spec(phi_spec(sample_rate, fc), add_spec(q, q))))
}

pub open spec fn bpf_spec(sample_rate: int, fc: int, q: int) -> Coeffs {
    let b2 = band_b2(sample_rate, fc, q);
    let b1 = b1_of(sample_rate, fc, b2);
    let a0 = mul_spec(HALF as int, sub_spec(one(), b2));
    (b1, b2, a0, 0, sub_spec(0, a0))
}

pub open spec fn notch_spec(sample_rate: int, fc: int, q: int) -> Coeffs {
    let b2 = band_b2(sample_rate, fc, q);
    let b1 = b1_of(sample_rate, fc, b2);
    let a0 = mul_spec(HALF as int, add_spec(one(), b2));
    (b1, b2, a0, b1, a0)
}

/// The result of a tuple of coefficients, widened.
pub open spec fn widen(c: (i64, i64, i64, i64, i64)) -> Coeffs {
    (c.0 as int, c.1 as int, c.2 as int, c.3 as int, c.4 as int)
}

fn pass_feedback(sample_rate: Real, fc: Real, q: Real) -> (r: (Real, Real))
    ensures
        r.1 == pass_b2(sample_rate as int, fc as int, q as int),
        r.0 == b1_of(sample_rate as int, fc as int, r.1 as int),
{
    let phi = fx_div(fc, sample_rate);
    let s = sin_turns(phi);
    let q2 = fx_add(q, q);
    let b2 = fx_div(fx_sub(q2, s), fx_add(q2, s));
    let b1 = fx_mul(fx_sub(0, fx_add(ONE, b2)), cos_turns(phi));
    (b1, b2)
}

fn band_feedback(sample_rate: Real, fc: Real, q: Real) -> (r: (Real, Real))
    ensures
        r.1 == band_b2(sample_rate as int, fc as int, q as int),
        r.0 == b1_of(sample_rate as int, fc as int, r.1 as int),
{
    let phi = fx_div(fc, sample_rate);
    let b2 = tan_turns(fx_sub(EIGHTH_TURN, fx_div(phi, fx_add(q, q))));
    let b1 = fx_mul(fx_sub(0, fx_add(ONE, b2)), cos_turns(phi));
    (b1, b2)
}

/// Low-pass design `(b1, b2, a0, a1, a2)` for cutoff `fc` and resonance `q`.
pub fn lpf(sample_rate: Real, fc: Real, q: Real) -> (r: (Real, Real, Real, Real, Real))
    ensures
        widen(r) == lpf_spec(sample_rate as int, fc as int, q as int),
{
    let (b1, b2) = pass_feedback(sample_rate, fc, q);
    let a0 = fx_mul(QUARTER_ONE, fx_add(fx_add(ONE, b1), b2));
    (b1, b2, a0, fx_add(a0, a0), a0)
}

/// High-pass design `(b1, b2, a0, a1, a2)` for cutoff `fc` and resonance `q`.
pub fn hpf(sample_rate: Real, fc: Real, q: Real) -> (r: (Real, Real, Real, Real, Real))
    ensures
        widen(r) == hpf_spec(sample_rate as int, fc as int, q as int),
{
    let (b1, b2) = pass_feedback(sample_rate, fc, q);
    let a0 = fx_mul(QUARTER_ONE, fx_add(fx_sub(ONE, b1), b2));
    (b1, b2, a0, fx_sub(0, fx_add(a0, a0)), a0)
}

fn blend_exec(t: Real, x: Real, y: Real) -> (r: Real)
    ensures
        r == blend(t as int, x as int, y as int),
{
    fx_add(fx_mul(t, x), fx_mul(fx_sub(ONE, t), y))
}

/// A blend of the low-pass (`t == ONE`) and high-pass (`t == 0`) designs.
pub fn lphpf(sample_rate: Real, fc: Real, q: Real, t: Real) -> (r: (Real, Real, Real, Real, Real))
    ensures
        widen(r) == lphpf_spec(sample_rate as int, fc as int, q as int, t as int),
{
    let (b1, b2, a0l, a1l, a2l) = lpf(sample_rate, fc, q);
    let (_b1h, _b2h, a0h, a1h, a2h) = hpf(sample_rate, fc, q);
    (b1, b2, blend_exec(t, a0l, a0h), blend_exec(t, a1l, a1h), blend_exec(t, a2l, a2h))
}

/// Band-pass design `(b1, b2, a0, a1, a2)`.
pub fn bpf(sample_rate: Real, fc: Real, q: Real) -> (r: (Real, Real, Real, Real, Real))
    ensures
        widen(r) == bpf_spec(sample_rate as int, fc as int, q as int),
{
    let (b1, b2) = band_feedback(sample_rate, fc, q);
    let a0 = fx_mul(HALF, fx_sub(ONE, b2));
    (b1, b2, a0, 0, fx_sub(0, a0))
}

/// Notch design `(b1, b2, a0, a1, a2)`.
pub fn notch(sample_rate: Real, fc: Real, q: Real) -> (r: (Real, Real, Real, Real, Real))
    ensures
        widen(r) == notch_spec(sample_rate as int, fc as int, q as int),
{
    let (b1, b2) = band_feedback(sample_rate, fc, q);
    let a0 = fx_mul(HALF, fx_add(ONE, b2));
    (b1, b2, a0, b1, a0)
}

/// The low-pass design has unity gain at zero frequency: its feed-forward
/// coefficients sum to its feedback polynomial `1 + b1 + b2`, up to the
/// rounding of one quarter (at most three units in the last place).
pub proof fn lemma_lpf_unity_dc(sample_rate: int, fc: int, q: int)
    ensures
        ({
            let c = lpf_spec(sample_rate, fc, q);
            let den = add_spec(add_spec(one(), c.0), c.1);
            den - 3 <= c.2 + c.3 + c.4 <= den
        }),
{
    let c = lpf_spec(sample_rate, fc, q);
    let den = add_spec(add_spec(one(), c.0), c.1);
    let p = QUARTER_ONE as int * den;
    vstd::arithmetic::div_mod::lemma_fundamental_div_mod(p, one());
    vstd::arithmetic::div_mod::lemma_mod_bound(p, one());
    assert(p == (den / 4) * one() + (den % 4) * QUARTER_ONE);
    vstd::arithmetic::div_mod::lemma_fundamental_div_mod(den, 4);
    vstd::arithmetic::div_mod::lemma_mod_bound(den, 4);
    vstd::arithmetic::div_mod::lemma_fundamental_div_mod_converse(
        p,
        one(),
        den / 4,
        (den % 4) * QUARTER_ONE,
    );
    assert(c.2 == den / 4);
}

/// The output of the direct-form recursion for input `x0` with history
/// `x1, x2` (inputs) and `y1, y2` (outputs).
pub open spec fn biquad_spec(c: Coeffs, x0: int, x1: int, x2: int, y1: int, y2: int) -> int {
    sub_spec(
        sub_spec(
            add_spec(add_spec(mul_spec(c.2, x0), mul_spec(c.3, x1)), mul_spec(c.4, x2)),
            mul_spec(c.0, y1),
        ),
        mul_spec(c.1, y2),
    )
}

/// One step of the direct-form recursion.
pub fn biquad_step(
    c: (Real, Real, Real, Real, Real),
    x0: Real,
    x1: Real,
    x2: Real,
    y1: Real,
    y2: Real,
) -> (r: Real)
    ensures
        r == biquad_spec(widen(c), x0 as int, x1 as int, x2 as int, y1 as int, y2 as int),
{
    let (b1, b2, a0, a1, a2) = c;
    fx_sub(
        fx_sub(fx_add(fx_add(fx_mul(a0, x0), fx_mul(a1, x1)), fx_mul(a2, x2)), fx_mul(b1, y1)),
        fx_mul(b2, y2),
    )
}

/// A biquad filter with fixed coefficients and two samples of history on each side.
pub struct BiquadFilter {
    /// The module whose output is filtered.
    pub wave: usize,
    pub b1: Real,
    pub b2: Real,
    pub a0: Real,
    pub a1: Real,
    pub a2: Real,
    pub x1: Real,
    pub x2: Real,
    pub y1: Real,
    pub y2: Real,
    /// Bypass: when set the input passes through and the history stays.
    pub off: bool,
}

impl BiquadFilter {
    /// The history `(x1, x2, y1, y2)`.
    pub open spec fn history(&self) -> (int, int, int, int) {
        (self.x1 as int, self.x2 as int, self.y1 as int, self.y2 as int)
    }

    /// The coefficients `(b1, b2, a0, a1, a2)`.
    pub open spec fn coeffs(&self) -> Coeffs {
        (self.b1 as int, self.b2 as int, self.a0 as int, self.a1 as int, self.a2 as int)
    }

    /// A filter with the given coefficients, silent history, not bypassed.
    pub fn new(wave: usize, b1: Real, b2: Real, a0: Real, a1: Real, a2: Real) -> (r: Self)
        ensures
            r.wave == wave,
            r.coeffs() == (b1 as int, b2 as int, a0 as int, a1 as int, a2 as int),
            r.history() == (0int, 0int, 0int, 0int),
            !r.off,
    {
        BiquadFilter { wave, b1, b2, a0, a1, a2, x1: 0, x2: 0, y1: 0, y2: 0, off: false }
    }

    /// A low-pass filter.
    pub fn lpf(wave: usize, sample_rate: Real, fc: Real, q: Real) -> (r: Self)
        ensures
            r.wave == wave,
            r.coeffs() == lpf_spec(sample_rate as int, fc as int, q as int),
            r.history() == (0int, 0int, 0int, 0int),
            !r.off,
    {
        let (b1, b2, a0, a1, a2) = lpf(sample_rate, fc, q);
        Self::new(wave, b1, b2, a0, a1, a2)
    }

    /// A high-pass filter.
    pub fn hpf(wave: usize, sample_rate: Real, fc: Real, q: Real) -> (r: Self)
        ensures
            r.wave == wave,
            r.coeffs() == hpf_spec(sample_rate as int, fc as int, q as int),
            r.history() == (0int, 0int, 0int, 0int),
            !r.off,
    {
        let (b1, b2, a0, a1, a2) = hpf(sample_rate, fc, q);
        Self::new(wave, b1, b2, a0, a1, a2)
    }

    /// A filter between low-pass (`t == ONE`) and high-pass (`t == 0`).
    pub fn lphpf(wave: usize, sample_rate: Real, fc: Real, q: Real, t: Real) -> (r: Self)
        ensures
            r.wave == wave,
            r.coeffs() == lphpf_spec(sample_rate as int, fc as int, q as int, t as int),
            r.history() == (0int, 0int, 0int, 0int),
            !r.off,
    {
        let (b1, b2, a0, a1, a2) = lphpf(sample_rate, fc, q, t);
        Self::new(wave, b1, b2, a0, a1, a2)
    }

    /// A band-pass filter.
    pub fn bpf(wave: usize, sample_rate: Real, fc: Real, q: Real) -> (r: Self)
        ensures
            r.wave == wave,
            r.coeffs() == bpf_spec(sample_rate as int, fc as int, q as int),
            r.history() == (0int, 0int, 0int, 0int),
            !r.off,
    {
        let (b1, b2, a0, a1, a2) = bpf(sample_rate, fc, q);
        Self::new(wave, b1, b2, a0, a1, a2)
    }

    /// A notch filter.
    pub fn notch(wave: usize, sample_rate: Real, fc: Real, q: Real) -> (r: Self)
        ensures
            r.wave == wave,
            r.coeffs() == notch_spec(sample_rate as int, fc as int, q as int),
            r.history() == (0int, 0int, 0int, 0int),
            !r.off,
    {
        let (b1, b2, a0, a1, a2) = notch(sample_rate, fc, q);
        Self::new(wave, b1, b2, a0, a1, a2)
    }

    /// Filters one input sample.
    pub fn signal(&mut self, x0: Real) -> (r: Real)
        ensures
            final(self).wave == old(self).wave,
            final(self).coeffs() == old(self).coeffs(),
            final(self).off == old(self).off,
            old(self).off ==> r == x0 && final(self).history() == old(self).history(),
            !old(self).off ==> {
                let h = old(self).history();
                &&& r == biquad_spec(old(self).coeffs(), x0 as int, h.0, h.1, h.2, h.3)
                &&& final(self).history() == (x0 as int, h.0, r as int, h.2)
            },
    {
        if self.off {
            return x0;
        }
        let amp = biquad_step(
            (self.b1, self.b2, self.a0, self.a1, self.a2),
            x0,
            self.x1,
            self.x2,
            self.y1,
            self.y2,
        );
        self.x2 = self.x1;
        self.x1 = x0;
        self.y2 = self.y1;
        self.y1 = amp;
        amp
    }
}

/// A feedback comb filter with a one-pole low-pass in its loop.
pub struct Comb {
    pub wave: usize,
    pub buffer: Vec<Real>,
    pub index: usize,
    pub feedback: Real,
    pub filter_state: Real,
    pub dampening: Real,
    pub dampening_inverse: Real,
}

/// The comb's one-pole low-pass: the new filter state for delayed sample `out`.
pub open spec fn comb_filter_spec(out: int, state: int, dampening: int, dampening_inverse: int) -> int {
    add_spec(mul_spec(out, dampening_inverse), mul_spec(state, dampening))
}

impl Comb {
    pub open spec fn contents(&self) -> Seq<i64> {
        self.buffer@
    }

    pub open spec fn position(&self) -> int {
        self.index as int
    }

    pub open spec fn wf(&self) -> bool {
        0 < self.buffer@.len() && self.index < self.buffer@.len()
    }

    /// A comb of `length` silent slots, feedback and dampening one half.
    pub fn new(wave: usize, length: usize) -> (r: Self)
        requires
            length > 0,
        ensures
            r.wf(),
            r.wave == wave,
            r.contents() == Seq::new(length as nat, |_i| 0i64),
            r.position() == 0,
            r.feedback == HALF,
            r.filter_state == 0,
            r.dampening == HALF,
            r.dampening_inverse == HALF,
    {
        Comb {
            wave,
            buffer: vec![0i64; length],
            index: 0,
            feedback: HALF,
            filter_state: 0,
            dampening: HALF,
            dampening_inverse: HALF,
        }
    }

    /// Returns the delayed sample and writes back the input plus the
    /// filtered, scaled feedback.
    pub fn signal(&mut self, input: Real) -> (r: Real)
        requires
            old(self).wf(),
        ensures
            final(self).wf(),
            r == old(self).contents()[old(self).position()],
            final(self).filter_state == comb_filter_spec(
                r as int,
                old(self).filter_state as int,
                old(self).dampening as int,
                old(self).dampening_inverse as int,
            ),
            final(self).contents() == old(self).contents().update(
                old(self).position(),
                add_spec(
                    input as int,
                    mul_spec(final(self).filter_state as int, old(self).feedback as int),
                ) as i64,
            ),
            final(self).position() == (old(self).position() + 1) % (old(
                self,
            ).contents().len() as int),
            final(self).wave == old(self).wave,
            final(self).feedback == old(self).feedback,
            final(self).dampening == old(self).dampening,
            final(self).dampening_inverse == old(self).dampening_inverse,
    {
        let output = self.buffer[self.index];
        self.filter_state = fx_add(
            fx_mul(output, self.dampening_inverse),
            fx_mul(self.filter_state, self.dampening),
        );
        let w = fx_add(input, fx_mul(self.filter_state, self.feedback));
        self.buffer.set(self.index, w);
        let len = self.buffer.len();
        let n = self.index + 1;
        self.index = if n == len { 0 } else { n };
        proof {
            let len = self.buffer@.len() as int;
            if n == len {
                vstd::arithmetic::div_mod::lemma_mod_self_0(len);
            } else {
                vstd::arithmetic::div_mod::lemma_small_mod(n as nat, len as nat);
            }
        }
        output
    }
}

/// A Schroeder all-pass: flat magnitude, phase-only response.
pub struct AllPass {
    pub wave: usize,
    pub buffer: Vec<Real>,
    pub index: usize,
}

impl AllPass {
    pub open spec fn contents(&self) -> Seq<i64> {
        self.buffer@
    }

    pub open spec fn position(&self) -> int {
        self.index as int
    }

    pub open spec fn wf(&self) -> bool {
        0 < self.buffer@.len() && self.index < self.buffer@.len()
    }

    /// An all-pass of `length` silent slots.
    pub fn new(wave: usize, length: usize) -> (r: Self)
        requires
            length > 0,
        ensures
            r.wf(),
            r.wave == wave,
            r.contents() == Seq::new(length as nat, |_i| 0i64),
            r.position() == 0,
    {
        AllPass { wave, buffer: vec![0i64; length], index: 0 }
    }

    /// Returns the delayed sample minus the input and writes back the input
    /// plus half the delayed sample.
    pub fn signal(&mut self, input: Real) -> (r: Real)
        requires
            old(self).wf(),
        ensures
            final(self).wf(),
            final(self).wave == old(self).wave,
            ({
                let delayed = old(self).contents()[old(self).position()] as int;
                &&& r == sub_spec(delayed, input as int)
                &&& final(self).contents() == old(self).contents().update(
                    old(self).position(),
                    add_spec(input as int, mul_spec(HALF as int, delayed)) as i64,
                )
            }),
            final(self).position() == (old(self).position() + 1) % (old(
                self,
            ).contents().len() as int),
    {
        let delayed = self.buffer[self.index];
        let output = fx_sub(delayed, input);
        self.buffer.set(self.index, fx_add(input, fx_mul(HALF, delayed)));
        let len = self.buffer.len();
        let n = self.index + 1;
        self.index = if n == len { 0 } else { n };
        proof {
            let len = self.buffer@.len() as int;
            if n == len {
                vstd::arithmetic::div_mod::lemma_mod_self_0(len);
            } else {
                vstd::arithmetic::div_mod::lemma_small_mod(n as nat, len as nat);
            }
        }
        output
    }
}

} // verus!
