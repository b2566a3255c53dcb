//! Free-running oscillators with their own phase, and Fourier sums of sines.
use vstd::prelude::*;
use crate::fixed::{
    add_spec, div_spec, floor_spec, frac_spec, from_int, from_int_spec, fx_add, fx_div, fx_floor,
    fx_frac, fx_mul, fx_sub, mul_spec, one, sub_spec, Real, HALF, ONE,
};
use crate::trig::{sin_turns, sine_spec};

verus! {

/// A thousandth, raw: a square wave is silent this close after each cycle starts.
pub const MILLI: i64 = 4294967;

/// 0.499, raw: a saw wave is silent below minus this.
pub const SAW_EDGE: i64 = 2143188679;

/// Three quarters, raw.
pub const THREE_QUARTERS: i64 = 0xC000_0000;

/// The phase one sample later: the frequency `hz`, raised by the fraction
/// `add` of itself, over the sample rate, wrapped into one cycle.
pub open spec fn advance_phase(phase: int, hz: int, add: int, sample_rate: int) -> int {
    frac_spec(add_spec(phase, div_spec(add_spec(hz, mul_spec(add, hz)), sample_rate)))
}

pub open spec fn sine_out(amplitude: int, phase: int) -> int {
    mul_spec(amplitude, sine_spec(phase))
}

pub open spec fn square_out(amplitude: int, phase: int) -> int {
    let t = frac_spec(phase);
    if t < MILLI {
        0
    } else if t <= HALF {
        amplitude
    } else {
        sub_spec(0, amplitude)
    }
}

/// `-t - floor(1/2 - t)`: a ramp from `-1/2` to `1/2` over a cycle.
pub open spec fn ramp(t: int) -> int {
    sub_spec(sub_spec(0, t), floor_spec(sub_spec(HALF as int, t)))
}

pub open spec fn saw_out(amplitude: int, phase: int) -> int {
    let s = ramp(sub_spec(phase, HALF as int));
    if s < -SAW_EDGE {
        0
    } else {
        mul_spec(amplitude, add_spec(s, s))
    }
}

pub open spec fn abs_spec(x: int) -> int {
    if x < 0 {
        sub_spec(0, x)
    } else {
        x
    }
}

/// A triangle swinging between `-amplitude` and `amplitude`.
pub open spec fn triangle_out(amplitude: int, phase: int) -> int {
    let r = ramp(sub_spec(phase, THREE_QUARTERS as int));
    let saw = add_spec(r, r);
    let a = abs_spec(saw);
    mul_spec(amplitude, sub_spec(add_spec(a, a), one()))
}

fn ramp_exec(t: Real) -> (r: Real)
    ensures
        r == ramp(t as int),
{
    fx_sub(fx_sub(0, t), fx_floor(fx_sub(HALF, t)))
}

fn advance_exec(phase: Real, hz: Real, add: Real, sample_rate: Real) -> (r: Real)
    ensures
        r == advance_phase(phase as int, hz as int, add as int, sample_rate as int),
        0 <= r < ONE,
{
    fx_frac(fx_add(phase, fx_div(fx_add(hz, fx_mul(add, hz)), sample_rate)))
}

/// A sine oscillator.
#[derive(Clone, Copy, Debug, PartialEq, Eq, Structural)]
pub struct SineWave {
    pub hz: Real,
    pub amplitude: Real,
    /// In turns.
    pub phase: Real,
}

impl SineWave {
    pub open spec fn advanced(self, sample_rate: int, add: int) -> SineWave {
        SineWave { phase: advance_phase(self.phase as int, self.hz as int, add, sample_rate) as i64, ..self }
    }

    /// Amplitude one, phase zero.
    pub fn new(hz: Real) -> (r: Self)
        ensures
            r == (SineWave { hz, amplitude: ONE, phase: 0 }),
    {
        SineWave { hz, amplitude: ONE, phase: 0 }
    }

    /// The current sample; then the phase advances by the frequency raised
    /// by the fraction `add` of itself.
    pub fn signal_add(&mut self, sample_rate: Real, add: Real) -> (r: Real)
        ensures
            r == sine_out(old(self).amplitude as int, old(self).phase as int),
            *final(self) == old(self).advanced(sample_rate as int, add as int),
    {
        let amp = fx_mul(self.amplitude, sin_turns(self.phase));
        self.phase = advance_exec(self.phase, self.hz, add, sample_rate);
        amp
    }

    pub fn signal(&mut self, sample_rate: Real) -> (r: Real)
        ensures
            r == sine_out(old(self).amplitude as int, old(self).phase as int),
            *final(self) == old(self).advanced(sample_rate as int, 0),
    {
        self.signal_add(sample_rate, 0)
    }
}

/// A square oscillator.
#[derive(Clone, Copy, Debug, PartialEq, Eq, Structural)]
pub struct SquareWave {
    pub hz: Real,
    pub amplitude: Real,
    pub phase: Real,
}

impl SquareWave {
    pub fn new(hz: Real) -> (r: Self)
        ensures
            r == (SquareWave { hz, amplitude: ONE, phase: 0 }),
    {
        SquareWave { hz, amplitude: ONE, phase: 0 }
    }

    pub fn signal_add(&mut self, sample_rate: Real, add: Real) -> (r: Real)
        ensures
            r == square_out(old(self).amplitude as int, old(self).phase as int),
            *final(self) == (SquareWave {
                phase: advance_phase(old(self).phase as int, old(self).hz as int, add as int, sample_rate as int) as i64,
                ..*old(self)
            }),
    {
        let t = fx_frac(self.phase);
        let amp = if t < MILLI {
            0
        } else if t <= HALF {
            self.amplitude
        } else {
            fx_sub(0, self.amplitude)
        };
        self.phase = advance_exec(self.phase, self.hz, add, sample_rate);
        amp
    }
}

/// A saw oscillator.
#[derive(Clone, Copy, Debug, PartialEq, Eq, Structural)]
pub struct SawWave {
    pub hz: Real,
    pub amplitude: Real,
    pub phase: Real,
}

impl SawWave {
    pub fn new(hz: Real) -> (r: Self)
        ensures
            r == (SawWave { hz, amplitude: ONE, phase: 0 }),
    {
        SawWave { hz, amplitude: ONE, phase: 0 }
    }

    pub fn signal_add(&mut self, sample_rate: Real, add: Real) -> (r: Real)
        ensures
            r == saw_out(old(self).amplitude as int, old(self).phase as int),
            *final(self) == (SawWave {
                phase: advance_phase(old(self).phase as int, old(self).hz as int, add as int, sample_rate as int) as i64,
                ..*old(self)
            }),
    {
        let s = ramp_exec(fx_sub(self.phase, HALF));
        let amp = if s < -SAW_EDGE {
            0
        } else {
            fx_mul(self.amplitude, fx_add(s, s))
        };
        self.phase = advance_exec(self.phase, self.hz, add, sample_rate);
        amp
    }
}

/// A triangle oscillator.
#[derive(Clone, Copy, Debug, PartialEq, Eq, Structural)]
pub struct TriangleWave {
    pub hz: Real,
    pub amplitude: Real,
    pub phase: Real,
}

impl TriangleWave {
    pub fn new(hz: Real) -> (r: Self)
        ensures
            r == (TriangleWave { hz, amplitude: ONE, phase: 0 }),
    {
        TriangleWave { hz, amplitude: ONE, phase: 0 }
    }

    pub fn signal_add(&mut self, sample_rate: Real, add: Real) -> (r: Real)
        ensures
            r == triangle_out(old(self).amplitude as int, old(self).phase as int),
            *final(self) == (TriangleWave {
                phase: advance_phase(old(self).phase as int, old(self).hz as int, add as int, sample_rate as int) as i64,
                ..*old(self)
            }),
    {
        let r = ramp_exec(fx_sub(self.phase, THREE_QUARTERS));
        let saw = fx_add(r, r);
        let a = if saw < 0 { fx_sub(0, saw) } else { saw };
        let amp = fx_mul(self.amplitude, fx_sub(fx_add(a, a), ONE));
        self.phase = advance_exec(self.phase, self.hz, add, sample_rate);
        amp
    }
}

/// The sum of the current samples of the first `n` sines.
pub open spec fn partials_acc(sines: Seq<SineWave>, n: int) -> int
    decreases n,
{
    if n <= 0 {
        0
    } else {
        add_spec(partials_acc(sines, n - 1), sine_out(sines[n - 1].amplitude as int, sines[n - 1].phase as int))
    }
}

/// The frequency of partial `n` of a fundamental `hz`.
pub open spec fn partial_hz(hz: int, n: int) -> int {
    mul_spec(hz, from_int_spec(n))
}

/// A sum of harmonics: sine `n` runs at `n` times the fundamental.
pub struct FourierWave {
    pub hz: Real,
    pub amplitude: Real,
    pub phase: Real,
    pub sines: Vec<SineWave>,
}

impl FourierWave {
    /// Harmonic `n` with amplitude `coefficients[n]`, starting at phase zero.
    pub fn new(coefficients: &[Real], hz: Real) -> (r: Self)
        requires
            coefficients@.len() <= i64::MAX,
        ensures
            r.hz == hz,
            r.amplitude == ONE,
            r.phase == 0,
            r.sines@.len() == coefficients@.len(),
            forall|n: int| 0 <= n < coefficients@.len() ==> #[trigger] r.sines@[n] == (SineWave {
                hz: partial_hz(hz as int, n) as i64,
                amplitude: coefficients@[n],
                phase: 0,
            }),
    {
        let mut sines: Vec<SineWave> = Vec::new();
        let mut n: usize = 0;
        while n < coefficients.len()
            invariant
                n <= coefficients@.len(),
                coefficients@.len() <= i64::MAX,
                sines@.len() == n,
                forall|k: int| 0 <= k < n ==> #[trigger] sines@[k] == (SineWave {
                    hz: partial_hz(hz as int, k) as i64,
                    amplitude: coefficients@[k],
                    phase: 0,
                }),
            decreases coefficients@.len() - n,
        {
            let s = SineWave { hz: fx_mul(hz, from_int(n as i64)), amplitude: coefficients[n], phase: 0 };
            sines.push(s);
            n = n + 1;
        }
        FourierWave { hz, amplitude: ONE, phase: 0, sines }
    }

    /// Retunes every harmonic to the new fundamental.
    pub fn set_hz(&mut self, hz: Real)
        requires
            old(self).sines@.len() <= i64::MAX,
        ensures
            final(self).hz == hz,
            final(self).amplitude == old(self).amplitude,
            final(self).phase == old(self).phase,
            final(self).sines@.len() == old(self).sines@.len(),
            forall|n: int| 0 <= n < old(self).sines@.len() ==> #[trigger] final(self).sines@[n] == (SineWave {
                hz: partial_hz(hz as int, n) as i64,
                ..old(self).sines@[n]
            }),
    {
        self.hz = hz;
        let mut n: usize = 0;
        let len = self.sines.len();
        while n < len
            invariant
                n <= len,
                len == old(self).sines@.len(),
                len <= i64::MAX,
                self.hz == hz,
                self.amplitude == old(self).amplitude,
                self.phase == old(self).phase,
                self.sines@.len() == len,
                forall|k: int| 0 <= k < n ==> #[trigger] self.sines@[k] == (SineWave {
                    hz: partial_hz(hz as int, k) as i64,
                    ..old(self).sines@[k]
                }),
                forall|k: int| n <= k < len ==> #[trigger] self.sines@[k] == old(self).sines@[k],
            decreases len - n,
        {
            let h = fx_mul(hz, from_int(n as i64));
            self.sines[n].hz = h;
            n = n + 1;
        }
    }

    /// The amplitude-scaled sum of the harmonics' samples; each advances.
    pub fn signal_add(&mut self, sample_rate: Real, add: Real) -> (r: Real)
        ensures
            r == mul_spec(old(self).amplitude as int, partials_acc(old(self).sines@, old(self).sines@.len() as int)),
            final(self).hz == old(self).hz,
            final(self).amplitude == old(self).amplitude,
            final(self).phase == old(self).phase,
            final(self).sines@.len() == old(self).sines@.len(),
            forall|n: int| 0 <= n < old(self).sines@.len() ==> #[trigger] final(self).sines@[n] == old(self).sines@[n].advanced(sample_rate as int, add as int),
    {
        let mut acc: Real = 0;
        let mut n: usize = 0;
        let len = self.sines.len();
        while n < len
            invariant
                n <= len,
                len == old(self).sines@.len(),
                self.hz == old(self).hz,
                self.amplitude == old(self).amplitude,
                self.phase == old(self).phase,
                self.sines@.len() == len,
                acc == partials_acc(old(self).sines@, n as int),
                forall|k: int| 0 <= k < n ==> #[trigger] self.sines@[k] == old(self).sines@[k].advanced(sample_rate as int, add as int),
                forall|k: int| n <= k < len ==> #[trigger] self.sines@[k] == old(self).sines@[k],
            decreases len - n,
        {
            let x = self.sines[n].signal_add(sample_rate, add);
            acc = fx_add(acc, x);
            n = n + 1;
        }
        fx_mul(self.amplitude, acc)
    }
}

/// The coefficient of harmonic `i` of a square wave: `1/i` for odd `i`.
pub open spec fn square_coefficient(i: int) -> int {
    if i % 2 == 1 {
        div_spec(one(), from_int_spec(i))
    } else {
        0
    }
}

/// The coefficient of harmonic `i` of a triangle wave: `-/+ 1/i^2` for odd `i`.
pub open spec fn triangle_coefficient(i: int) -> int {
    if i % 2 == 1 {
        div_spec(if i % 4 == 1 { -one() } else { one() }, from_int_spec(i * i))
    } else {
        0
    }
}

/// A band-limited square wave from harmonics `0..=n`.
pub fn square_wave(n: u32, hz: Real) -> (r: FourierWave)
    ensures
        r.hz == hz,
        r.sines@.len() == n + 1,
        forall|i: int| 0 <= i <= n ==> #[trigger] r.sines@[i] == (SineWave {
            hz: partial_hz(hz as int, i) as i64,
            amplitude: square_coefficient(i) as i64,
            phase: 0,
        }),
{
    let mut coefficients: Vec<Real> = Vec::new();
    let mut i: u64 = 0;
    let end: u64 = n as u64 + 1;
    while i < end
        invariant
            i <= end,
            end == n + 1,
            coefficients@.len() == i,
            forall|k: int| 0 <= k < i ==> #[trigger] coefficients@[k] == square_coefficient(k),
        decreases end - i,
    {
        if i % 2 == 1 {
            coefficients.push(fx_div(ONE, from_int(i as i64)));
        } else {
            coefficients.push(0);
        }
        i = i + 1;
    }
    let r = FourierWave::new(coefficients.as_slice(), hz);
    assert(coefficients@.len() == n + 1);
    r
}

/// A band-limited triangle wave from harmonics `0..=n`.
pub fn triangle_wave(n: u32, hz: Real) -> (r: FourierWave)
    requires
        n < 65536,
    ensures
        r.hz == hz,
        r.sines@.len() == n + 1,
        forall|i: int| 0 <= i <= n ==> #[trigger] r.sines@[i] == (SineWave {
            hz: partial_hz(hz as int, i) as i64,
            amplitude: triangle_coefficient(i) as i64,
            phase: 0,
        }),
{
    let mut coefficients: Vec<Real> = Vec::new();
    let mut i: u64 = 0;
    let end: u64 = n as u64 + 1;
    while i < end
        invariant
            i <= end,
            end == n + 1,
            n < 65536,
            coefficients@.len() == i,
            forall|k: int| 0 <= k < i ==> #[trigger] coefficients@[k] == triangle_coefficient(k),
        decreases end - i,
    {
        if i % 2 == 1 {
            let sgn: i64 = if i % 4 == 1 { -ONE } else { ONE };
            assert(i * i <= 0x1_0000_0000) by (nonlinear_arith)
                requires
                    0 <= i <= 65536,
            ;
            coefficients.push(fx_div(sgn, from_int((i * i) as i64)));
        } else {
            coefficients.push(0);
        }
        i = i + 1;
    }
    let r = FourierWave::new(coefficients.as_slice(), hz);
    assert(coefficients@.len() == n + 1);
    r
}

} // verus!
