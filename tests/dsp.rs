use oscen_rack::envelope::{advance, calc_level, curve, off, on, Envelope, Shape};
use oscen_rack::filters::{bpf, hpf, lphpf, lpf, notch, AllPass, BiquadFilter, Comb};
use oscen_rack::fixed::{from_int, fx_add, fx_div, fx_floor, fx_frac, fx_mul, fx_sub, HALF, ONE};
use oscen_rack::oscillators::{
    square_wave, triangle_wave, FourierWave, SawWave, SineWave, SquareWave, TriangleWave,
};
use oscen_rack::ring::{cubic, lerp, RingBuffer};
use oscen_rack::shaping::{sine_fold, soft_clip};
use oscen_rack::trig::{cos_turns, sin_turns, tan_turns};

fn fx(x: f64) -> i64 {
    (x * 4294967296.0).round() as i64
}

fn to_f(x: i64) -> f64 {
    x as f64 / 4294967296.0
}

#[test]
fn fixed_point_arithmetic() {
    assert_eq!(fx_mul(HALF, HALF), ONE / 4);
    assert_eq!(fx_mul(-HALF, 3), -2);
    assert_eq!(fx_add(i64::MAX, 1), i64::MAX);
    assert_eq!(fx_sub(i64::MIN, 1), i64::MIN);
    assert_eq!(fx_div(ONE, 2 * ONE), HALF);
    assert_eq!(fx_div(ONE, -2 * ONE), -HALF);
    assert_eq!(fx_div(5, 0), i64::MAX);
    assert_eq!(fx_div(-5, 0), i64::MIN);
    assert_eq!(fx_div(0, 0), 0);
    assert_eq!(from_int(3), 3 * ONE);
    assert_eq!(fx_frac(-ONE / 4), 3 * ONE / 4);
    assert_eq!(fx_floor(-ONE / 4), -ONE);
    assert_eq!(fx_mul(i64::MAX, 2 * ONE), i64::MAX);
}

#[test]
fn circular_functions() {
    for k in 0..1000 {
        let p = k as f64 / 1000.0 * 3.0 - 1.0;
        let a = 2.0 * std::f64::consts::PI * p;
        assert!((to_f(sin_turns(fx(p))) - a.sin()).abs() < 1e-6);
        assert!((to_f(cos_turns(fx(p))) - a.cos()).abs() < 1e-6);
    }
    assert_eq!(sin_turns(0), 0);
    assert!((to_f(tan_turns(fx(0.1))) - (0.2 * std::f64::consts::PI).tan()).abs() < 1e-5);
}

#[test]
fn ring_round_trip() {
    let mut b = RingBuffer::new(8);
    let vals: Vec<i64> = (1..=6).map(|v| v * 1000 + 7).collect();
    for v in &vals {
        b.push(*v);
    }
    for d in 0..6 {
        b.set_delay(d as i64 * ONE);
        assert_eq!(b.get_linear(), vals[5 - d]);
        assert_eq!(b.get_cubic(), vals[5 - d]);
    }
}

#[test]
fn ring_fractional_and_growth() {
    let mut b = RingBuffer::new(4);
    b.push(0);
    b.push(ONE);
    b.set_delay(HALF);
    assert_eq!(b.get_linear(), HALF);
    b.resize(10);
    assert_eq!(b.len(), 10);
    b.resize(3);
    assert_eq!(b.len(), 10);
    assert_eq!(RingBuffer::new(0).len(), 1);
}

#[test]
fn flat_interpolation() {
    for f in [1, HALF, ONE / 3, ONE - 1] {
        assert_eq!(lerp(fx(0.3), fx(0.3), f), fx(0.3));
        assert_eq!(cubic(fx(-0.7), fx(-0.7), fx(-0.7), fx(-0.7), f), fx(-0.7));
    }
    assert_eq!(lerp(0, ONE, ONE / 4), ONE / 4);
    // cubic through equal neighbours but different outer points is not flat
    assert_ne!(cubic(0, ONE, ONE, 0, HALF), ONE);
}

#[test]
fn biquad_designs_match_formulas() {
    let sr = 44100.0;
    let (fc, q) = (1000.0, 0.707);
    let phi = 2.0 * std::f64::consts::PI * fc / sr;
    let b2 = (2.0 * q - phi.sin()) / (2.0 * q + phi.sin());
    let b1 = -(1.0 + b2) * phi.cos();
    let a0 = 0.25 * (1.0 + b1 + b2);
    let c = lpf(fx(sr), fx(fc), fx(q));
    let got = [c.0, c.1, c.2, c.3, c.4].map(to_f);
    let want = [b1, b2, a0, 2.0 * a0, a0];
    for i in 0..5 {
        assert!((got[i] - want[i]).abs() < 1e-5, "{}: {} vs {}", i, got[i], want[i]);
    }
    let h = hpf(fx(sr), fx(fc), fx(q));
    let ha0 = 0.25 * (1.0 - b1 + b2);
    assert!((to_f(h.2) - ha0).abs() < 1e-5);
    assert!((to_f(h.3) + 2.0 * ha0).abs() < 1e-5);
    let m = lphpf(fx(sr), fx(fc), fx(q), ONE);
    assert_eq!((m.2, m.3, m.4), (c.2, c.3, c.4));
    let bb2 = (std::f64::consts::PI / 4.0 - phi / (2.0 * q)).tan();
    let bb1 = -(1.0 + bb2) * phi.cos();
    let bp = bpf(fx(sr), fx(fc), fx(q));
    assert!((to_f(bp.1) - bb2).abs() < 1e-5);
    assert!((to_f(bp.0) - bb1).abs() < 1e-5);
    assert!((to_f(bp.2) - 0.5 * (1.0 - bb2)).abs() < 1e-5);
    assert_eq!(bp.3, 0);
    let n = notch(fx(sr), fx(fc), fx(q));
    assert!((to_f(n.2) - 0.5 * (1.0 + bb2)).abs() < 1e-5);
    assert_eq!(n.3, n.0);
}

#[test]
fn lowpass_has_unity_dc_gain() {
    let mut f = BiquadFilter::lpf(0, fx(44100.0), fx(20000.0), fx(0.707));
    let mut y = 0;
    for _ in 0..2000 {
        y = f.signal(ONE);
    }
    assert!((to_f(y) - 1.0).abs() < 1e-3, "{}", to_f(y));
}

#[test]
fn biquad_bypass_and_step() {
    let mut f = BiquadFilter::new(0, 0, 0, HALF, HALF, 0);
    assert_eq!(f.signal(ONE), HALF);
    assert_eq!(f.signal(ONE), ONE);
    f.off = true;
    assert_eq!(f.signal(123), 123);
    f.off = false;
    assert_eq!(f.signal(0), HALF);
}

#[test]
fn comb_and_all_pass() {
    let mut c = Comb::new(0, 2);
    assert_eq!(c.signal(ONE), 0);
    assert_eq!(c.signal(0), 0);
    // the first input comes back two samples later
    assert_eq!(c.signal(0), ONE);
    // filter state = 0.5 * 1, feedback 0.5: slot gets 0.25
    assert_eq!(c.filter_state, HALF);
    assert_eq!(c.signal(0), 0);
    assert_eq!(c.signal(0), ONE / 4);
    let mut a = AllPass::new(0, 1);
    assert_eq!(a.signal(ONE), -ONE);
    assert_eq!(a.signal(0), ONE);
    assert_eq!(a.signal(0), HALF);
}

#[test]
fn envelope_segments() {
    let sh = Shape { attack: HALF, decay: HALF, release: HALF };
    let a = fx(0.1);
    let e = Envelope { clock: fx(0.05), sustain_time: 0, triggered: true, level: 0, released_at: 0, release_from: 0 };
    let (lv, _) = calc_level(a, fx(0.1), HALF, fx(0.2), sh, e);
    assert!((to_f(lv) - 0.5).abs() < 1e-6);
    let e = on(a, sh, Envelope { clock: 0, sustain_time: 0, triggered: false, level: HALF, released_at: 0, release_from: 0 });
    assert!((to_f(e.clock) - 0.05).abs() < 1e-6);
    assert!(e.triggered);
    let released = off(a, a, e);
    assert_eq!(off(a, a, released), released);
    assert!(!released.triggered);
    assert_eq!((released.released_at, released.release_from), (e.clock, HALF));
    // at the moment of release the level is the one reached, then it falls
    let (lv, _) = calc_level(a, a, HALF, fx(0.2), sh, released);
    assert_eq!(lv, HALF);
    let later = Envelope { clock: e.clock + fx(0.1), ..released };
    let (lv, _) = calc_level(a, a, HALF, fx(0.2), sh, later);
    assert!((to_f(lv) - 0.25).abs() < 1e-6);
    // released in sustain: the release counts from the end of the sustain
    let c = fx(0.01);
    let held = Envelope { clock: fx(0.03), sustain_time: 0, triggered: true, level: ONE, released_at: 0, release_from: 0 };
    let released = off(c, c, held);
    assert_eq!(released.released_at, 2 * c);
    let (lv, _) = calc_level(c, c, ONE, c, sh, released);
    assert_eq!(lv, 0);
    let at_end = Envelope { clock: 2 * c, ..released };
    assert_eq!(calc_level(c, c, ONE, c, sh, at_end).0, ONE);
    let n = advance(a, 0, ONE, a, sh, e, fx(1000.0));
    assert!((to_f(n.clock) - 0.051).abs() < 1e-6);
    assert_eq!(curve(0, ONE, HALF, ONE / 4), ONE / 4);
    assert!(curve(0, ONE, fx(0.8), HALF) > fx(0.79));
    // too-short segments are raised to 0.01 s
    let e = Envelope { clock: fx(0.005), sustain_time: 0, triggered: true, level: 0, released_at: 0, release_from: 0 };
    let (lv, _) = calc_level(fx(0.01), fx(0.01), HALF, fx(0.01), sh, e);
    assert!((to_f(lv) - 0.5).abs() < 1e-6);
}

#[test]
fn oscillator_shapes() {
    let sr = fx(8.0);
    let mut s = SquareWave::new(fx(1.0));
    let outs: Vec<i64> = (0..8).map(|_| s.signal_add(sr, 0)).collect();
    assert_eq!(outs, vec![0, ONE, ONE, ONE, ONE, -ONE, -ONE, -ONE]);
    let mut w = SawWave::new(fx(1.0));
    let outs: Vec<f64> = (0..4).map(|_| to_f(w.signal_add(fx(4.0), 0))).collect();
    assert_eq!(outs, vec![0.0, 0.5, 0.0, -0.5]);
    let mut t = TriangleWave::new(fx(1.0));
    let outs: Vec<f64> = (0..4).map(|_| to_f(t.signal_add(fx(4.0), 0))).collect();
    assert_eq!(outs, vec![0.0, 1.0, 0.0, -1.0]);
    let mut t = TriangleWave::new(fx(1.0));
    t.amplitude = HALF;
    let outs: Vec<f64> = (0..4).map(|_| to_f(t.signal_add(fx(4.0), 0))).collect();
    assert_eq!(outs, vec![0.0, 0.5, 0.0, -0.5]);
    let mut q = SineWave::new(fx(1.0));
    q.signal(fx(4.0));
    assert_eq!(q.phase, ONE / 4);
    assert!((to_f(q.signal_add(fx(4.0), HALF)) - 1.0).abs() < 1e-8);
    assert_eq!(q.phase, ONE / 4 + 3 * ONE / 8);
}

#[test]
fn fourier_series() {
    let sq = square_wave(5, fx(100.0));
    let amps: Vec<i64> = sq.sines.iter().map(|s| s.amplitude).collect();
    assert_eq!(amps, vec![0, 0, 0, 0, 0, 0].iter().enumerate().map(|(i, _)| if i % 2 == 1 { fx_div(ONE, from_int(i as i64)) } else { 0 }).collect::<Vec<i64>>());
    assert_eq!(sq.sines[3].hz, fx(300.0));
    let tr = triangle_wave(5, fx(100.0));
    assert_eq!(tr.sines[1].amplitude, -ONE);
    assert_eq!(tr.sines[3].amplitude, fx_div(ONE, from_int(9)));
    let mut f = FourierWave::new(&[0, ONE, HALF], fx(1.0));
    f.set_hz(fx(2.0));
    assert_eq!(f.sines[2].hz, fx(4.0));
    f.signal_add(fx(16.0), 0);
    let y = to_f(f.signal_add(fx(16.0), 0));
    let want = (2.0 * std::f64::consts::PI * 2.0 / 16.0).sin() + 0.5 * (2.0 * std::f64::consts::PI * 4.0 / 16.0).sin();
    assert!((y - want).abs() < 1e-6);
}

#[test]
fn shaping_functions() {
    assert_eq!(soft_clip(fx(5.0)), ONE);
    assert_eq!(soft_clip(fx(-5.0)), -ONE);
    assert_eq!(soft_clip(0), 0);
    assert!((to_f(soft_clip(fx(0.5))) - 0.5f64.tanh()).abs() < 0.01);
    assert!((to_f(sine_fold(fx(0.25), ONE)) - 1.0).abs() < 1e-6);
}

#[test]
fn ring_round_trip_after_wrapping() {
    let mut b = RingBuffer::new(8);
    let vals: Vec<i64> = (1..=20).map(|v| v * 3000 - 11).collect();
    for v in &vals {
        b.push(*v);
    }
    for d in 0..8 {
        b.set_delay(d as i64 * ONE);
        assert_eq!(b.get_linear(), vals[19 - d]);
        assert_eq!(b.get_cubic(), vals[19 - d]);
    }
}

#[test]
fn sine_landmarks_and_symmetry() {
    assert_eq!(sin_turns(ONE / 4), ONE);
    for k in 1..50 {
        let p = k * 87654321;
        assert_eq!(sin_turns(-p), -sin_turns(p));
        assert_eq!(sin_turns(p + HALF), -sin_turns(p));
    }
}
