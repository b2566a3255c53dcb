use oscen_rack::fixed::ONE;
use oscen_rack::modules::{
    Adsr, CrossFade, Delay, Lerp, Lerp3, Mixer, Modulator, Product, SineFoldBuilder, SineOsc, Sum,
    TanhBuilder, Union, Vca, WaveGuide, WaveGuideBuilder,
};
use oscen_rack::midi::{parse_midi, play_note, NoteEvent};
use oscen_rack::operators::In;
use oscen_rack::rack::{Module, Rack, RackError};
use oscen_rack::ring::RingBuffer;

fn fx(x: f64) -> i64 {
    (x * 4294967296.0).round() as i64
}

fn to_f(x: i64) -> f64 {
    x as f64 / 4294967296.0
}

#[test]
fn tags_are_sequential() {
    let mut rack = Rack::new();
    let a = SineOsc::rack(&mut rack);
    let b = SineOsc::rack(&mut rack);
    let m = Mixer::rack(&mut rack, vec![a.tag, b.tag]).unwrap();
    let c = SineOsc::rack(&mut rack);
    assert_eq!((a.tag, b.tag, m.tag, c.tag), (0, 1, 2, 3));
    assert_eq!(rack.num_modules(), 4);
}

#[test]
fn refused_append_takes_no_tag() {
    let mut rack = Rack::new();
    let a = SineOsc::rack(&mut rack);
    assert_eq!(Mixer::rack(&mut rack, vec![a.tag, 5]).unwrap_err(), RackError::InvalidModule);
    let b = SineOsc::rack(&mut rack);
    assert_eq!(b.tag, 1);
}

#[test]
fn fixed_control_resolves_to_itself() {
    let mut rack = Rack::new();
    let osc = SineOsc::rack(&mut rack);
    osc.set_hz(&mut rack, In::Fixed(fx(100.0))).unwrap();
    rack.play(fx(44100.0));
    assert_eq!(rack.value(In::Fixed(12345)), 12345);
    assert_eq!(rack.value(In::Fixed(-7)), -7);
    let out = rack.output(osc.tag).unwrap();
    assert_eq!(rack.value(In::Reference(osc.tag, 0)), out);
}

#[test]
fn sine_matches_reference() {
    let mut rack = Rack::new();
    let osc = SineOsc::rack(&mut rack);
    osc.set_hz(&mut rack, In::Fixed(fx(440.0))).unwrap();
    osc.set_amplitude(&mut rack, In::Fixed(ONE)).unwrap();
    let sr = fx(44100.0);
    for n in 0..44100u32 {
        let y = to_f(rack.play(sr));
        let want = (2.0 * std::f64::consts::PI * 440.0 * n as f64 / 44100.0).sin();
        assert!((y - want).abs() < 1e-4, "sample {}: {} vs {}", n, y, want);
    }
}

#[test]
fn unity_mixer_passes_oscillator_through() {
    let mut rack = Rack::new();
    let osc = SineOsc::rack(&mut rack);
    osc.set_hz(&mut rack, In::Fixed(fx(220.0))).unwrap();
    let mix = Mixer::rack(&mut rack, vec![osc.tag]).unwrap();
    mix.level_nth(&mut rack, 0, In::Fixed(ONE)).unwrap();
    mix.level(&mut rack, In::Fixed(ONE)).unwrap();
    let sr = fx(44100.0);
    let mut moved = false;
    for _ in 0..100 {
        let out = rack.play(sr);
        assert_eq!(out, rack.output(osc.tag).unwrap());
        if out != 0 {
            moved = true;
        }
    }
    assert!(moved);
}

#[test]
fn mixer_weights_and_sums() {
    let mut rack = Rack::new();
    let a = SineOsc::rack(&mut rack);
    let b = SineOsc::rack(&mut rack);
    a.set_hz(&mut rack, In::Fixed(fx(1000.0))).unwrap();
    b.set_hz(&mut rack, In::Fixed(fx(3000.0))).unwrap();
    let m = Mixer::rack(&mut rack, vec![a.tag, b.tag]).unwrap();
    m.level_nth(&mut rack, 0, In::Fixed(fx(0.5))).unwrap();
    m.level_nth(&mut rack, 1, In::Fixed(fx(0.25))).unwrap();
    m.level(&mut rack, In::Fixed(fx(2.0))).unwrap();
    assert_eq!(m.level_nth(&mut rack, 2, In::Fixed(0)), Err(RackError::NoSuchControl));
    let sr = fx(48000.0);
    for _ in 0..50 {
        let out = to_f(rack.play(sr));
        let xa = to_f(rack.output(a.tag).unwrap());
        let xb = to_f(rack.output(b.tag).unwrap());
        assert!((out - 2.0 * (0.5 * xa + 0.25 * xb)).abs() < 1e-8);
    }
}

#[test]
fn forward_reference_is_refused() {
    let mut rack = Rack::new();
    let a = SineOsc::rack(&mut rack);
    let b = SineOsc::rack(&mut rack);
    assert_eq!(a.set_hz(&mut rack, In::Reference(b.tag, 0)), Err(RackError::InvalidReference));
    assert_eq!(b.set_hz(&mut rack, In::Reference(a.tag, 1)), Err(RackError::InvalidReference));
    assert_eq!(b.set_hz(&mut rack, In::Reference(a.tag, 0)), Ok(()));
    assert_eq!(rack.set_control(9, 0, In::Fixed(0)), Err(RackError::NoSuchControl));
    assert_eq!(rack.set_control(a.tag, 2, In::Fixed(0)), Err(RackError::NoSuchControl));
    assert_eq!(
        rack.add_module(Module::Vca { wave: 7 }, vec![In::Fixed(ONE)], vec![], RingBuffer::new(1)),
        Err(RackError::InvalidModule)
    );
}

#[test]
fn product_sum_vca_union() {
    let mut rack = Rack::new();
    let a = SineOsc::rack(&mut rack);
    a.set_hz(&mut rack, In::Fixed(fx(0.0))).unwrap();
    a.set_amplitude(&mut rack, In::Fixed(0)).unwrap();
    let sr = fx(1000.0);
    let p = Product::new(vec![a.tag, a.tag]).rack(&mut rack).unwrap();
    let s = Sum::new(vec![a.tag, a.tag]).rack(&mut rack).unwrap();
    let v = Vca::rack(&mut rack, s).unwrap();
    v.level(&mut rack, In::Fixed(fx(0.5))).unwrap();
    let u = Union::rack(&mut rack, vec![p, s]).unwrap();
    u.level(&mut rack, In::Fixed(fx(3.0))).unwrap();
    assert_eq!(Union::rack(&mut rack, vec![]).unwrap_err(), RackError::InvalidModule);
    // a silent source: everything downstream is silent, the empty product is one
    let out = rack.play(sr);
    assert_eq!(out, 0);
    assert_eq!(rack.output(p).unwrap(), 0);
    assert_eq!(Sum::new(vec![a.tag]).signal(&rack), 0);
    assert_eq!(Product::new(vec![]).signal(&rack), ONE);
}

#[test]
fn cross_fade_and_modulator() {
    let mut rack = Rack::new();
    let a = SineOsc::rack(&mut rack);
    let b = SineOsc::rack(&mut rack);
    a.set_hz(&mut rack, In::Fixed(fx(440.0))).unwrap();
    b.set_hz(&mut rack, In::Fixed(fx(660.0))).unwrap();
    let cf = CrossFade::rack(&mut rack, a.tag, b.tag).unwrap();
    cf.alpha(&mut rack, In::Fixed(0)).unwrap();
    let md = Modulator::rack(&mut rack, b.tag, fx(100.0), fx(5.0)).unwrap();
    md.mod_idx(&mut rack, In::Fixed(fx(2.0))).unwrap();
    let sr = fx(44100.0);
    for _ in 0..20 {
        rack.play(sr);
        let xa = rack.output(a.tag).unwrap();
        let xb = to_f(rack.output(b.tag).unwrap());
        assert_eq!(rack.output(cf.tag).unwrap(), xa);
        let m = to_f(rack.output(md.tag).unwrap());
        assert!((m - (100.0 + 2.0 * 5.0 * xb)).abs() < 1e-6);
    }
    assert_eq!(CrossFade::rack(&mut rack, a.tag, 99).unwrap_err(), RackError::InvalidModule);
}

#[test]
fn delay_module_delays_by_whole_samples() {
    let mut rack = Rack::new();
    let a = SineOsc::rack(&mut rack);
    a.set_hz(&mut rack, In::Fixed(fx(50.0))).unwrap();
    let d = Delay::rack(&mut rack, a.tag, In::Fixed(fx(1.0 / 64.0))).unwrap();
    let sr = fx(640.0);
    let mut history = vec![];
    for n in 0..200 {
        rack.play(sr);
        history.push(rack.output(a.tag).unwrap());
        if n >= 10 {
            assert_eq!(rack.output(d.tag).unwrap(), history[n - 10]);
        }
    }
}

#[test]
fn shapers() {
    let mut rack = Rack::new();
    let a = SineOsc::rack(&mut rack);
    a.set_hz(&mut rack, In::Fixed(fx(100.0))).unwrap();
    let f = SineFoldBuilder::new(a.tag, In::Fixed(fx(0.5))).rack(&mut rack).unwrap();
    let t = TanhBuilder::new(a.tag).rack(&mut rack).unwrap();
    assert_eq!(TanhBuilder::new(40).rack(&mut rack).unwrap_err(), RackError::InvalidModule);
    let sr = fx(8000.0);
    for _ in 0..30 {
        rack.play(sr);
        let x = to_f(rack.output(a.tag).unwrap());
        let folded = to_f(rack.output(f.tag).unwrap());
        assert!((folded - (x * 2.0 * std::f64::consts::PI / 0.5).sin()).abs() < 1e-4);
        let clipped = to_f(rack.output(t.tag).unwrap());
        let y = x * 2.0 * std::f64::consts::PI;
        assert!((clipped - y.tanh()).abs() < 0.03, "{} vs {}", clipped, y.tanh());
    }
}

#[test]
fn adsr_attack_reaches_apex_then_release_falls() {
    let mut rack = Rack::new();
    let env = Adsr::linear(&mut rack);
    env.attack(&mut rack, In::Fixed(fx(0.1))).unwrap();
    env.decay(&mut rack, In::Fixed(fx(0.1))).unwrap();
    env.sustain(&mut rack, In::Fixed(fx(0.5))).unwrap();
    env.release(&mut rack, In::Fixed(fx(0.2))).unwrap();
    let sr = fx(1000.0);
    // a fresh envelope runs its clock through every segment into silence
    let mut y = 1;
    for _ in 0..1000 {
        y = rack.play(sr);
    }
    assert_eq!(y, 0);
    env.on(&mut rack).unwrap();
    // reset to the start of the attack: after exactly 0.1 s the apex is reached
    let mut last = 0;
    for _ in 0..101 {
        last = rack.play(sr);
    }
    assert!((to_f(last) - 1.0).abs() < 0.02, "{}", to_f(last));
    for _ in 0..300 {
        last = rack.play(sr);
    }
    assert!((to_f(last) - 0.5).abs() < 1e-6);
    env.off(&mut rack).unwrap();
    let mut prev = rack.play(sr);
    for _ in 0..250 {
        let y = rack.play(sr);
        assert!(y <= prev, "{} after {}", y, prev);
        prev = y;
    }
    assert_eq!(prev, 0);
    assert_eq!(rack.trigger(99, true), Err(RackError::NoSuchControl));
}

#[test]
fn wave_guide_rings_after_pluck() {
    let mut rack = Rack::new();
    let noise = SineOsc::rack(&mut rack);
    noise.set_hz(&mut rack, In::Fixed(fx(3000.0))).unwrap();
    let wg = WaveGuideBuilder::new(noise.tag, RingBuffer::new(16))
        .hz(In::Fixed(fx(220.0)))
        .rack(&mut rack)
        .unwrap();
    assert_eq!(wg.tag, 2);
    assert_eq!(wg.hz(&rack), Some(fx(220.0)));
    let env = wg.envelope(&rack).unwrap();
    assert_eq!(env.tag, wg.tag - 1);
    env.attack(&mut rack, In::Fixed(fx(0.005))).unwrap();
    assert_eq!(wg.envelope(&Rack::new()), None);
    wg.set_decay(&mut rack, In::Fixed(fx(0.9))).unwrap();
    let sr = fx(44100.0);
    wg.on(&mut rack).unwrap();
    for _ in 0..5 {
        rack.play(sr);
    }
    wg.off(&mut rack).unwrap();
    let mut energy = 0.0;
    for _ in 0..2000 {
        let y = to_f(rack.play(sr));
        assert!(y.abs() < 4.0);
        energy += y * y;
    }
    assert!(energy > 0.0);
    let bad = WaveGuideBuilder::new(50, RingBuffer::new(1)).rack(&mut rack);
    assert_eq!(bad.unwrap_err(), RackError::InvalidModule);
}

#[test]
fn lerp_and_lerp3() {
    let mut rack = Rack::new();
    let a = SineOsc::rack(&mut rack);
    let b = SineOsc::rack(&mut rack);
    a.set_hz(&mut rack, In::Fixed(fx(440.0))).unwrap();
    b.set_hz(&mut rack, In::Fixed(fx(1000.0))).unwrap();
    let sr = fx(44100.0);
    rack.play(sr);
    rack.play(sr);
    let xa = to_f(rack.output(a.tag).unwrap());
    let xb = to_f(rack.output(b.tag).unwrap());
    let mut l = Lerp::new(a.tag, b.tag);
    l.alpha(In::Fixed(fx(0.25)));
    assert!((to_f(l.signal(&rack)) - (0.75 * xa + 0.25 * xb)).abs() < 1e-8);
    l.alpha(In::Fixed(0));
    assert_eq!(l.signal(&rack), rack.output(a.tag).unwrap());
    let mut l3 = Lerp3::new(Lerp::new(a.tag, b.tag), Lerp::new(b.tag, a.tag), In::Fixed(fx(0.875)));
    let y = to_f(l3.signal(&rack));
    assert_eq!(l3.lerp1.alpha, In::Fixed(0));
    assert_eq!(l3.lerp2.alpha, In::Fixed(fx(0.75)));
    assert!((y - (0.25 * xb + 0.75 * xa)).abs() < 1e-8);
}

#[test]
fn midi_messages() {
    assert_eq!(parse_midi(&[144, 60, 100]), Some(NoteEvent::On { note: 60, velocity: 100 }));
    assert_eq!(parse_midi(&[128, 60, 0]), Some(NoteEvent::Off { note: 60 }));
    assert_eq!(parse_midi(&[176, 60, 0]), None);
    assert_eq!(parse_midi(&[144, 60]), None);
    assert_eq!(parse_midi(&[144, 60, 1, 2]), None);
}

#[test]
fn notes_tune_and_pluck_the_string() {
    let mut rack = Rack::new();
    let burst = SineOsc::rack(&mut rack);
    let wg = WaveGuideBuilder::new(burst.tag, RingBuffer::new(8)).rack(&mut rack).unwrap();
    let env = wg.tag - 1;
    play_note(&mut rack, &wg, NoteEvent::On { note: 69, velocity: 90 }, fx(440.0)).unwrap();
    assert_eq!(wg.hz(&rack), Some(fx(440.0)));
    assert_eq!(rack.state_slot(env, 2), Some(ONE));
    play_note(&mut rack, &wg, NoteEvent::Off { note: 69 }, 0).unwrap();
    assert_eq!(rack.state_slot(env, 2), Some(0));
    let not_a_string = WaveGuide::new(burst.tag, burst.tag);
    assert_eq!(
        play_note(&mut rack, &not_a_string, NoteEvent::Off { note: 1 }, 0),
        Err(RackError::NoSuchControl)
    );
}

#[test]
fn phase_and_levels_setters() {
    let mut rack = Rack::new();
    let a = SineOsc::rack(&mut rack);
    a.set_hz(&mut rack, In::Fixed(0)).unwrap();
    a.set_phase(&mut rack, ONE / 4).unwrap();
    assert_eq!(a.phase(&rack), Some(ONE / 4));
    let b = SineOsc::rack(&mut rack);
    let m = Mixer::rack(&mut rack, vec![a.tag, b.tag]).unwrap();
    assert_eq!(m.levels(&mut rack, vec![In::Fixed(ONE)]), Err(RackError::NoSuchControl));
    assert_eq!(m.levels(&mut rack, vec![In::Fixed(ONE), In::Reference(5, 0)]), Err(RackError::InvalidReference));
    m.levels(&mut rack, vec![In::Fixed(fx(0.5)), In::Fixed(0)]).unwrap();
    let out = rack.play(fx(100.0));
    assert!((to_f(out) - 0.5).abs() < 1e-6);
    assert_eq!(rack.set_state_slot(a.tag, 3, 0), Err(RackError::NoSuchControl));
}

#[test]
fn rewiring_waves_and_selection() {
    let mut rack = Rack::new();
    let a = SineOsc::rack(&mut rack);
    let b = SineOsc::rack(&mut rack);
    a.set_hz(&mut rack, In::Fixed(fx(100.0))).unwrap();
    b.set_hz(&mut rack, In::Fixed(fx(300.0))).unwrap();
    let v = Vca::rack(&mut rack, a.tag).unwrap();
    let u = Union::rack(&mut rack, vec![a.tag, b.tag]).unwrap();
    let sr = fx(8000.0);
    rack.play(sr);
    rack.play(sr);
    assert_eq!(rack.output(v.tag), rack.output(a.tag));
    assert_eq!(rack.output(u.tag), rack.output(a.tag));
    v.wave(&mut rack, b.tag).unwrap();
    u.active(&mut rack, b.tag).unwrap();
    rack.play(sr);
    assert_eq!(rack.output(v.tag), rack.output(b.tag));
    assert_eq!(rack.output(u.tag), rack.output(b.tag));
    assert_ne!(rack.output(a.tag), rack.output(b.tag));
    assert_eq!(v.wave(&mut rack, u.tag), Err(RackError::InvalidModule));
    assert_eq!(u.active(&mut rack, u.tag), Err(RackError::InvalidModule));
    assert_eq!(rack.set_wave(a.tag, 0), Err(RackError::InvalidModule));
    let mut p = Product::new(vec![a.tag]);
    p.waves(vec![a.tag, b.tag]);
    assert_eq!(p.waves, vec![a.tag, b.tag]);
}

#[test]
fn fractional_delay_gets_its_margin() {
    let mut rack = Rack::new();
    let a = SineOsc::rack(&mut rack);
    let d = Delay::rack(&mut rack, a.tag, In::Fixed(fx(5.5 / 1000.0))).unwrap();
    rack.play(fx(1000.0));
    // room for 5.5 samples and the margin of three: at least 8.5, so 9 slots
    assert_eq!(rack.buffer_len(d.tag), Some(9));
    rack.play(fx(1000.0));
    assert_eq!(rack.buffer_len(d.tag), Some(9));
    assert_eq!(rack.buffer_len(7), None);
}

#[test]
fn release_during_attack_falls_from_the_level_reached() {
    let mut rack = Rack::new();
    let env = Adsr::linear(&mut rack);
    env.attack(&mut rack, In::Fixed(fx(0.1))).unwrap();
    env.release(&mut rack, In::Fixed(fx(0.05))).unwrap();
    let sr = fx(1000.0);
    assert_eq!(rack.play(sr), 0);
    env.on(&mut rack).unwrap();
    let mut y = 0;
    for _ in 0..26 {
        y = rack.play(sr);
    }
    assert!((to_f(y) - 0.25).abs() < 0.02, "{}", to_f(y));
    env.off(&mut rack).unwrap();
    let mut prev = rack.play(sr);
    assert_eq!(prev, y);
    for _ in 0..60 {
        let z = rack.play(sr);
        assert!(z <= prev, "{} after {}", z, prev);
        prev = z;
    }
    assert_eq!(prev, 0);
    // a new note starts from silence
    env.on(&mut rack).unwrap();
    assert_eq!(rack.play(sr), 0);
    assert!(rack.play(sr) > 0);
}
