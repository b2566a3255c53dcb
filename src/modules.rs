//! Handles and builders: each module kind appended to a rack, and named
//! accessors for its control slots.
use vstd::prelude::*;
use crate::envelope::Shape;
use crate::fixed::{add_spec, fx_add, fx_sub, sub_spec, Real, HALF, ONE};
use crate::operators::{cross_fade, cross_fade_spec, product_acc, sum_acc, val, valid_in, In};
use crate::rack::{all_before, retriggered, with_wave, Module, Rack, RackError, RackView, Tag, DEFAULT_Q};
use crate::ring::{RingBuffer, RingView};

verus! {

/// The one-slot silent buffer of a module that keeps no samples.
pub open spec fn silent() -> RingView {
    RingView { contents: Seq::new(1, |_i| 0i64), write: 0, read: 0 }
}

/// `rack` after appending a module with no state and a silent buffer.
pub open spec fn with_module(v: RackView, m: Module, c: Seq<In>) -> RackView {
    v.appended(m, c, Seq::empty(), silent())
}

/// Appends a module that keeps no state.
fn append_plain(rack: &mut Rack, m: Module, controls: Vec<In>) -> (r: Result<Tag, RackError>)
    requires
        old(rack).wf(),
    ensures
        final(rack).wf(),
        r matches Ok(t) ==> t == old(rack)@.len() && final(rack)@ == with_module(old(rack)@, m, controls@),
        r is Err ==> final(rack)@ == old(rack)@,
        r is Ok <==> crate::rack::module_ok(m, old(rack)@.len(), controls@, 0) && old(rack)@.len() < usize::MAX,
{
    let b = RingBuffer::new(1);
    assert(b@ == silent());
    let st: Vec<Real> = Vec::new();
    assert(st@ =~= Seq::<i64>::empty());
    rack.add_module(m, controls, st, b)
}

/// A sine oscillator: controls `hz` (slot 0) and `amplitude` (slot 1).
#[derive(Clone, Copy, Debug, PartialEq, Eq, Structural)]
pub struct SineOsc {
    pub tag: Tag,
}

impl SineOsc {
    pub fn new(tag: Tag) -> (r: Self)
        ensures
            r.tag == tag,
    {
        SineOsc { tag }
    }

    pub fn tag(&self) -> (r: Tag)
        ensures
            r == self.tag,
    {
        self.tag
    }

    /// The phase reached so far, in turns.
    pub fn phase(&self, rack: &Rack) -> (r: Option<Real>)
        requires
            rack.wf(),
        ensures
            self.tag < rack@.len() && 0 < rack@.state[self.tag as int].len() ==> r == Some(rack@.state[self.tag as int][0]),
            !(self.tag < rack@.len() && 0 < rack@.state[self.tag as int].len()) ==> r is None,
    {
        rack.state_slot(self.tag, 0)
    }

    /// Moves the phase to `phase` turns.
    pub fn set_phase(&self, rack: &mut Rack, phase: Real) -> (r: Result<(), RackError>)
        requires
            old(rack).wf(),
        ensures
            final(rack).wf(),
            r is Ok <==> self.tag < old(rack)@.len() && 0 < old(rack)@.state[self.tag as int].len(),
            r is Ok ==> final(rack)@ == old(rack)@.with_state(self.tag as int, old(rack)@.state[self.tag as int].update(0, phase)),
            r is Err ==> final(rack)@ == old(rack)@,
    {
        rack.set_state_slot(self.tag, 0, phase)
    }

    /// Control `hz`, resolved; `None` when the module has no such control.
    pub fn hz(&self, rack: &Rack) -> (r: Option<Real>)
        requires
            rack.wf(),
        ensures
            self.tag < rack@.len() && 0 < rack@.controls[self.tag as int].len() ==> r == Some(rack@.ctl(self.tag as int, 0) as i64),
            !(self.tag < rack@.len() && 0 < rack@.controls[self.tag as int].len()) ==> r is None,
    {
        rack.control_value(self.tag, 0)
    }

    /// Sets control `hz`; refused, with the rack left as it was, unless the
    /// module has it and the value is constant or refers to an earlier module.
    pub fn set_hz(&self, rack: &mut Rack, hz: In) -> (r: Result<(), RackError>)
        requires
            old(rack).wf(),
        ensures
            final(rack).wf(),
            r is Ok <==> self.tag < old(rack)@.len() && 0 < old(rack)@.controls[self.tag as int].len() && valid_in(hz, self.tag as int),
            r is Ok ==> final(rack)@ == (RackView { controls: old(rack)@.controls.update(self.tag as int, old(rack)@.controls[self.tag as int].update(0, hz)), ..old(rack)@ }),
            r is Err ==> final(rack)@ == old(rack)@,
    {
        rack.set_control(self.tag, 0, hz)
    }

    /// Control `amplitude`, resolved; `None` when the module has no such control.
    pub fn amplitude(&self, rack: &Rack) -> (r: Option<Real>)
        requires
            rack.wf(),
        ensures
            self.tag < rack@.len() && 1 < rack@.controls[self.tag as int].len() ==> r == Some(rack@.ctl(self.tag as int, 1) as i64),
            !(self.tag < rack@.len() && 1 < rack@.controls[self.tag as int].len()) ==> r is None,
    {
        rack.control_value(self.tag, 1)
    }

    /// Sets control `amplitude`; refused, with the rack left as it was, unless the
    /// module has it and the value is constant or refers to an earlier module.
    pub fn set_amplitude(&self, rack: &mut Rack, amplitude: In) -> (r: Result<(), RackError>)
        requires
            old(rack).wf(),
        ensures
            final(rack).wf(),
            r is Ok <==> self.tag < old(rack)@.len() && 1 < old(rack)@.controls[self.tag as int].len() && valid_in(amplitude, self.tag as int),
            r is Ok ==> final(rack)@ == (RackView { controls: old(rack)@.controls.update(self.tag as int, old(rack)@.controls[self.tag as int].update(1, amplitude)), ..old(rack)@ }),
            r is Err ==> final(rack)@ == old(rack)@,
    {
        rack.set_control(self.tag, 1, amplitude)
    }

    /// Appends a sine oscillator at 0 Hz, amplitude one, phase zero.
    pub fn rack(rack: &mut Rack) -> (r: SineOsc)
        requires
            old(rack).wf(),
            old(rack)@.len() < usize::MAX,
        ensures
            final(rack).wf(),
            r.tag == old(rack)@.len(),
            final(rack)@ == old(rack)@.appended(
                Module::Sine,
                seq![In::Fixed(0), In::Fixed(ONE)],
                seq![0i64],
                silent(),
            ),
    {
        let tag = rack.num_modules();
        let controls = vec![In::Fixed(0), In::Fixed(ONE)];
        let st = vec![0i64];
        let b = RingBuffer::new(1);
        assert(b@ == silent());
        assert(controls@ =~= seq![In::Fixed(0), In::Fixed(ONE)]);
        assert(st@ =~= seq![0i64]);
        match rack.add_module(Module::Sine, controls, st, b) {
            Ok(t) => SineOsc { tag: t },
            Err(_) => SineOsc { tag },
        }
    }
}

/// A voltage-controlled amplifier: the output of `wave` times `level` (slot 0).
#[derive(Clone, Copy, Debug, PartialEq, Eq, Structural)]
pub struct Vca {
    pub tag: Tag,
}

impl Vca {
    /// A handle on the module tagged `tag`.
    pub fn new(tag: Tag) -> (r: Self)
        ensures
            r.tag == tag,
    {
        Self { tag }
    }

    pub fn tag(&self) -> (r: Tag)
        ensures
            r == self.tag,
    {
        self.tag
    }

    /// Appends an amplifier on `wave` at level one; refused unless `wave` exists.
    pub fn rack(rack: &mut Rack, wave: Tag) -> (r: Result<Self, RackError>)
        requires
            old(rack).wf(),
        ensures
            final(rack).wf(),
            r is Ok <==> wave < old(rack)@.len() && old(rack)@.len() < usize::MAX,
            r matches Ok(h) ==> h.tag == old(rack)@.len() && final(rack)@ == with_module(old(rack)@, Module::Vca { wave }, seq![In::Fixed(ONE)]),
            r is Err ==> final(rack)@ == old(rack)@,
    {
        let controls = vec![In::Fixed(ONE)];
        assert(controls@ =~= seq![In::Fixed(ONE)]);
        let m = Module::Vca { wave };
        match append_plain(rack, m, controls) {
            Ok(t) => Ok(Vca { tag: t }),
            Err(e) => Err(e),
        }
    }

    /// Makes the amplifier read `wave`, a module created before it.
    pub fn wave(&self, rack: &mut Rack, wave: Tag) -> (r: Result<(), RackError>)
        requires
            old(rack).wf(),
        ensures
            final(rack).wf(),
            r is Ok <==> self.tag < old(rack)@.len() && with_wave(old(rack)@.modules[self.tag as int], wave) is Some && wave < self.tag,
            r is Ok ==> final(rack)@ == (RackView {
                modules: old(rack)@.modules.update(self.tag as int, with_wave(old(rack)@.modules[self.tag as int], wave)->Some_0),
                ..old(rack)@
            }),
            r is Err ==> final(rack)@ == old(rack)@,
    {
        rack.set_wave(self.tag, wave)
    }

    /// Control `level`, resolved; `None` when the module has no such control.
    pub fn level_value(&self, rack: &Rack) -> (r: Option<Real>)
        requires
            rack.wf(),
        ensures
            self.tag < rack@.len() && 0 < rack@.controls[self.tag as int].len() ==> r == Some(rack@.ctl(self.tag as int, 0) as i64),
            !(self.tag < rack@.len() && 0 < rack@.controls[self.tag as int].len()) ==> r is None,
    {
        rack.control_value(self.tag, 0)
    }

    /// Sets control `level`; refused, with the rack left as it was, unless the
    /// module has it and the value is constant or refers to an earlier module.
    pub fn level(&self, rack: &mut Rack, level: In) -> (r: Result<(), RackError>)
        requires
            old(rack).wf(),
        ensures
            final(rack).wf(),
            r is Ok <==> self.tag < old(rack)@.len() && 0 < old(rack)@.controls[self.tag as int].len() && valid_in(level, self.tag as int),
            r is Ok ==> final(rack)@ == (RackView { controls: old(rack)@.controls.update(self.tag as int, old(rack)@.controls[self.tag as int].update(0, level)), ..old(rack)@ }),
            r is Err ==> final(rack)@ == old(rack)@,
    {
        rack.set_control(self.tag, 0, level)
    }

}

/// A cross fade of `wave1` (slot 0) and `wave2` (slot 1) by `alpha`
/// (slot 2); `alpha == 0` gives all of `wave1`.
#[derive(Clone, Copy, Debug, PartialEq, Eq, Structural)]
pub struct CrossFade {
    pub tag: Tag,
}

impl CrossFade {
    /// A handle on the module tagged `tag`.
    pub fn new(tag: Tag) -> (r: Self)
        ensures
            r.tag == tag,
    {
        Self { tag }
    }

    pub fn tag(&self) -> (r: Tag)
        ensures
            r == self.tag,
    {
        self.tag
    }

    /// Appends an even cross fade of two existing modules.
    pub fn rack(rack: &mut Rack, wave1: Tag, wave2: Tag) -> (r: Result<Self, RackError>)
        requires
            old(rack).wf(),
        ensures
            final(rack).wf(),
            r is Ok <==> wave1 < old(rack)@.len() && wave2 < old(rack)@.len() && old(rack)@.len() < usize::MAX,
            r matches Ok(h) ==> h.tag == old(rack)@.len() && final(rack)@ == with_module(old(rack)@, Module::CrossFade, seq![In::Reference(wave1, 0), In::Reference(wave2, 0), In::Fixed(HALF)]),
            r is Err ==> final(rack)@ == old(rack)@,
    {
        let controls = vec![In::Reference(wave1, 0), In::Reference(wave2, 0), In::Fixed(HALF)];
        assert(controls@ =~= seq![In::Reference(wave1, 0), In::Reference(wave2, 0), In::Fixed(HALF)]);
        assert(valid_in(controls@[0], old(rack)@.len()) == (wave1 < old(rack)@.len()));
        assert(valid_in(controls@[1], old(rack)@.len()) == (wave2 < old(rack)@.len()));
        let m = Module::CrossFade;
        match append_plain(rack, m, controls) {
            Ok(t) => Ok(CrossFade { tag: t }),
            Err(e) => Err(e),
        }
    }

    /// Control `wave1`, resolved; `None` when the module has no such control.
    pub fn wave1_value(&self, rack: &Rack) -> (r: Option<Real>)
        requires
            rack.wf(),
        ensures
            self.tag < rack@.len() && 0 < rack@.controls[self.tag as int].len() ==> r == Some(rack@.ctl(self.tag as int, 0) as i64),
            !(self.tag < rack@.len() && 0 < rack@.controls[self.tag as int].len()) ==> r is None,
    {
        rack.control_value(self.tag, 0)
    }

    /// Sets control `wave1`; refused, with the rack left as it was, unless the
    /// module has it and the value is constant or refers to an earlier module.
    pub fn wave1(&self, rack: &mut Rack, wave1: In) -> (r: Result<(), RackError>)
        requires
            old(rack).wf(),
        ensures
            final(rack).wf(),
            r is Ok <==> self.tag < old(rack)@.len() && 0 < old(rack)@.controls[self.tag as int].len() && valid_in(wave1, self.tag as int),
            r is Ok ==> final(rack)@ == (RackView { controls: old(rack)@.controls.update(self.tag as int, old(rack)@.controls[self.tag as int].update(0, wave1)), ..old(rack)@ }),
            r is Err ==> final(rack)@ == old(rack)@,
    {
        rack.set_control(self.tag, 0, wave1)
    }

    /// Control `wave2`, resolved; `None` when the module has no such control.
    pub fn wave2_value(&self, rack: &Rack) -> (r: Option<Real>)
        requires
            rack.wf(),
        ensures
            self.tag < rack@.len() && 1 < rack@.controls[self.tag as int].len() ==> r == Some(rack@.ctl(self.tag as int, 1) as i64),
            !(self.tag < rack@.len() && 1 < rack@.controls[self.tag as int].len()) ==> r is None,
    {
        rack.control_value(self.tag, 1)
    }

    /// Sets control `wave2`; refused, with the rack left as it was, unless the
    /// module has it and the value is constant or refers to an earlier module.
    pub fn wave2(&self, rack: &mut Rack, wave2: In) -> (r: Result<(), RackError>)
        requires
            old(rack).wf(),
        ensures
            final(rack).wf(),
            r is Ok <==> self.tag < old(rack)@.len() && 1 < old(rack)@.controls[self.tag as int].len() && valid_in(wave2, self.tag as int),
            r is Ok ==> final(rack)@ == (RackView { controls: old(rack)@.controls.update(self.tag as int, old(rack)@.controls[self.tag as int].update(1, wave2)), ..old(rack)@ }),
            r is Err ==> final(rack)@ == old(rack)@,
    {
        rack.set_control(self.tag, 1, wave2)
    }

    /// Control `alpha`, resolved; `None` when the module has no such control.
    pub fn alpha_value(&self, rack: &Rack) -> (r: Option<Real>)
        requires
            rack.wf(),
        ensures
            self.tag < rack@.len() && 2 < rack@.controls[self.tag as int].len() ==> r == Some(rack@.ctl(self.tag as int, 2) as i64),
            !(self.tag < rack@.len() && 2 < rack@.controls[self.tag as int].len()) ==> r is None,
    {
        rack.control_value(self.tag, 2)
    }

    /// Sets control `alpha`; refused, with the rack left as it was, unless the
    /// module has it and the value is constant or refers to an earlier module.
    pub fn alpha(&self, rack: &mut Rack, alpha: In) -> (r: Result<(), RackError>)
        requires
            old(rack).wf(),
        ensures
            final(rack).wf(),
            r is Ok <==> self.tag < old(rack)@.len() && 2 < old(rack)@.controls[self.tag as int].len() && valid_in(alpha, self.tag as int),
            r is Ok ==> final(rack)@ == (RackView { controls: old(rack)@.controls.update(self.tag as int, old(rack)@.controls[self.tag as int].update(2, alpha)), ..old(rack)@ }),
            r is Err ==> final(rack)@ == old(rack)@,
    {
        rack.set_control(self.tag, 2, alpha)
    }

}

/// A frequency modulator: `base_hz` (slot 0) plus `mod_idx` (slot 2) times
/// `mod_hz` (slot 1) times the output of `wave`.
#[derive(Clone, Copy, Debug, PartialEq, Eq, Structural)]
pub struct Modulator {
    pub tag: Tag,
}

impl Modulator {
    /// A handle on the module tagged `tag`.
    pub fn new(tag: Tag) -> (r: Self)
        ensures
            r.tag == tag,
    {
        Self { tag }
    }

    pub fn tag(&self) -> (r: Tag)
        ensures
            r == self.tag,
    {
        self.tag
    }

    /// Appends a modulator of index one on an existing `wave`.
    pub fn rack(rack: &mut Rack, wave: Tag, base_hz: Real, mod_hz: Real) -> (r: Result<Self, RackError>)
        requires
            old(rack).wf(),
        ensures
            final(rack).wf(),
            r is Ok <==> wave < old(rack)@.len() && old(rack)@.len() < usize::MAX,
            r matches Ok(h) ==> h.tag == old(rack)@.len() && final(rack)@ == with_module(old(rack)@, Module::Modulator { wave }, seq![In::Fixed(base_hz), In::Fixed(mod_hz), In::Fixed(ONE)]),
            r is Err ==> final(rack)@ == old(rack)@,
    {
        let controls = vec![In::Fixed(base_hz), In::Fixed(mod_hz), In::Fixed(ONE)];
        assert(controls@ =~= seq![In::Fixed(base_hz), In::Fixed(mod_hz), In::Fixed(ONE)]);
        let m = Module::Modulator { wave };
        match append_plain(rack, m, controls) {
            Ok(t) => Ok(Modulator { tag: t }),
            Err(e) => Err(e),
        }
    }

    /// Control `base_hz`, resolved; `None` when the module has no such control.
    pub fn base_hz_value(&self, rack: &Rack) -> (r: Option<Real>)
        requires
            rack.wf(),
        ensures
            self.tag < rack@.len() && 0 < rack@.controls[self.tag as int].len() ==> r == Some(rack@.ctl(self.tag as int, 0) as i64),
            !(self.tag < rack@.len() && 0 < rack@.controls[self.tag as int].len()) ==> r is None,
    {
        rack.control_value(self.tag, 0)
    }

    /// Sets control `base_hz`; refused, with the rack left as it was, unless the
    /// module has it and the value is constant or refers to an earlier module.
    pub fn base_hz(&self, rack: &mut Rack, base_hz: In) -> (r: Result<(), RackError>)
        requires
            old(rack).wf(),
        ensures
            final(rack).wf(),
            r is Ok <==> self.tag < old(rack)@.len() && 0 < old(rack)@.controls[self.tag as int].len() && valid_in(base_hz, self.tag as int),
            r is Ok ==> final(rack)@ == (RackView { controls: old(rack)@.controls.update(self.tag as int, old(rack)@.controls[self.tag as int].update(0, base_hz)), ..old(rack)@ }),
            r is Err ==> final(rack)@ == old(rack)@,
    {
        rack.set_control(self.tag, 0, base_hz)
    }

    /// Control `mod_hz`, resolved; `None` when the module has no such control.
    pub fn mod_hz_value(&self, rack: &Rack) -> (r: Option<Real>)
        requires
            rack.wf(),
        ensures
            self.tag < rack@.len() && 1 < rack@.controls[self.tag as int].len() ==> r == Some(rack@.ctl(self.tag as int, 1) as i64),
            !(self.tag < rack@.len() && 1 < rack@.controls[self.tag as int].len()) ==> r is None,
    {
        rack.control_value(self.tag, 1)
    }

    /// Sets control `mod_hz`; refused, with the rack left as it was, unless the
    /// module has it and the value is constant or refers to an earlier module.
    pub fn mod_hz(&self, rack: &mut Rack, mod_hz: In) -> (r: Result<(), RackError>)
        requires
            old(rack).wf(),
        ensures
            final(rack).wf(),
            r is Ok <==> self.tag < old(rack)@.len() && 1 < old(rack)@.controls[self.tag as int].len() && valid_in(mod_hz, self.tag as int),
            r is Ok ==> final(rack)@ == (RackView { controls: old(rack)@.controls.update(self.tag as int, old(rack)@.controls[self.tag as int].update(1, mod_hz)), ..old(rack)@ }),
            r is Err ==> final(rack)@ == old(rack)@,
    {
        rack.set_control(self.tag, 1, mod_hz)
    }

    /// Control `mod_idx`, resolved; `None` when the module has no such control.
    pub fn mod_idx_value(&self, rack: &Rack) -> (r: Option<Real>)
        requires
            rack.wf(),
        ensures
            self.tag < rack@.len() && 2 < rack@.controls[self.tag as int].len() ==> r == Some(rack@.ctl(self.tag as int, 2) as i64),
            !(self.tag < rack@.len() && 2 < rack@.controls[self.tag as int].len()) ==> r is None,
    {
        rack.control_value(self.tag, 2)
    }

    /// Sets control `mod_idx`; refused, with the rack left as it was, unless the
    /// module has it and the value is constant or refers to an earlier module.
    pub fn mod_idx(&self, rack: &mut Rack, mod_idx: In) -> (r: Result<(), RackError>)
        requires
            old(rack).wf(),
        ensures
            final(rack).wf(),
            r is Ok <==> self.tag < old(rack)@.len() && 2 < old(rack)@.controls[self.tag as int].len() && valid_in(mod_idx, self.tag as int),
            r is Ok ==> final(rack)@ == (RackView { controls: old(rack)@.controls.update(self.tag as int, old(rack)@.controls[self.tag as int].update(2, mod_idx)), ..old(rack)@ }),
            r is Err ==> final(rack)@ == old(rack)@,
    {
        rack.set_control(self.tag, 2, mod_idx)
    }

}

/// A low-pass biquad on `wave`, designed each sample from `cutoff` (slot 0)
/// and `q` (slot 1).
#[derive(Clone, Copy, Debug, PartialEq, Eq, Structural)]
pub struct Lpf {
    pub tag: Tag,
}

/// The default cutoff of a low-pass module, 1 kHz, raw.
pub const DEFAULT_CUTOFF: i64 = 1000 * ONE;

impl Lpf {
    /// A handle on the module tagged `tag`.
    pub fn new(tag: Tag) -> (r: Self)
        ensures
            r.tag == tag,
    {
        Self { tag }
    }

    pub fn tag(&self) -> (r: Tag)
        ensures
            r == self.tag,
    {
        self.tag
    }

    /// Appends a low-pass filter at 1 kHz and `q` of `1/sqrt(2)` on an
    /// existing `wave`, with silent history.
    pub fn rack(rack: &mut Rack, wave: Tag) -> (r: Result<Self, RackError>)
        requires
            old(rack).wf(),
        ensures
            final(rack).wf(),
            r is Ok <==> wave < old(rack)@.len() && old(rack)@.len() < usize::MAX,
            r matches Ok(h) ==> h.tag == old(rack)@.len() && final(rack)@ == old(rack)@.appended(
                Module::Lpf { wave },
                seq![In::Fixed(DEFAULT_CUTOFF), In::Fixed(DEFAULT_Q)],
                seq![0i64, 0i64, 0i64, 0i64],
                silent(),
            ),
            r is Err ==> final(rack)@ == old(rack)@,
    {
        let controls = vec![In::Fixed(DEFAULT_CUTOFF), In::Fixed(DEFAULT_Q)];
        assert(controls@ =~= seq![In::Fixed(DEFAULT_CUTOFF), In::Fixed(DEFAULT_Q)]);
        let st = vec![0i64, 0i64, 0i64, 0i64];
        assert(st@ =~= seq![0i64, 0i64, 0i64, 0i64]);
        let b = RingBuffer::new(1);
        assert(b@ == silent());
        match rack.add_module(Module::Lpf { wave }, controls, st, b) {
            Ok(t) => Ok(Lpf { tag: t }),
            Err(e) => Err(e),
        }
    }

    /// Control `cutoff`, resolved; `None` when the module has no such control.
    pub fn cutoff(&self, rack: &Rack) -> (r: Option<Real>)
        requires
            rack.wf(),
        ensures
            self.tag < rack@.len() && 0 < rack@.controls[self.tag as int].len() ==> r == Some(rack@.ctl(self.tag as int, 0) as i64),
            !(self.tag < rack@.len() && 0 < rack@.controls[self.tag as int].len()) ==> r is None,
    {
        rack.control_value(self.tag, 0)
    }

    /// Sets control `cutoff`; refused, with the rack left as it was, unless the
    /// module has it and the value is constant or refers to an earlier module.
    pub fn set_cutoff(&self, rack: &mut Rack, cutoff: In) -> (r: Result<(), RackError>)
        requires
            old(rack).wf(),
        ensures
            final(rack).wf(),
            r is Ok <==> self.tag < old(rack)@.len() && 0 < old(rack)@.controls[self.tag as int].len() && valid_in(cutoff, self.tag as int),
            r is Ok ==> final(rack)@ == (RackView { controls: old(rack)@.controls.update(self.tag as int, old(rack)@.controls[self.tag as int].update(0, cutoff)), ..old(rack)@ }),
            r is Err ==> final(rack)@ == old(rack)@,
    {
        rack.set_control(self.tag, 0, cutoff)
    }

    /// Control `q`, resolved; `None` when the module has no such control.
    pub fn q(&self, rack: &Rack) -> (r: Option<Real>)
        requires
            rack.wf(),
        ensures
            self.tag < rack@.len() && 1 < rack@.controls[self.tag as int].len() ==> r == Some(rack@.ctl(self.tag as int, 1) as i64),
            !(self.tag < rack@.len() && 1 < rack@.controls[self.tag as int].len()) ==> r is None,
    {
        rack.control_value(self.tag, 1)
    }

    /// Sets control `q`; refused, with the rack left as it was, unless the
    /// module has it and the value is constant or refers to an earlier module.
    pub fn set_q(&self, rack: &mut Rack, q: In) -> (r: Result<(), RackError>)
        requires
            old(rack).wf(),
        ensures
            final(rack).wf(),
            r is Ok <==> self.tag < old(rack)@.len() && 1 < old(rack)@.controls[self.tag as int].len() && valid_in(q, self.tag as int),
            r is Ok ==> final(rack)@ == (RackView { controls: old(rack)@.controls.update(self.tag as int, old(rack)@.controls[self.tag as int].update(1, q)), ..old(rack)@ }),
            r is Err ==> final(rack)@ == old(rack)@,
    {
        rack.set_control(self.tag, 1, q)
    }

}

/// A variable delay line on `wave`; `delay_time` (slot 0) is in seconds.
#[derive(Clone, Copy, Debug, PartialEq, Eq, Structural)]
pub struct Delay {
    pub tag: Tag,
}

impl Delay {
    /// A handle on the module tagged `tag`.
    pub fn new(tag: Tag) -> (r: Self)
        ensures
            r.tag == tag,
    {
        Self { tag }
    }

    pub fn tag(&self) -> (r: Tag)
        ensures
            r == self.tag,
    {
        self.tag
    }

    /// Appends a delay line on an existing `wave`; its buffer starts with one slot and grows with the delay.
    pub fn rack(rack: &mut Rack, wave: Tag, delay_time: In) -> (r: Result<Self, RackError>)
        requires
            old(rack).wf(),
        ensures
            final(rack).wf(),
            r is Ok <==> wave < old(rack)@.len() && valid_in(delay_time, old(rack)@.len()) && old(rack)@.len() < usize::MAX,
            r matches Ok(h) ==> h.tag == old(rack)@.len() && final(rack)@ == with_module(old(rack)@, Module::Delay { wave }, seq![delay_time]),
            r is Err ==> final(rack)@ == old(rack)@,
    {
        let controls = vec![delay_time];
        assert(controls@ =~= seq![delay_time]);
        let m = Module::Delay { wave };
        match append_plain(rack, m, controls) {
            Ok(t) => Ok(Delay { tag: t }),
            Err(e) => Err(e),
        }
    }

    /// Makes the delay line read `wave`, a module created before it.
    pub fn wave(&self, rack: &mut Rack, wave: Tag) -> (r: Result<(), RackError>)
        requires
            old(rack).wf(),
        ensures
            final(rack).wf(),
            r is Ok <==> self.tag < old(rack)@.len() && with_wave(old(rack)@.modules[self.tag as int], wave) is Some && wave < self.tag,
            r is Ok ==> final(rack)@ == (RackView {
                modules: old(rack)@.modules.update(self.tag as int, with_wave(old(rack)@.modules[self.tag as int], wave)->Some_0),
                ..old(rack)@
            }),
            r is Err ==> final(rack)@ == old(rack)@,
    {
        rack.set_wave(self.tag, wave)
    }

    /// Control `delay_time`, resolved; `None` when the module has no such control.
    pub fn delay_time_value(&self, rack: &Rack) -> (r: Option<Real>)
        requires
            rack.wf(),
        ensures
            self.tag < rack@.len() && 0 < rack@.controls[self.tag as int].len() ==> r == Some(rack@.ctl(self.tag as int, 0) as i64),
            !(self.tag < rack@.len() && 0 < rack@.controls[self.tag as int].len()) ==> r is None,
    {
        rack.control_value(self.tag, 0)
    }

    /// Sets control `delay_time`; refused, with the rack left as it was, unless the
    /// module has it and the value is constant or refers to an earlier module.
    pub fn delay_time(&self, rack: &mut Rack, delay_time: In) -> (r: Result<(), RackError>)
        requires
            old(rack).wf(),
        ensures
            final(rack).wf(),
            r is Ok <==> self.tag < old(rack)@.len() && 0 < old(rack)@.controls[self.tag as int].len() && valid_in(delay_time, self.tag as int),
            r is Ok ==> final(rack)@ == (RackView { controls: old(rack)@.controls.update(self.tag as int, old(rack)@.controls[self.tag as int].update(0, delay_time)), ..old(rack)@ }),
            r is Err ==> final(rack)@ == old(rack)@,
    {
        rack.set_control(self.tag, 0, delay_time)
    }

}

fn copy_tags(ws: &Vec<Tag>) -> (r: Vec<Tag>)
    ensures
        r@ == ws@,
{
    let mut r: Vec<Tag> = Vec::new();
    let mut i: usize = 0;
    while i < ws.len()
        invariant
            i <= ws@.len(),
            r@ == ws@.subrange(0, i as int),
        decreases ws@.len() - i,
    {
        r.push(ws[i]);
        i = i + 1;
        assert(r@ =~= ws@.subrange(0, i as int));
    }
    assert(ws@.subrange(0, ws@.len() as int) =~= ws@);
    r
}

/// `n` unit levels and a unit overall level.
pub open spec fn unit_levels(n: int) -> Seq<In> {
    Seq::new((n + 1) as nat, |_i| In::Fixed(ONE))
}

/// A mixer: the sum of `waves`, wave `i` scaled by level `i` (slot `i`),
/// the whole scaled by the overall level (slot `waves.len()`).
#[derive(Clone, Debug)]
pub struct Mixer {
    pub tag: Tag,
    pub waves: Vec<Tag>,
}

impl Mixer {
    pub fn new(tag: Tag, waves: Vec<Tag>) -> (r: Self)
        ensures
            r.tag == tag,
            r.waves@ == waves@,
    {
        Mixer { tag, waves }
    }

    pub fn tag(&self) -> (r: Tag)
        ensures
            r == self.tag,
    {
        self.tag
    }

    /// Appends a mixer of existing `waves`, every level one.
    pub fn rack(rack: &mut Rack, waves: Vec<Tag>) -> (r: Result<Mixer, RackError>)
        requires
            old(rack).wf(),
        ensures
            final(rack).wf(),
            r is Ok <==> all_before(waves@, old(rack)@.len()) && old(rack)@.len() < usize::MAX && waves@.len() < usize::MAX,
            r matches Ok(h) ==> h.tag == old(rack)@.len() && h.waves@ == waves@ && final(rack)@ == with_module(
                old(rack)@,
                Module::Mixer { waves },
                unit_levels(waves@.len() as int),
            ),
            r is Err ==> final(rack)@ == old(rack)@,
    {
        let n = waves.len();
        if n == usize::MAX {
            return Err(RackError::InvalidModule);
        }
        let mut controls: Vec<In> = Vec::new();
        let mut i: usize = 0;
        while i <= n
            invariant
                i <= n + 1,
                n < usize::MAX,
                controls@ =~= Seq::new(i as nat, |_i| In::Fixed(ONE)),
            decreases n + 1 - i,
        {
            controls.push(In::Fixed(ONE));
            i = i + 1;
        }
        assert(controls@ =~= unit_levels(n as int));
        let own = copy_tags(&waves);
        match append_plain(rack, Module::Mixer { waves }, controls) {
            Ok(t) => Ok(Mixer { tag: t, waves: own }),
            Err(e) => Err(e),
        }
    }

    /// Sets the overall level.
    pub fn level(&self, rack: &mut Rack, level: In) -> (r: Result<(), RackError>)
        requires
            old(rack).wf(),
            self.waves@.len() < usize::MAX,
        ensures
            final(rack).wf(),
            r is Ok <==> self.tag < old(rack)@.len() && self.waves@.len() < old(rack)@.controls[self.tag as int].len() && valid_in(level, self.tag as int),
            r is Ok ==> final(rack)@ == (RackView { controls: old(rack)@.controls.update(self.tag as int, old(rack)@.controls[self.tag as int].update(self.waves@.len() as int, level)), ..old(rack)@ }),
            r is Err ==> final(rack)@ == old(rack)@,
    {
        rack.set_control(self.tag, self.waves.len(), level)
    }

    /// Sets the level of every wave, `levels[i]` for wave `i`. Refused, with
    /// the rack left as it was, unless there is one level per wave and each
    /// is constant or refers to a module created before the mixer.
    pub fn levels(&self, rack: &mut Rack, levels: Vec<In>) -> (r: Result<(), RackError>)
        requires
            old(rack).wf(),
        ensures
            final(rack).wf(),
            ({
                let v = old(rack)@;
                let t = self.tag as int;
                let ok = levels@.len() == self.waves@.len() && t < v.len()
                    && levels@.len() <= v.controls[t].len()
                    && forall|i: int| 0 <= i < levels@.len() ==> valid_in(#[trigger] levels@[i], t);
                &&& r is Ok <==> ok
                &&& r is Ok ==> final(rack)@ == (RackView {
                    controls: v.controls.update(t, levels@ + v.controls[t].subrange(levels@.len() as int, v.controls[t].len() as int)),
                    ..v
                })
                &&& r is Err ==> final(rack)@ == v
            }),
    {
        let n = levels.len();
        if n != self.waves.len() || self.tag >= rack.num_modules() {
            return Err(RackError::NoSuchControl);
        }
        let t = self.tag;
        let ghost v = rack@;
        if n > 0 && rack.control(t, n - 1).is_none() {
            return Err(RackError::NoSuchControl);
        }
        let mut i: usize = 0;
        while i < n
            invariant
                i <= n,
                n == levels@.len(),
                t == self.tag,
                rack.wf(),
                rack@ == v,
                forall|j: int| 0 <= j < i ==> valid_in(#[trigger] levels@[j], t as int),
            decreases n - i,
        {
            let ok = match levels[i] {
                In::Fixed(_) => true,
                In::Reference(u, s) => u < t && s == 0,
            };
            if !ok {
                return Err(RackError::InvalidReference);
            }
            i = i + 1;
        }
        let ghost len = v.controls[t as int].len() as int;
        assert(levels@.subrange(0, 0) + v.controls[t as int].subrange(0, len) =~= v.controls[t as int]);
        assert(v.controls.update(t as int, v.controls[t as int]) =~= v.controls);
        let mut k: usize = 0;
        while k < n
            invariant
                k <= n,
                n == levels@.len(),
                n <= len,
                len == v.controls[t as int].len(),
                t < v.len(),
                v.wf(),
                rack.wf(),
                forall|j: int| 0 <= j < n ==> valid_in(#[trigger] levels@[j], t as int),
                rack@ == (RackView {
                    controls: v.controls.update(t as int, levels@.subrange(0, k as int) + v.controls[t as int].subrange(k as int, len)),
                    ..v
                }),
            decreases n - k,
        {
            assert(rack@.controls[t as int].len() == len);
            let res = rack.set_control(t, k, levels[k]);
            assert(res is Ok);
            assert(rack@.controls[t as int] =~= levels@.subrange(0, k + 1) + v.controls[t as int].subrange(k + 1, len));
            assert(rack@.controls =~= v.controls.update(t as int, levels@.subrange(0, k + 1) + v.controls[t as int].subrange(k + 1, len)));
            k = k + 1;
        }
        assert(levels@.subrange(0, n as int) + v.controls[t as int].subrange(n as int, len) =~= levels@ + v.controls[t as int].subrange(levels@.len() as int, len));
        assert(levels@.subrange(0, n as int) =~= levels@);
        Ok(())
    }

    /// Sets the level of wave `n`; refused when there is no wave `n`.
    pub fn level_nth(&self, rack: &mut Rack, n: usize, level: In) -> (r: Result<(), RackError>)
        requires
            old(rack).wf(),
        ensures
            final(rack).wf(),
            r is Ok <==> n < self.waves@.len() && self.tag < old(rack)@.len() && n < old(rack)@.controls[self.tag as int].len() && valid_in(level, self.tag as int),
            r is Ok ==> final(rack)@ == (RackView { controls: old(rack)@.controls.update(self.tag as int, old(rack)@.controls[self.tag as int].update(n as int, level)), ..old(rack)@ }),
            r is Err ==> final(rack)@ == old(rack)@,
    {
        if n >= self.waves.len() {
            return Err(RackError::NoSuchControl);
        }
        rack.set_control(self.tag, n, level)
    }
}

/// The product of the outputs of `waves`: amplitude modulation and gating.
#[derive(Clone, Debug)]
pub struct Product {
    pub waves: Vec<Tag>,
}

impl Product {
    pub fn new(waves: Vec<Tag>) -> (r: Self)
        ensures
            r.waves@ == waves@,
    {
        Product { waves }
    }

    /// Replaces the waves multiplied.
    pub fn waves(&mut self, waves: Vec<Tag>)
        ensures
            final(self).waves@ == waves@,
    {
        self.waves = waves;
    }

    /// The product of the published outputs of the waves.
    pub fn signal(&self, rack: &Rack) -> (r: Real)
        requires
            rack.wf(),
            all_before(self.waves@, rack@.len()),
        ensures
            r == product_acc(rack@.outputs, self.waves@, self.waves@.len() as int),
    {
        rack.product_of(&self.waves)
    }

    /// Appends the product as a module and returns its tag; refused unless
    /// every wave exists.
    pub fn rack(self, rack: &mut Rack) -> (r: Result<Tag, RackError>)
        requires
            old(rack).wf(),
        ensures
            final(rack).wf(),
            r is Ok <==> all_before(self.waves@, old(rack)@.len()) && old(rack)@.len() < usize::MAX,
            r matches Ok(t) ==> t == old(rack)@.len() && final(rack)@ == with_module(old(rack)@, Module::Product { waves: self.waves }, Seq::empty()),
            r is Err ==> final(rack)@ == old(rack)@,
    {
        let controls: Vec<In> = Vec::new();
        assert(controls@ =~= Seq::<In>::empty());
        append_plain(rack, Module::Product { waves: self.waves }, controls)
    }
}

/// The sum of the outputs of `waves`.
#[derive(Clone, Debug)]
pub struct Sum {
    pub waves: Vec<Tag>,
}

impl Sum {
    pub fn new(waves: Vec<Tag>) -> (r: Self)
        ensures
            r.waves@ == waves@,
    {
        Sum { waves }
    }

    /// The sum of the published outputs of the waves.
    pub fn signal(&self, rack: &Rack) -> (r: Real)
        requires
            rack.wf(),
            all_before(self.waves@, rack@.len()),
        ensures
            r == sum_acc(rack@.outputs, self.waves@, self.waves@.len() as int),
    {
        rack.sum_of(&self.waves)
    }

    /// Appends the sum as a module and returns its tag; refused unless
    /// every wave exists.
    pub fn rack(self, rack: &mut Rack) -> (r: Result<Tag, RackError>)
        requires
            old(rack).wf(),
        ensures
            final(rack).wf(),
            r is Ok <==> all_before(self.waves@, old(rack)@.len()) && old(rack)@.len() < usize::MAX,
            r matches Ok(t) ==> t == old(rack)@.len() && final(rack)@ == with_module(old(rack)@, Module::Sum { waves: self.waves }, Seq::empty()),
            r is Err ==> final(rack)@ == old(rack)@,
    {
        let controls: Vec<In> = Vec::new();
        assert(controls@ =~= Seq::<In>::empty());
        append_plain(rack, Module::Sum { waves: self.waves }, controls)
    }
}

/// A patch selector: plays the output of `active`, scaled by `level` (slot 0).
#[derive(Clone, Copy, Debug, PartialEq, Eq, Structural)]
pub struct Union {
    pub tag: Tag,
}

impl Union {
    /// A handle on the module tagged `tag`.
    pub fn new(tag: Tag) -> (r: Self)
        ensures
            r.tag == tag,
    {
        Self { tag }
    }

    pub fn tag(&self) -> (r: Tag)
        ensures
            r == self.tag,
    {
        self.tag
    }

    /// Appends a selector over existing `waves`, playing the first at level
    /// one; refused when `waves` is empty or names a module not yet created.
    pub fn rack(rack: &mut Rack, waves: Vec<Tag>) -> (r: Result<Union, RackError>)
        requires
            old(rack).wf(),
        ensures
            final(rack).wf(),
            r is Ok <==> waves@.len() > 0 && all_before(waves@, old(rack)@.len()) && old(rack)@.len() < usize::MAX,
            r matches Ok(h) ==> h.tag == old(rack)@.len() && final(rack)@ == with_module(
                old(rack)@,
                Module::Union { waves, active: waves@[0] },
                seq![In::Fixed(ONE)],
            ),
            r is Err ==> final(rack)@ == old(rack)@,
    {
        if waves.len() == 0 {
            return Err(RackError::InvalidModule);
        }
        let active = waves[0];
        let controls = vec![In::Fixed(ONE)];
        assert(controls@ =~= seq![In::Fixed(ONE)]);
        match append_plain(rack, Module::Union { waves, active }, controls) {
            Ok(t) => Ok(Union { tag: t }),
            Err(e) => Err(e),
        }
    }

    /// Makes the selector play `active`, a module created before it.
    pub fn active(&self, rack: &mut Rack, active: Tag) -> (r: Result<(), RackError>)
        requires
            old(rack).wf(),
        ensures
            final(rack).wf(),
            r is Ok <==> self.tag < old(rack)@.len() && old(rack)@.modules[self.tag as int] is Union && active < self.tag,
            r is Ok ==> final(rack)@.modules[self.tag as int] is Union,
            r is Ok ==> final(rack)@.modules[self.tag as int]->Union_active == active,
            r is Ok ==> final(rack)@.modules[self.tag as int]->Union_waves == old(rack)@.modules[self.tag as int]->Union_waves,
            r is Ok ==> (RackView { modules: old(rack)@.modules, ..final(rack)@ }) == old(rack)@,
            r is Ok ==> forall|u: int| 0 <= u < old(rack)@.len() && u != self.tag ==> final(rack)@.modules[u] == old(rack)@.modules[u],
            final(rack)@.len() == old(rack)@.len(),
            r is Err ==> final(rack)@ == old(rack)@,
    {
        rack.set_active(self.tag, active)
    }

    /// Control `level`, resolved; `None` when the module has no such control.
    pub fn level_value(&self, rack: &Rack) -> (r: Option<Real>)
        requires
            rack.wf(),
        ensures
            self.tag < rack@.len() && 0 < rack@.controls[self.tag as int].len() ==> r == Some(rack@.ctl(self.tag as int, 0) as i64),
            !(self.tag < rack@.len() && 0 < rack@.controls[self.tag as int].len()) ==> r is None,
    {
        rack.control_value(self.tag, 0)
    }

    /// Sets control `level`; refused, with the rack left as it was, unless the
    /// module has it and the value is constant or refers to an earlier module.
    pub fn level(&self, rack: &mut Rack, level: In) -> (r: Result<(), RackError>)
        requires
            old(rack).wf(),
        ensures
            final(rack).wf(),
            r is Ok <==> self.tag < old(rack)@.len() && 0 < old(rack)@.controls[self.tag as int].len() && valid_in(level, self.tag as int),
            r is Ok ==> final(rack)@ == (RackView { controls: old(rack)@.controls.update(self.tag as int, old(rack)@.controls[self.tag as int].update(0, level)), ..old(rack)@ }),
            r is Err ==> final(rack)@ == old(rack)@,
    {
        rack.set_control(self.tag, 0, level)
    }

}

/// A sine wave folder on `wave`; `fold_param` is slot 0.
#[derive(Clone, Copy, Debug, PartialEq, Eq, Structural)]
pub struct SineFold {
    pub tag: Tag,
    pub wave: Tag,
}

impl SineFold {
    pub fn new(tag: Tag, wave: Tag) -> (r: Self)
        ensures
            r.tag == tag,
            r.wave == wave,
    {
        SineFold { tag, wave }
    }

    /// Control `fold_param`, resolved; `None` when the module has no such control.
    pub fn fold_param(&self, rack: &Rack) -> (r: Option<Real>)
        requires
            rack.wf(),
        ensures
            self.tag < rack@.len() && 0 < rack@.controls[self.tag as int].len() ==> r == Some(rack@.ctl(self.tag as int, 0) as i64),
            !(self.tag < rack@.len() && 0 < rack@.controls[self.tag as int].len()) ==> r is None,
    {
        rack.control_value(self.tag, 0)
    }

    /// Sets control `fold_param`; refused, with the rack left as it was, unless the
    /// module has it and the value is constant or refers to an earlier module.
    pub fn set_fold_param(&self, rack: &mut Rack, fold_param: In) -> (r: Result<(), RackError>)
        requires
            old(rack).wf(),
        ensures
            final(rack).wf(),
            r is Ok <==> self.tag < old(rack)@.len() && 0 < old(rack)@.controls[self.tag as int].len() && valid_in(fold_param, self.tag as int),
            r is Ok ==> final(rack)@ == (RackView { controls: old(rack)@.controls.update(self.tag as int, old(rack)@.controls[self.tag as int].update(0, fold_param)), ..old(rack)@ }),
            r is Err ==> final(rack)@ == old(rack)@,
    {
        rack.set_control(self.tag, 0, fold_param)
    }

}

/// Configuration of a sine folder before it joins a rack.
#[derive(Clone, Copy, Debug, PartialEq, Eq, Structural)]
pub struct SineFoldBuilder {
    pub wave: Tag,
    pub fold_param: In,
}

impl SineFoldBuilder {
    pub fn new(wave: Tag, fold_param: In) -> (r: Self)
        ensures
            r.wave == wave,
            r.fold_param == fold_param,
    {
        SineFoldBuilder { wave, fold_param }
    }

    /// Appends the folder; refused unless `wave` exists and `fold_param`
    /// is constant or refers to an existing module.
    pub fn rack(&self, rack: &mut Rack) -> (r: Result<SineFold, RackError>)
        requires
            old(rack).wf(),
        ensures
            final(rack).wf(),
            r is Ok <==> self.wave < old(rack)@.len() && valid_in(self.fold_param, old(rack)@.len()) && old(rack)@.len() < usize::MAX,
            r matches Ok(h) ==> h.tag == old(rack)@.len() && h.wave == self.wave && final(rack)@ == with_module(
                old(rack)@,
                Module::SineFold { wave: self.wave },
                seq![self.fold_param],
            ),
            r is Err ==> final(rack)@ == old(rack)@,
    {
        let controls = vec![self.fold_param];
        assert(controls@ =~= seq![self.fold_param]);
        match append_plain(rack, Module::SineFold { wave: self.wave }, controls) {
            Ok(t) => Ok(SineFold { tag: t, wave: self.wave }),
            Err(e) => Err(e),
        }
    }
}

/// A soft clipper on `wave`.
#[derive(Clone, Copy, Debug, PartialEq, Eq, Structural)]
pub struct Tanh {
    pub tag: Tag,
    pub wave: Tag,
}

impl Tanh {
    pub fn new(tag: Tag, wave: Tag) -> (r: Self)
        ensures
            r.tag == tag,
            r.wave == wave,
    {
        Tanh { tag, wave }
    }
}

/// Configuration of a soft clipper before it joins a rack.
#[derive(Clone, Copy, Debug, PartialEq, Eq, Structural)]
pub struct TanhBuilder {
    pub wave: Tag,
}

impl TanhBuilder {
    pub fn new(wave: Tag) -> (r: Self)
        ensures
            r.wave == wave,
    {
        TanhBuilder { wave }
    }

    /// Appends the clipper; refused unless `wave` exists.
    pub fn rack(&self, rack: &mut Rack) -> (r: Result<Tanh, RackError>)
        requires
            old(rack).wf(),
        ensures
            final(rack).wf(),
            r is Ok <==> self.wave < old(rack)@.len() && old(rack)@.len() < usize::MAX,
            r matches Ok(h) ==> h.tag == old(rack)@.len() && h.wave == self.wave && final(rack)@ == with_module(
                old(rack)@,
                Module::Tanh { wave: self.wave },
                Seq::empty(),
            ),
            r is Err ==> final(rack)@ == old(rack)@,
    {
        let controls: Vec<In> = Vec::new();
        assert(controls@ =~= Seq::<In>::empty());
        match append_plain(rack, Module::Tanh { wave: self.wave }, controls) {
            Ok(t) => Ok(Tanh { tag: t, wave: self.wave }),
            Err(e) => Err(e),
        }
    }
}

/// The default attack of a new envelope, 0.01 s, raw.
pub const DEFAULT_ATTACK: i64 = 42949673;

/// The default release of a new envelope, 0.1 s, raw.
pub const DEFAULT_RELEASE: i64 = 429496730;

/// The bias parameter of the `exp_20` preset, 0.2, raw.
pub const EXP_20: i64 = 858993459;

/// The curve biases for shape parameters `a, d, r`: each bias is `1 - p`.
pub open spec fn shape_of(a: int, d: int, r: int) -> Shape {
    Shape {
        attack: sub_spec(ONE as int, a) as i64,
        decay: sub_spec(ONE as int, d) as i64,
        release: sub_spec(ONE as int, r) as i64,
    }
}

/// An ADSR envelope: controls `attack`, `decay`, `sustain`, `release`
/// (slots 0 to 3, durations in seconds); its level is state slot 3.
#[derive(Clone, Copy, Debug, PartialEq, Eq, Structural)]
pub struct Adsr {
    pub tag: Tag,
}

impl Adsr {
    /// Appends an envelope with shape parameters `a_param`, `d_param`,
    /// `r_param` (one half is a straight ramp; smaller bows the segment
    /// like an exponential), attack 0.01 s, no decay, full sustain, release
    /// 0.1 s, no note held.
    pub fn new(rack: &mut Rack, a_param: Real, d_param: Real, r_param: Real) -> (r: Adsr)
        requires
            old(rack).wf(),
            old(rack)@.len() < usize::MAX,
        ensures
            final(rack).wf(),
            r.tag == old(rack)@.len(),
            final(rack)@ == old(rack)@.appended(
                Module::Adsr { shape: shape_of(a_param as int, d_param as int, r_param as int) },
                seq![In::Fixed(DEFAULT_ATTACK), In::Fixed(0), In::Fixed(ONE), In::Fixed(DEFAULT_RELEASE)],
                seq![0i64, 0i64, 0i64, 0i64, 0i64, 0i64],
                silent(),
            ),
    {
        let tag = rack.num_modules();
        let shape = Shape { attack: fx_sub(ONE, a_param), decay: fx_sub(ONE, d_param), release: fx_sub(ONE, r_param) };
        let controls = vec![In::Fixed(DEFAULT_ATTACK), In::Fixed(0), In::Fixed(ONE), In::Fixed(DEFAULT_RELEASE)];
        assert(controls@ =~= seq![In::Fixed(DEFAULT_ATTACK), In::Fixed(0), In::Fixed(ONE), In::Fixed(DEFAULT_RELEASE)]);
        let st = vec![0i64, 0i64, 0i64, 0i64, 0i64, 0i64];
        assert(st@ =~= seq![0i64, 0i64, 0i64, 0i64, 0i64, 0i64]);
        let b = RingBuffer::new(1);
        assert(b@ == silent());
        match rack.add_module(Module::Adsr { shape }, controls, st, b) {
            Ok(t) => Adsr { tag: t },
            Err(_) => Adsr { tag },
        }
    }

    /// An envelope of straight segments.
    pub fn linear(rack: &mut Rack) -> (r: Adsr)
        requires
            old(rack).wf(),
            old(rack)@.len() < usize::MAX,
        ensures
            final(rack).wf(),
            r.tag == old(rack)@.len(),
            final(rack)@ == old(rack)@.appended(
                Module::Adsr { shape: shape_of(HALF as int, HALF as int, HALF as int) },
                seq![In::Fixed(DEFAULT_ATTACK), In::Fixed(0), In::Fixed(ONE), In::Fixed(DEFAULT_RELEASE)],
                seq![0i64, 0i64, 0i64, 0i64, 0i64, 0i64],
                silent(),
            ),
    {
        Self::new(rack, HALF, HALF, HALF)
    }

    /// An envelope whose segments bow like exponentials.
    pub fn exp_20(rack: &mut Rack) -> (r: Adsr)
        requires
            old(rack).wf(),
            old(rack)@.len() < usize::MAX,
        ensures
            final(rack).wf(),
            r.tag == old(rack)@.len(),
            final(rack)@ == old(rack)@.appended(
                Module::Adsr { shape: shape_of(EXP_20 as int, EXP_20 as int, EXP_20 as int) },
                seq![In::Fixed(DEFAULT_ATTACK), In::Fixed(0), In::Fixed(ONE), In::Fixed(DEFAULT_RELEASE)],
                seq![0i64, 0i64, 0i64, 0i64, 0i64, 0i64],
                silent(),
            ),
    {
        Self::new(rack, EXP_20, EXP_20, EXP_20)
    }

    pub fn tag(&self) -> (r: Tag)
        ensures
            r == self.tag,
    {
        self.tag
    }

    /// Sets control `attack`; refused, with the rack left as it was, unless the
    /// module has it and the value is constant or refers to an earlier module.
    pub fn attack(&self, rack: &mut Rack, attack: In) -> (r: Result<(), RackError>)
        requires
            old(rack).wf(),
        ensures
            final(rack).wf(),
            r is Ok <==> self.tag < old(rack)@.len() && 0 < old(rack)@.controls[self.tag as int].len() && valid_in(attack, self.tag as int),
            r is Ok ==> final(rack)@ == (RackView { controls: old(rack)@.controls.update(self.tag as int, old(rack)@.controls[self.tag as int].update(0, attack)), ..old(rack)@ }),
            r is Err ==> final(rack)@ == old(rack)@,
    {
        rack.set_control(self.tag, 0, attack)
    }

    /// Sets control `decay`; refused, with the rack left as it was, unless the
    /// module has it and the value is constant or refers to an earlier module.
    pub fn decay(&self, rack: &mut Rack, decay: In) -> (r: Result<(), RackError>)
        requires
            old(rack).wf(),
        ensures
            final(rack).wf(),
            r is Ok <==> self.tag < old(rack)@.len() && 1 < old(rack)@.controls[self.tag as int].len() && valid_in(decay, self.tag as int),
            r is Ok ==> final(rack)@ == (RackView { controls: old(rack)@.controls.update(self.tag as int, old(rack)@.controls[self.tag as int].update(1, decay)), ..old(rack)@ }),
            r is Err ==> final(rack)@ == old(rack)@,
    {
        rack.set_control(self.tag, 1, decay)
    }

    /// Sets control `sustain`; refused, with the rack left as it was, unless the
    /// module has it and the value is constant or refers to an earlier module.
    pub fn sustain(&self, rack: &mut Rack, sustain: In) -> (r: Result<(), RackError>)
        requires
            old(rack).wf(),
        ensures
            final(rack).wf(),
            r is Ok <==> self.tag < old(rack)@.len() && 2 < old(rack)@.controls[self.tag as int].len() && valid_in(sustain, self.tag as int),
            r is Ok ==> final(rack)@ == (RackView { controls: old(rack)@.controls.update(self.tag as int, old(rack)@.controls[self.tag as int].update(2, sustain)), ..old(rack)@ }),
            r is Err ==> final(rack)@ == old(rack)@,
    {
        rack.set_control(self.tag, 2, sustain)
    }

    /// Sets control `release`; refused, with the rack left as it was, unless the
    /// module has it and the value is constant or refers to an earlier module.
    pub fn release(&self, rack: &mut Rack, release: In) -> (r: Result<(), RackError>)
        requires
            old(rack).wf(),
        ensures
            final(rack).wf(),
            r is Ok <==> self.tag < old(rack)@.len() && 3 < old(rack)@.controls[self.tag as int].len() && valid_in(release, self.tag as int),
            r is Ok ==> final(rack)@ == (RackView { controls: old(rack)@.controls.update(self.tag as int, old(rack)@.controls[self.tag as int].update(3, release)), ..old(rack)@ }),
            r is Err ==> final(rack)@ == old(rack)@,
    {
        rack.set_control(self.tag, 3, release)
    }

    /// The level the envelope last produced.
    pub fn level(&self, rack: &Rack) -> (r: Option<Real>)
        requires
            rack.wf(),
        ensures
            self.tag < rack@.len() && 3 < rack@.state[self.tag as int].len() ==> r == Some(rack@.state[self.tag as int][3]),
            !(self.tag < rack@.len() && 3 < rack@.state[self.tag as int].len()) ==> r is None,
    {
        rack.state_slot(self.tag, 3)
    }

    /// Note on: the attack restarts from the current level.
    pub fn on(&self, rack: &mut Rack) -> (r: Result<(), RackError>)
        requires
            old(rack).wf(),
        ensures
            final(rack).wf(),
            r is Ok <==> self.tag < old(rack)@.len() && old(rack)@.modules[self.tag as int] is Adsr,
            r is Ok ==> final(rack)@ == retriggered(old(rack)@, self.tag as int, true),
            r is Err ==> final(rack)@ == old(rack)@,
    {
        rack.trigger(self.tag, true)
    }

    /// Note off: the release starts from the current level.
    pub fn off(&self, rack: &mut Rack) -> (r: Result<(), RackError>)
        requires
            old(rack).wf(),
        ensures
            final(rack).wf(),
            r is Ok <==> self.tag < old(rack)@.len() && old(rack)@.modules[self.tag as int] is Adsr,
            r is Ok ==> final(rack)@ == retriggered(old(rack)@, self.tag as int, false),
            r is Err ==> final(rack)@ == old(rack)@,
    {
        rack.trigger(self.tag, false)
    }

}

/// A Karplus-Strong string excited by `burst`: controls `hz` (slot 0),
/// `cutoff` (slot 1) and `decay` (slot 2).
#[derive(Clone, Copy, Debug, PartialEq, Eq, Structural)]
pub struct WaveGuide {
    pub tag: Tag,
    pub burst: Tag,
}

impl WaveGuide {
    pub fn new(tag: Tag, burst: Tag) -> (r: Self)
        ensures
            r.tag == tag,
            r.burst == burst,
    {
        WaveGuide { tag, burst }
    }

    /// The handle of the envelope that shapes the string's pluck, if the
    /// tag is a string.
    pub fn envelope(&self, rack: &Rack) -> (r: Option<Adsr>)
        requires
            rack.wf(),
        ensures
            self.tag < rack@.len() && rack@.modules[self.tag as int] is WaveGuide ==> r == Some(Adsr { tag: rack@.modules[self.tag as int]->envelope }),
            !(self.tag < rack@.len() && rack@.modules[self.tag as int] is WaveGuide) ==> r is None,
    {
        match rack.envelope_of(self.tag) {
            Some(e) => Some(Adsr { tag: e }),
            None => None,
        }
    }

    /// Control `hz`, resolved; `None` when the module has no such control.
    pub fn hz(&self, rack: &Rack) -> (r: Option<Real>)
        requires
            rack.wf(),
        ensures
            self.tag < rack@.len() && 0 < rack@.controls[self.tag as int].len() ==> r == Some(rack@.ctl(self.tag as int, 0) as i64),
            !(self.tag < rack@.len() && 0 < rack@.controls[self.tag as int].len()) ==> r is None,
    {
        rack.control_value(self.tag, 0)
    }

    /// Sets control `hz`; refused, with the rack left as it was, unless the
    /// module has it and the value is constant or refers to an earlier module.
    pub fn set_hz(&self, rack: &mut Rack, hz: In) -> (r: Result<(), RackError>)
        requires
            old(rack).wf(),
        ensures
            final(rack).wf(),
            r is Ok <==> self.tag < old(rack)@.len() && 0 < old(rack)@.controls[self.tag as int].len() && valid_in(hz, self.tag as int),
            r is Ok ==> final(rack)@ == (RackView { controls: old(rack)@.controls.update(self.tag as int, old(rack)@.controls[self.tag as int].update(0, hz)), ..old(rack)@ }),
            r is Err ==> final(rack)@ == old(rack)@,
    {
        rack.set_control(self.tag, 0, hz)
    }

    /// Control `cutoff`, resolved; `None` when the module has no such control.
    pub fn cutoff(&self, rack: &Rack) -> (r: Option<Real>)
        requires
            rack.wf(),
        ensures
            self.tag < rack@.len() && 1 < rack@.controls[self.tag as int].len() ==> r == Some(rack@.ctl(self.tag as int, 1) as i64),
            !(self.tag < rack@.len() && 1 < rack@.controls[self.tag as int].len()) ==> r is None,
    {
        rack.control_value(self.tag, 1)
    }

    /// Sets control `cutoff`; refused, with the rack left as it was, unless the
    /// module has it and the value is constant or refers to an earlier module.
    pub fn set_cutoff(&self, rack: &mut Rack, cutoff: In) -> (r: Result<(), RackError>)
        requires
            old(rack).wf(),
        ensures
            final(rack).wf(),
            r is Ok <==> self.tag < old(rack)@.len() && 1 < old(rack)@.controls[self.tag as int].len() && valid_in(cutoff, self.tag as int),
            r is Ok ==> final(rack)@ == (RackView { controls: old(rack)@.controls.update(self.tag as int, old(rack)@.controls[self.tag as int].update(1, cutoff)), ..old(rack)@ }),
            r is Err ==> final(rack)@ == old(rack)@,
    {
        rack.set_control(self.tag, 1, cutoff)
    }

    /// Control `decay`, resolved; `None` when the module has no such control.
    pub fn decay(&self, rack: &Rack) -> (r: Option<Real>)
        requires
            rack.wf(),
        ensures
            self.tag < rack@.len() && 2 < rack@.controls[self.tag as int].len() ==> r == Some(rack@.ctl(self.tag as int, 2) as i64),
            !(self.tag < rack@.len() && 2 < rack@.controls[self.tag as int].len()) ==> r is None,
    {
        rack.control_value(self.tag, 2)
    }

    /// Sets control `decay`; refused, with the rack left as it was, unless the
    /// module has it and the value is constant or refers to an earlier module.
    pub fn set_decay(&self, rack: &mut Rack, decay: In) -> (r: Result<(), RackError>)
        requires
            old(rack).wf(),
        ensures
            final(rack).wf(),
            r is Ok <==> self.tag < old(rack)@.len() && 2 < old(rack)@.controls[self.tag as int].len() && valid_in(decay, self.tag as int),
            r is Ok ==> final(rack)@ == (RackView { controls: old(rack)@.controls.update(self.tag as int, old(rack)@.controls[self.tag as int].update(2, decay)), ..old(rack)@ }),
            r is Err ==> final(rack)@ == old(rack)@,
    {
        rack.set_control(self.tag, 2, decay)
    }

    /// Plucks: starts a note on the string's envelope.
    pub fn on(&self, rack: &mut Rack) -> (r: Result<(), RackError>)
        requires
            old(rack).wf(),
        ensures
            final(rack).wf(),
            r is Ok <==> self.tag < old(rack)@.len() && old(rack)@.modules[self.tag as int] is WaveGuide
                && old(rack)@.modules[old(rack)@.modules[self.tag as int]->envelope as int] is Adsr,
            r is Ok ==> final(rack)@ == retriggered(old(rack)@, old(rack)@.modules[self.tag as int]->envelope as int, true),
            r is Err ==> final(rack)@ == old(rack)@,
    {
        match rack.envelope_of(self.tag) {
            Some(e) => {
                proof {
                    let v = rack@;
                    assert(crate::rack::module_ok(v.modules[self.tag as int], self.tag as int, v.controls[self.tag as int], v.state[self.tag as int].len() as int));
                }
                rack.trigger(e, true)
            },
            None => Err(RackError::NoSuchControl),
        }
    }

    /// Releases: ends the note on the string's envelope.
    pub fn off(&self, rack: &mut Rack) -> (r: Result<(), RackError>)
        requires
            old(rack).wf(),
        ensures
            final(rack).wf(),
            r is Ok <==> self.tag < old(rack)@.len() && old(rack)@.modules[self.tag as int] is WaveGuide
                && old(rack)@.modules[old(rack)@.modules[self.tag as int]->envelope as int] is Adsr,
            r is Ok ==> final(rack)@ == retriggered(old(rack)@, old(rack)@.modules[self.tag as int]->envelope as int, false),
            r is Err ==> final(rack)@ == old(rack)@,
    {
        match rack.envelope_of(self.tag) {
            Some(e) => {
                proof {
                    let v = rack@;
                    assert(crate::rack::module_ok(v.modules[self.tag as int], self.tag as int, v.controls[self.tag as int], v.state[self.tag as int].len() as int));
                }
                rack.trigger(e, false)
            },
            None => Err(RackError::NoSuchControl),
        }
    }

}

/// The default pitch of a string, 440 Hz, raw.
pub const DEFAULT_HZ: i64 = 440 * ONE;

/// The default damping cutoff of a string, 2 kHz, raw.
pub const DEFAULT_STRING_CUTOFF: i64 = 2000 * ONE;

/// The default feedback of a string, 0.95, raw.
pub const DEFAULT_DECAY: i64 = 4080218931;

/// The attack and release of a string's pluck, 0.001 s, raw.
pub const PLUCK_TIME: i64 = 4294967;

/// Configuration of a Karplus-Strong string before it joins a rack.
pub struct WaveGuideBuilder {
    pub burst: Tag,
    pub hz: In,
    pub cutoff: In,
    pub decay: In,
    pub buffer: RingBuffer,
}

impl WaveGuideBuilder {
    /// A string at 440 Hz, cutoff 2 kHz, feedback 0.95.
    pub fn new(burst: Tag, buffer: RingBuffer) -> (r: Self)
        ensures
            r.burst == burst,
            r.hz == In::Fixed(DEFAULT_HZ),
            r.cutoff == In::Fixed(DEFAULT_STRING_CUTOFF),
            r.decay == In::Fixed(DEFAULT_DECAY),
            r.buffer@ == buffer@,
    {
        WaveGuideBuilder {
            burst,
            hz: In::Fixed(DEFAULT_HZ),
            cutoff: In::Fixed(DEFAULT_STRING_CUTOFF),
            decay: In::Fixed(DEFAULT_DECAY),
            buffer,
        }
    }

    pub fn hz(self, hz: In) -> (r: Self)
        ensures
            r.hz == hz,
            r.burst == self.burst,
            r.cutoff == self.cutoff,
            r.decay == self.decay,
            r.buffer@ == self.buffer@,
    {
        WaveGuideBuilder { hz, ..self }
    }

    pub fn cutoff(self, cutoff: In) -> (r: Self)
        ensures
            r.cutoff == cutoff,
            r.burst == self.burst,
            r.hz == self.hz,
            r.decay == self.decay,
            r.buffer@ == self.buffer@,
    {
        WaveGuideBuilder { cutoff, ..self }
    }

    pub fn decay(self, decay: In) -> (r: Self)
        ensures
            r.decay == decay,
            r.burst == self.burst,
            r.hz == self.hz,
            r.cutoff == self.cutoff,
            r.buffer@ == self.buffer@,
    {
        WaveGuideBuilder { decay, ..self }
    }

    /// Appends the string's pluck envelope (an `exp_20` envelope with a
    /// 0.001 s attack and release, no decay or sustain), then the string
    /// itself. Refused, with the rack left as it was, unless `burst` exists
    /// and each control is constant or refers to an existing module.
    pub fn rack(self, rack: &mut Rack) -> (r: Result<WaveGuide, RackError>)
        requires
            old(rack).wf(),
            self.buffer.wf(),
        ensures
            final(rack).wf(),
            ({
                let n = old(rack)@.len();
                let ok = self.burst < n && valid_in(self.hz, n) && valid_in(self.cutoff, n)
                    && valid_in(self.decay, n) && n + 1 < usize::MAX;
                &&& r is Ok <==> ok
                &&& r matches Ok(h) ==> h.tag == n + 1 && h.burst == self.burst && final(rack)@ == old(rack)@.appended(
                    Module::Adsr { shape: shape_of(EXP_20 as int, EXP_20 as int, EXP_20 as int) },
                    seq![In::Fixed(PLUCK_TIME), In::Fixed(0), In::Fixed(0), In::Fixed(PLUCK_TIME)],
                    seq![0i64, 0i64, 0i64, 0i64, 0i64, 0i64],
                    silent(),
                ).appended(
                    Module::WaveGuide { burst: self.burst, envelope: n as usize },
                    seq![self.hz, self.cutoff, self.decay],
                    seq![0i64, 0i64, 0i64, 0i64, 0i64],
                    self.buffer@,
                )
                &&& r is Err ==> final(rack)@ == old(rack)@
            }),
    {
        let n = rack.num_modules();
        let ok = match self.hz { In::Fixed(_) => true, In::Reference(u, s) => u < n && s == 0 }
            && match self.cutoff { In::Fixed(_) => true, In::Reference(u, s) => u < n && s == 0 }
            && match self.decay { In::Fixed(_) => true, In::Reference(u, s) => u < n && s == 0 };
        if self.burst >= n || !ok || n >= usize::MAX - 1 {
            return Err(RackError::InvalidModule);
        }
        let shape = Shape { attack: fx_sub(ONE, EXP_20), decay: fx_sub(ONE, EXP_20), release: fx_sub(ONE, EXP_20) };
        let controls = vec![In::Fixed(PLUCK_TIME), In::Fixed(0), In::Fixed(0), In::Fixed(PLUCK_TIME)];
        assert(controls@ =~= seq![In::Fixed(PLUCK_TIME), In::Fixed(0), In::Fixed(0), In::Fixed(PLUCK_TIME)]);
        let st = vec![0i64, 0i64, 0i64, 0i64, 0i64, 0i64];
        assert(st@ =~= seq![0i64, 0i64, 0i64, 0i64, 0i64, 0i64]);
        let b = RingBuffer::new(1);
        assert(b@ == silent());
        let envelope = match rack.add_module(Module::Adsr { shape }, controls, st, b) {
            Ok(t) => t,
            Err(e) => {
                return Err(e);
            },
        };
        let controls = vec![self.hz, self.cutoff, self.decay];
        assert(controls@ =~= seq![self.hz, self.cutoff, self.decay]);
        let st = vec![0i64, 0i64, 0i64, 0i64, 0i64];
        assert(st@ =~= seq![0i64, 0i64, 0i64, 0i64, 0i64]);
        match rack.add_module(Module::WaveGuide { burst: self.burst, envelope }, controls, st, self.buffer) {
            Ok(t) => Ok(WaveGuide { tag: t, burst: self.burst }),
            Err(e) => Err(e),
        }
    }
}

/// Whether `c` can be resolved against a rack of `n` modules.
pub open spec fn resolvable(c: In, n: int) -> bool {
    c matches In::Reference(u, _s) ==> u < n
}

/// A blend of two module outputs: `alpha == 0` gives all of `wave1`,
/// `alpha == ONE` all of `wave2`, as a cross fade does.
#[derive(Clone, Copy, Debug, PartialEq, Eq, Structural)]
pub struct Lerp {
    pub wave1: Tag,
    pub wave2: Tag,
    pub alpha: In,
}

impl Lerp {
    /// An even blend.
    pub fn new(wave1: Tag, wave2: Tag) -> (r: Self)
        ensures
            r == (Lerp { wave1, wave2, alpha: In::Fixed(HALF) }),
    {
        Lerp { wave1, wave2, alpha: In::Fixed(HALF) }
    }

    pub fn alpha(&mut self, alpha: In)
        ensures
            *final(self) == (Lerp { alpha, ..*old(self) }),
    {
        self.alpha = alpha;
    }

    pub open spec fn ready(&self, rack: &Rack) -> bool {
        self.wave1 < rack@.len() && self.wave2 < rack@.len() && resolvable(self.alpha, rack@.len())
    }

    /// `alpha * wave2 + (1 - alpha) * wave1`.
    pub fn signal(&self, rack: &Rack) -> (r: Real)
        requires
            rack.wf(),
            self.ready(rack),
        ensures
            r == cross_fade_spec(
                rack@.outputs[self.wave1 as int] as int,
                rack@.outputs[self.wave2 as int] as int,
                val(rack@.outputs, self.alpha),
            ),
    {
        let a = rack.value(self.alpha);
        let w1 = match rack.output(self.wave1) { Some(x) => x, None => 0 };
        let w2 = match rack.output(self.wave2) { Some(x) => x, None => 0 };
        cross_fade(w1, w2, a)
    }
}

/// Three-way blend by one knob: below one half `lerp1` sweeps, above it `lerp2`.
#[derive(Clone, Copy, Debug, PartialEq, Eq, Structural)]
pub struct Lerp3 {
    pub lerp1: Lerp,
    pub lerp2: Lerp,
    pub knob: In,
}

impl Lerp3 {
    pub fn new(lerp1: Lerp, lerp2: Lerp, knob: In) -> (r: Self)
        ensures
            r == (Lerp3 { lerp1, lerp2, knob }),
    {
        Lerp3 { lerp1, lerp2, knob }
    }

    /// Sets the two blends from the knob: at or below one half, `lerp1`
    /// gets twice the knob and `lerp2` zero; above, `lerp1` zero and `lerp2`
    /// twice the excess over one half.
    pub fn set_alphas(&mut self, rack: &Rack)
        requires
            rack.wf(),
            resolvable(old(self).knob, rack@.len()),
        ensures
            ({
                let k = val(rack@.outputs, old(self).knob);
                &&& final(self).knob == old(self).knob
                &&& final(self).lerp1.wave1 == old(self).lerp1.wave1
                &&& final(self).lerp1.wave2 == old(self).lerp1.wave2
                &&& final(self).lerp2.wave1 == old(self).lerp2.wave1
                &&& final(self).lerp2.wave2 == old(self).lerp2.wave2
                &&& k <= HALF ==> final(self).lerp1.alpha == In::Fixed(add_spec(k, k) as i64)
                    && final(self).lerp2.alpha == In::Fixed(0)
                &&& k > HALF ==> final(self).lerp1.alpha == In::Fixed(0)
                    && final(self).lerp2.alpha == In::Fixed(add_spec(sub_spec(k, HALF as int), sub_spec(k, HALF as int)) as i64)
            }),
    {
        let k = rack.value(self.knob);
        if k <= HALF {
            self.lerp1.alpha = In::Fixed(fx_add(k, k));
            self.lerp2.alpha = In::Fixed(0);
        } else {
            self.lerp1.alpha = In::Fixed(0);
            let e = fx_sub(k, HALF);
            self.lerp2.alpha = In::Fixed(fx_add(e, e));
        }
    }

    /// Sets the blends, then plays the one the knob selects.
    pub fn signal(&mut self, rack: &Rack) -> (r: Real)
        requires
            rack.wf(),
            resolvable(old(self).knob, rack@.len()),
            old(self).lerp1.ready(rack),
            old(self).lerp2.ready(rack),
        ensures
            ({
                let k = val(rack@.outputs, old(self).knob);
                &&& k <= HALF ==> r == cross_fade_spec(
                    rack@.outputs[old(self).lerp1.wave1 as int] as int,
                    rack@.outputs[old(self).lerp1.wave2 as int] as int,
                    add_spec(k, k),
                )
                &&& k > HALF ==> r == cross_fade_spec(
                    rack@.outputs[old(self).lerp2.wave1 as int] as int,
                    rack@.outputs[old(self).lerp2.wave2 as int] as int,
                    add_spec(sub_spec(k, HALF as int), sub_spec(k, HALF as int)),
                )
            }),
    {
        self.set_alphas(rack);
        if rack.value(self.knob) <= HALF {
            self.lerp1.signal(rack)
        } else {
            self.lerp2.signal(rack)
        }
    }
}

} // verus!
