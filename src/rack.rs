//! The rack: modules addressed by tag, the four tag-indexed stores the rack
//! owns (controls, outputs, state, buffers), and the per-sample evaluator.
use vstd::prelude::*;
use crate::envelope::{advance, advance_spec, off, off_spec, on, on_spec, Envelope, Shape};
use crate::filters::{biquad_spec, biquad_step, lpf, lpf_spec};
use crate::fixed::{
    add_spec, div_spec, frac_spec, fx_add, fx_div, fx_frac, fx_mul, mul_spec, one, Real, ONE,
};
use crate::operators::{
    cross_fade, cross_fade_spec, mix_acc, modulate, modulate_spec, product_acc, sum_acc, val,
    valid_in, In,
};
use crate::ring::{RingBuffer, RingView, MAX_LEN};
use crate::shaping::{fold_spec, sine_fold, soft_clip, soft_clip_spec, TAU};
use crate::trig::{sin_turns, sine_spec};

verus! {

/// A module's identity: its position in the rack, given once at append time.
pub type Tag = usize;

/// `1 / sqrt(2)`, the resonance of the filters inside composite modules.
pub const DEFAULT_Q: i64 = 3037000500;

/// The kinds of module, each with the tags it reads.
///
/// Controls (in the controls store, by slot) and state (in the state store):
/// - `Sine`: controls `[hz, amplitude]`; state `[phase]`, in turns.
/// - `Mixer`: controls `[level of wave 0, .., level of wave n-1, level]`.
/// - `Product`, `Sum`: no controls.
/// - `Union`: controls `[level]`; plays `active`.
/// - `Vca`, `SineFold`: controls `[level]` or `[fold]`.
/// - `CrossFade`: controls `[wave1, wave2, alpha]`.
/// - `Modulator`: controls `[base_hz, mod_hz, mod_idx]`.
/// - `Lpf`: controls `[cutoff, q]`; state `[x1, x2, y1, y2]`.
/// - `Delay`: controls `[delay_time]` in seconds; its ring buffer.
/// - `Adsr`: controls `[attack, decay, sustain, release]`; state
///   `[clock, sustain_time, triggered, level, released_at, release_from]`.
/// - `WaveGuide`: excited by `burst` shaped by the envelope at `envelope`;
///   controls `[hz, cutoff, decay]`; state `[x1, x2, y1, y2, feedback]`,
///   feedback being the filter output of the previous sample; its ring
///   buffer.
#[derive(Clone, Debug)]
pub enum Module {
    Sine,
    Mixer { waves: Vec<Tag> },
    Product { waves: Vec<Tag> },
    Sum { waves: Vec<Tag> },
    Union { waves: Vec<Tag>, active: Tag },
    Vca { wave: Tag },
    CrossFade,
    Modulator { wave: Tag },
    SineFold { wave: Tag },
    Tanh { wave: Tag },
    Lpf { wave: Tag },
    Delay { wave: Tag },
    Adsr { shape: Shape },
    WaveGuide { burst: Tag, envelope: Tag },
}

/// Why the rack refused a request.
#[derive(Clone, Copy, Debug, PartialEq, Eq, Structural)]
pub enum RackError {
    /// The module reads a tag not created before it, or has the wrong
    /// number of controls or state slots for its kind.
    InvalidModule,
    /// No such tag or control slot.
    NoSuchControl,
    /// The control refers to a module not created before its reader, or to
    /// a slot other than 0.
    InvalidReference,
}

/// The number of controls a module of this kind needs.
pub open spec fn n_controls(m: Module) -> int {
    match m {
        Module::Sine => 2,
        Module::Mixer { waves } => waves@.len() + 1int,
        Module::Product { .. } => 0,
        Module::Sum { .. } => 0,
        Module::Union { .. } => 1,
        Module::Vca { .. } => 1,
        Module::CrossFade => 3,
        Module::Modulator { .. } => 3,
        Module::SineFold { .. } => 1,
        Module::Tanh { .. } => 0,
        Module::Lpf { .. } => 2,
        Module::Delay { .. } => 1,
        Module::Adsr { .. } => 4,
        Module::WaveGuide { .. } => 3,
    }
}

/// The number of state slots a module of this kind needs.
pub open spec fn n_state(m: Module) -> int {
    match m {
        Module::Sine => 1,
        Module::Lpf { .. } => 4,
        Module::Adsr { .. } => 6,
        Module::WaveGuide { .. } => 5,
        _ => 0,
    }
}

/// Every tag in `ws` was created before `t`.
pub open spec fn all_before(ws: Seq<Tag>, t: int) -> bool {
    forall|i: int| 0 <= i < ws.len() ==> #[trigger] ws[i] < t
}

/// Every tag the module reads directly was created before `t`.
pub open spec fn reads_before(m: Module, t: int) -> bool {
    match m {
        Module::Sine => true,
        Module::Mixer { waves } => all_before(waves@, t),
        Module::Product { waves } => all_before(waves@, t),
        Module::Sum { waves } => all_before(waves@, t),
        Module::Union { waves, active } => all_before(waves@, t) && active < t,
        Module::Vca { wave } => wave < t,
        Module::CrossFade => true,
        Module::Modulator { wave } => wave < t,
        Module::SineFold { wave } => wave < t,
        Module::Tanh { wave } => wave < t,
        Module::Lpf { wave } => wave < t,
        Module::Delay { wave } => wave < t,
        Module::Adsr { .. } => true,
        Module::WaveGuide { burst, envelope } => burst < t && envelope < t,
    }
}

/// A module at tag `t` with these controls and this many state slots may
/// join the rack: it reads only earlier tags, and its stores fit its kind.
pub open spec fn module_ok(m: Module, t: int, controls: Seq<In>, n_st: int) -> bool {
    &&& reads_before(m, t)
    &&& controls.len() == n_controls(m)
    &&& forall|k: int| 0 <= k < controls.len() ==> valid_in(#[trigger] controls[k], t)
    &&& n_st == n_state(m)
}

/// The rack as values: modules and the four stores, by tag.
pub struct RackView {
    pub modules: Seq<Module>,
    pub controls: Seq<Seq<In>>,
    pub outputs: Seq<i64>,
    pub state: Seq<Seq<i64>>,
    pub buffers: Seq<RingView>,
}

impl RackView {
    pub open spec fn len(self) -> int {
        self.modules.len() as int
    }

    /// The stores line up with the modules, every module is well formed at
    /// its tag, and every buffer is well formed.
    pub open spec fn wf(self) -> bool {
        &&& self.controls.len() == self.len()
        &&& self.outputs.len() == self.len()
        &&& self.state.len() == self.len()
        &&& self.buffers.len() == self.len()
        &&& forall|t: int|
            0 <= t < self.len() ==> module_ok(
                #[trigger] self.modules[t],
                t,
                self.controls[t],
                self.state[t].len() as int,
            )
        &&& forall|t: int| 0 <= t < self.len() ==> (#[trigger] self.buffers[t]).wf()
    }

    /// The rack after appending a module with its controls and state, a
    /// silent output and a buffer.
    pub open spec fn appended(self, m: Module, c: Seq<In>, st: Seq<i64>, b: RingView) -> RackView {
        RackView {
            modules: self.modules.push(m),
            controls: self.controls.push(c),
            outputs: self.outputs.push(0),
            state: self.state.push(st),
            buffers: self.buffers.push(b),
        }
    }

    /// Control `k` of module `t`, resolved.
    pub open spec fn ctl(self, t: int, k: int) -> int {
        val(self.outputs, self.controls[t][k])
    }

    /// The output of `t` set to `out`.
    pub open spec fn publish(self, t: int, out: int) -> RackView {
        RackView { outputs: self.outputs.update(t, out as i64), ..self }
    }

    /// The state of `t` set to `st`.
    pub open spec fn with_state(self, t: int, st: Seq<i64>) -> RackView {
        RackView { state: self.state.update(t, st), ..self }
    }

    /// The buffer of `t` set to `b`.
    pub open spec fn with_buffer(self, t: int, b: RingView) -> RackView {
        RackView { buffers: self.buffers.update(t, b), ..self }
    }
}

/// The envelope held in a state row.
pub open spec fn env_of(row: Seq<i64>) -> Envelope {
    Envelope {
        clock: row[0],
        sustain_time: row[1],
        triggered: row[2] != 0,
        level: row[3],
        released_at: row[4],
        release_from: row[5],
    }
}

/// The state row holding an envelope.
pub open spec fn row_of(e: Envelope) -> Seq<i64> {
    seq![e.clock, e.sustain_time, if e.triggered { ONE } else { 0i64 }, e.level, e.released_at, e.release_from]
}

/// The whole number of slots a delay of `d` samples (fixed point) needs:
/// the delay rounded up, plus the cubic read's margin of three.
pub open spec fn delay_room(d: int) -> int {
    (d + one() - 1) / one() + 3
}

/// The length a delay buffer grows to for a delay of `d` samples (fixed
/// point): room for the delay and the cubic read's margin, at most
/// `MAX_LEN`.
pub open spec fn grow_len(d: int, len: int) -> int {
    if d >= 0 && delay_room(d) > len {
        if delay_room(d) > MAX_LEN {
            MAX_LEN as int
        } else {
            delay_room(d)
        }
    } else {
        len
    }
}

/// A delay line's buffer after one sample: grown if need be, `x` written,
/// the read cursor placed `d` samples back.
pub open spec fn delay_line(b: RingView, x: int, d: int) -> RingView {
    b.grown(grow_len(d, b.contents.len() as int)).pushed(x as i64).delayed(d)
}

/// One sample of the module at tag `t`.
pub open spec fn step_spec(v: RackView, t: int, sr: int) -> RackView {
    let outs = v.outputs;
    match v.modules[t] {
        Module::Sine => {
            let phase = v.state[t][0] as int;
            let out = mul_spec(v.ctl(t, 1), sine_spec(phase));
            let next = frac_spec(add_spec(phase, div_spec(v.ctl(t, 0), sr)));
            v.publish(t, out).with_state(t, seq![next as i64])
        },
        Module::Mixer { waves } => {
            let n = waves@.len() as int;
            v.publish(t, mul_spec(mix_acc(outs, waves@, v.controls[t], n), v.ctl(t, n)))
        },
        Module::Product { waves } => v.publish(t, product_acc(outs, waves@, waves@.len() as int)),
        Module::Sum { waves } => v.publish(t, sum_acc(outs, waves@, waves@.len() as int)),
        Module::Union { active, .. } => v.publish(t, mul_spec(v.ctl(t, 0), outs[active as int] as int)),
        Module::Vca { wave } => v.publish(t, mul_spec(outs[wave as int] as int, v.ctl(t, 0))),
        Module::CrossFade => v.publish(t, cross_fade_spec(v.ctl(t, 0), v.ctl(t, 1), v.ctl(t, 2))),
        Module::Modulator { wave } => v.publish(
            t,
            modulate_spec(v.ctl(t, 0), v.ctl(t, 1), v.ctl(t, 2), outs[wave as int] as int),
        ),
        Module::SineFold { wave } => v.publish(t, fold_spec(outs[wave as int] as int, v.ctl(t, 0))),
        Module::Tanh { wave } => v.publish(t, soft_clip_spec(mul_spec(outs[wave as int] as int, TAU as int))),
        Module::Lpf { wave } => {
            let h = v.state[t];
            let x0 = outs[wave as int] as int;
            let y = biquad_spec(lpf_spec(sr, v.ctl(t, 0), v.ctl(t, 1)), x0, h[0] as int, h[1] as int, h[2] as int, h[3] as int);
            v.publish(t, y).with_state(t, seq![x0 as i64, h[0], y as i64, h[2]])
        },
        Module::Delay { wave } => {
            let d = mul_spec(v.ctl(t, 0), sr);
            let b = delay_line(v.buffers[t], outs[wave as int] as int, d);
            v.publish(t, b.cubic_read()).with_buffer(t, b)
        },
        Module::Adsr { shape } => {
            let e = advance_spec(v.ctl(t, 0), v.ctl(t, 1), v.ctl(t, 2), v.ctl(t, 3), shape, env_of(v.state[t]), sr);
            v.publish(t, e.level as int).with_state(t, row_of(e))
        },
        Module::WaveGuide { burst, envelope } => {
            let h = v.state[t];
            let ex = mul_spec(outs[burst as int] as int, outs[envelope as int] as int);
            let mixed = add_spec(ex, mul_spec(v.ctl(t, 2), h[4] as int));
            let hz = if v.ctl(t, 0) > one() { v.ctl(t, 0) } else { one() };
            let d = mul_spec(div_spec(one(), hz), sr);
            let b = delay_line(v.buffers[t], mixed, d);
            let x0 = b.cubic_read();
            let y = biquad_spec(lpf_spec(sr, v.ctl(t, 1), DEFAULT_Q as int), x0, h[0] as int, h[1] as int, h[2] as int, h[3] as int);
            v.publish(t, add_spec(ex, y)).with_state(t, seq![x0 as i64, h[0], y as i64, h[2], y as i64]).with_buffer(t, b)
        },
    }
}

/// The rack after the modules `0..k` have each taken one step, in tag order.
pub open spec fn run_upto(v: RackView, sr: int, k: int) -> RackView
    decreases k,
{
    if k <= 0 {
        v
    } else {
        step_spec(run_upto(v, sr, k - 1), k - 1, sr)
    }
}

/// The modules and the stores that evaluate the graph.
pub struct Rack {
    modules: Vec<Module>,
    controls: Vec<Vec<In>>,
    outputs: Vec<Real>,
    state: Vec<Vec<Real>>,
    buffers: Vec<RingBuffer>,
}

impl View for Rack {
    type V = RackView;

    closed spec fn view(&self) -> RackView {
        RackView {
            modules: self.modules@,
            controls: self.controls@.map_values(|c: Vec<In>| c@),
            outputs: self.outputs@,
            state: self.state@.map_values(|s: Vec<Real>| s@),
            buffers: self.buffers@.map_values(|b: RingBuffer| b@),
        }
    }
}

fn all_before_exec(ws: &Vec<Tag>, t: usize) -> (r: bool)
    ensures
        r == all_before(ws@, t as int),
{
    let mut i: usize = 0;
    while i < ws.len()
        invariant
            i <= ws@.len(),
            forall|j: int| 0 <= j < i ==> #[trigger] ws@[j] < t,
        decreases ws@.len() - i,
    {
        if ws[i] >= t {
            return false;
        }
        i = i + 1;
    }
    true
}

fn controls_valid(c: &Vec<In>, t: usize) -> (r: bool)
    ensures
        r == forall|k: int| 0 <= k < c@.len() ==> valid_in(#[trigger] c@[k], t as int),
{
    let mut i: usize = 0;
    while i < c.len()
        invariant
            i <= c@.len(),
            forall|k: int| 0 <= k < i ==> valid_in(#[trigger] c@[k], t as int),
        decreases c@.len() - i,
    {
        match c[i] {
            In::Fixed(_) => {},
            In::Reference(u, s) => {
                if u >= t || s != 0 {
                    assert(!valid_in(c@[i as int], t as int));
                    return false;
                }
            },
        }
        i = i + 1;
    }
    true
}

/// Whether a module may join the rack at tag `t` with these controls and
/// this many state slots.
pub fn check_module(m: &Module, t: usize, controls: &Vec<In>, n_st: usize) -> (r: bool)
    ensures
        r == module_ok(*m, t as int, controls@, n_st as int),
{
    let cl = controls.len();
    let (reads, nc, ns): (bool, usize, usize) = match m {
        Module::Sine => (true, 2, 1),
        Module::Mixer { waves } => {
            if waves.len() == usize::MAX {
                return false;
            }
            (all_before_exec(waves, t), waves.len() + 1, 0)
        },
        Module::Product { waves } => (all_before_exec(waves, t), 0, 0),
        Module::Sum { waves } => (all_before_exec(waves, t), 0, 0),
        Module::Union { waves, active } => (all_before_exec(waves, t) && *active < t, 1, 0),
        Module::Vca { wave } => (*wave < t, 1, 0),
        Module::CrossFade => (true, 3, 0),
        Module::Modulator { wave } => (*wave < t, 3, 0),
        Module::SineFold { wave } => (*wave < t, 1, 0),
        Module::Tanh { wave } => (*wave < t, 0, 0),
        Module::Lpf { wave } => (*wave < t, 2, 4),
        Module::Delay { wave } => (*wave < t, 1, 0),
        Module::Adsr { .. } => (true, 4, 6),
        Module::WaveGuide { burst, envelope } => (*burst < t && *envelope < t, 3, 5),
    };
    reads && cl == nc && n_st == ns && controls_valid(controls, t)
}

impl Rack {
    pub open spec fn wf(&self) -> bool {
        self@.wf()
    }

    /// An empty rack.
    pub fn new() -> (r: Rack)
        ensures
            r.wf(),
            r@.len() == 0,
    {
        let r = Rack {
            modules: Vec::new(),
            controls: Vec::new(),
            outputs: Vec::new(),
            state: Vec::new(),
            buffers: Vec::new(),
        };
        assert(r@.controls =~= Seq::empty());
        assert(r@.state =~= Seq::empty());
        assert(r@.buffers =~= Seq::empty());
        r
    }

    /// The number of modules, which is also the next tag.
    pub fn num_modules(&self) -> (r: usize)
        requires
            self.wf(),
        ensures
            r == self@.len(),
    {
        self.modules.len()
    }

    /// Appends a module with its controls, state and buffer. The module
    /// gets the next tag, which is returned; a module that reads a tag not
    /// created before it, or whose stores do not fit its kind, is refused
    /// and the rack is left as it was.
    pub fn add_module(&mut self, m: Module, controls: Vec<In>, state: Vec<Real>, buffer: RingBuffer) -> (r: Result<Tag, RackError>)
        requires
            old(self).wf(),
            buffer.wf(),
        ensures
            final(self).wf(),
            module_ok(m, old(self)@.len(), controls@, state@.len() as int) && old(self)@.len() < usize::MAX
                ==> r == Ok::<Tag, RackError>(old(self)@.len() as usize)
                && final(self)@ == old(self)@.appended(m, controls@, state@, buffer@),
            !(module_ok(m, old(self)@.len(), controls@, state@.len() as int) && old(self)@.len() < usize::MAX)
                ==> r == Err::<Tag, RackError>(RackError::InvalidModule) && final(self)@ == old(self)@,
    {
        let t = self.modules.len();
        if t == usize::MAX || !check_module(&m, t, &controls, state.len()) {
            return Err(RackError::InvalidModule);
        }
        let ghost old_v = self@;
        let ghost (gm, gc, gs, gb) = (m, controls@, state@, buffer@);
        self.modules.push(m);
        self.controls.push(controls);
        self.outputs.push(0);
        self.state.push(state);
        self.buffers.push(buffer);
        proof {
            let nv = old_v.appended(gm, gc, gs, gb);
            assert(self@.controls =~= nv.controls);
            assert(self@.state =~= nv.state);
            assert(self@.buffers =~= nv.buffers);
            assert(self@.modules =~= nv.modules);
            assert(self@.outputs =~= nv.outputs);
            assert forall|u: int| 0 <= u < nv.len() implies module_ok(
                #[trigger] nv.modules[u],
                u,
                nv.controls[u],
                nv.state[u].len() as int,
            ) by {
                if u < old_v.len() {
                    assert(module_ok(old_v.modules[u], u, old_v.controls[u], old_v.state[u].len() as int));
                }
            }
            assert forall|u: int| 0 <= u < nv.len() implies (#[trigger] nv.buffers[u]).wf() by {
                if u < old_v.len() {
                    assert(old_v.buffers[u].wf());
                }
            }
        }
        Ok(t)
    }

    /// Sets control `k` of module `t` to `v`. Refused, with the rack left as
    /// it was, when there is no such control or when `v` refers to a module
    /// not created before `t`, or to a slot other than 0.
    pub fn set_control(&mut self, t: Tag, k: usize, v: In) -> (r: Result<(), RackError>)
        requires
            old(self).wf(),
        ensures
            final(self).wf(),
            !(t < old(self)@.len() && k < old(self)@.controls[t as int].len()) ==> r == Err::<(), RackError>(RackError::NoSuchControl) && final(self)@ == old(self)@,
            t < old(self)@.len() && k < old(self)@.controls[t as int].len() && !valid_in(v, t as int)
                ==> r == Err::<(), RackError>(RackError::InvalidReference) && final(self)@ == old(self)@,
            t < old(self)@.len() && k < old(self)@.controls[t as int].len() && valid_in(v, t as int)
                ==> r == Ok::<(), RackError>(()) && final(self)@ == (RackView {
                    controls: old(self)@.controls.update(t as int, old(self)@.controls[t as int].update(k as int, v)),
                    ..old(self)@
                }),
    {
        if t >= self.controls.len() || k >= self.controls[t].len() {
            return Err(RackError::NoSuchControl);
        }
        let ok = match v {
            In::Fixed(_) => true,
            In::Reference(u, s) => u < t && s == 0,
        };
        if !ok {
            return Err(RackError::InvalidReference);
        }
        let ghost old_v = self@;
        self.controls[t].set(k, v);
        proof {
            let nv = RackView {
                controls: old_v.controls.update(t as int, old_v.controls[t as int].update(k as int, v)),
                ..old_v
            };
            assert(self@.controls =~= nv.controls);
            assert(self@ == nv);
            assert forall|u: int| 0 <= u < nv.len() implies module_ok(
                #[trigger] nv.modules[u],
                u,
                nv.controls[u],
                nv.state[u].len() as int,
            ) by {
                assert(module_ok(old_v.modules[u], u, old_v.controls[u], old_v.state[u].len() as int));
                if u == t {
                    assert forall|j: int| 0 <= j < nv.controls[u].len() implies valid_in(#[trigger] nv.controls[u][j], u) by {
                        if j != k {
                            assert(valid_in(old_v.controls[u][j], u));
                        }
                    }
                }
            }
        }
        Ok(())
    }

    /// Control `k` of module `t` as stored, if there is one.
    pub fn control(&self, t: Tag, k: usize) -> (r: Option<In>)
        requires
            self.wf(),
        ensures
            t < self@.len() && k < self@.controls[t as int].len() ==> r == Some(self@.controls[t as int][k as int]),
            !(t < self@.len() && k < self@.controls[t as int].len()) ==> r is None,
    {
        if t >= self.controls.len() || k >= self.controls[t].len() {
            return None;
        }
        Some(self.controls[t][k])
    }

    /// The value of `inp`: a constant is itself, whatever the stores hold; a
    /// reference reads the published output of the module it names.
    pub fn value(&self, inp: In) -> (r: Real)
        requires
            self.wf(),
            inp matches In::Reference(u, _s) ==> u < self@.len(),
        ensures
            r == val(self@.outputs, inp),
            inp matches In::Fixed(x) ==> r == x,
    {
        match inp {
            In::Fixed(x) => x,
            In::Reference(u, _s) => self.outputs[u],
        }
    }

    /// The published output of module `t`, if there is one.
    pub fn output(&self, t: Tag) -> (r: Option<Real>)
        requires
            self.wf(),
        ensures
            t < self@.len() ==> r == Some(self@.outputs[t as int]),
            t >= self@.len() ==> r is None,
    {
        if t < self.outputs.len() {
            Some(self.outputs[t])
        } else {
            None
        }
    }

    /// Slot `k` of the state of module `t`, if there is one.
    pub fn state_slot(&self, t: Tag, k: usize) -> (r: Option<Real>)
        requires
            self.wf(),
        ensures
            t < self@.len() && k < self@.state[t as int].len() ==> r == Some(self@.state[t as int][k as int]),
            !(t < self@.len() && k < self@.state[t as int].len()) ==> r is None,
    {
        if t >= self.state.len() || k >= self.state[t].len() {
            return None;
        }
        Some(self.state[t][k])
    }
}

impl Rack {
    fn set_output(&mut self, t: usize, x: Real)
        requires
            old(self).wf(),
            t < old(self)@.len(),
        ensures
            final(self)@ == old(self)@.publish(t as int, x as int),
            final(self).wf(),
    {
        let ghost v = self@;
        self.outputs.set(t, x);
        proof {
            assert(self@.outputs =~= v.publish(t as int, x as int).outputs);
            assert(self@ == v.publish(t as int, x as int));
            assert forall|u: int| 0 <= u < v.len() implies module_ok(
                #[trigger] self@.modules[u],
                u,
                self@.controls[u],
                self@.state[u].len() as int,
            ) by {
                assert(module_ok(v.modules[u], u, v.controls[u], v.state[u].len() as int));
            }
            assert forall|u: int| 0 <= u < v.len() implies (#[trigger] self@.buffers[u]).wf() by {
                assert(v.buffers[u].wf());
            }
        }
    }

    fn set_state(&mut self, t: usize, k: usize, x: Real)
        requires
            old(self).wf(),
            t < old(self)@.len(),
            k < old(self)@.state[t as int].len(),
        ensures
            final(self)@ == old(self)@.with_state(t as int, old(self)@.state[t as int].update(k as int, x)),
            final(self).wf(),
    {
        let ghost v = self@;
        self.state[t].set(k, x);
        proof {
            let nv = v.with_state(t as int, v.state[t as int].update(k as int, x));
            assert(self@.state =~= nv.state);
            assert(self@ == nv);
            assert forall|u: int| 0 <= u < v.len() implies module_ok(
                #[trigger] self@.modules[u],
                u,
                self@.controls[u],
                self@.state[u].len() as int,
            ) by {
                assert(module_ok(v.modules[u], u, v.controls[u], v.state[u].len() as int));
            }
            assert forall|u: int| 0 <= u < v.len() implies (#[trigger] self@.buffers[u]).wf() by {
                assert(v.buffers[u].wf());
            }
        }
    }

    /// Control `k` of module `t`, resolved.
    fn ctl(&self, t: usize, k: usize) -> (r: Real)
        requires
            self.wf(),
            t < self@.len(),
            k < self@.controls[t as int].len(),
        ensures
            r == self@.ctl(t as int, k as int),
    {
        proof {
            let v = self@;
            assert(module_ok(v.modules[t as int], t as int, v.controls[t as int], v.state[t as int].len() as int));
            assert(valid_in(v.controls[t as int][k as int], t as int));
        }
        match self.controls[t][k] {
            In::Fixed(x) => x,
            In::Reference(u, _s) => self.outputs[u],
        }
    }

    fn run_delay_line(&mut self, t: usize, x: Real, d: Real) -> (r: Real)
        requires
            old(self).wf(),
            t < old(self)@.len(),
        ensures
            final(self)@ == old(self)@.with_buffer(t as int, delay_line(old(self)@.buffers[t as int], x as int, d as int)),
            r == delay_line(old(self)@.buffers[t as int], x as int, d as int).cubic_read(),
            final(self).wf(),
    {
        let ghost v = self@;
        proof {
            assert(v.buffers[t as int].wf());
        }
        let len = self.buffers[t].len();
        let need: i128 = (d as i128 + ONE as i128 - 1) / ONE as i128 + 3;
        if d >= 0 && need > len as i128 {
            let want: i128 = if need > MAX_LEN as i128 { MAX_LEN as i128 } else { need };
            self.buffers[t].resize(want as usize);
        }
        self.buffers[t].push(x);
        self.buffers[t].set_delay(d);
        let r = self.buffers[t].get_cubic();
        proof {
            let b = delay_line(v.buffers[t as int], x as int, d as int);
            let nv = v.with_buffer(t as int, b);
            assert(self@.buffers =~= nv.buffers);
            assert(self@ == nv);
            assert forall|u: int| 0 <= u < v.len() implies module_ok(
                #[trigger] self@.modules[u],
                u,
                self@.controls[u],
                self@.state[u].len() as int,
            ) by {
                assert(module_ok(v.modules[u], u, v.controls[u], v.state[u].len() as int));
            }
            assert forall|u: int| 0 <= u < v.len() implies (#[trigger] self@.buffers[u]).wf() by {
                assert(v.buffers[u].wf());
            }
        }
        r
    }
}

impl Rack {
    proof fn lemma_module_ok(&self, t: int)
        requires
            self.wf(),
            0 <= t < self@.len(),
        ensures
            module_ok(self@.modules[t], t, self@.controls[t], self@.state[t].len() as int),
            self@.buffers[t].wf(),
    {
    }

    fn mix_value(&self, t: usize, waves: &Vec<Tag>) -> (r: Real)
        requires
            self.wf(),
            t < self@.len(),
            self@.modules[t as int] == (Module::Mixer { waves: *waves }),
        ensures
            r == mul_spec(mix_acc(self@.outputs, waves@, self@.controls[t as int], waves@.len() as int), self@.ctl(t as int, waves@.len() as int)),
    {
        proof { self.lemma_module_ok(t as int); }
        let mut acc: Real = 0;
        let mut i: usize = 0;
        while i < waves.len()
            invariant
                self.wf(),
                t < self@.len(),
                i <= waves@.len(),
                self@.controls[t as int].len() == waves@.len() + 1,
                all_before(waves@, t as int),
                acc == mix_acc(self@.outputs, waves@, self@.controls[t as int], i as int),
            decreases waves@.len() - i,
        {
            let w = waves[i];
            assert(w < t);
            acc = fx_add(acc, fx_mul(self.outputs[w], self.ctl(t, i)));
            i = i + 1;
        }
        fx_mul(acc, self.ctl(t, waves.len()))
    }

    /// The product of the outputs of `waves`.
    pub fn product_of(&self, waves: &Vec<Tag>) -> (r: Real)
        requires
            self.wf(),
            all_before(waves@, self@.len()),
        ensures
            r == product_acc(self@.outputs, waves@, waves@.len() as int),
    {
        let mut acc: Real = ONE;
        let mut i: usize = 0;
        while i < waves.len()
            invariant
                self.wf(),
                i <= waves@.len(),
                all_before(waves@, self@.len()),
                acc == product_acc(self@.outputs, waves@, i as int),
            decreases waves@.len() - i,
        {
            let w = waves[i];
            acc = fx_mul(acc, self.outputs[w]);
            i = i + 1;
        }
        acc
    }

    /// The sum of the outputs of `waves`.
    pub fn sum_of(&self, waves: &Vec<Tag>) -> (r: Real)
        requires
            self.wf(),
            all_before(waves@, self@.len()),
        ensures
            r == sum_acc(self@.outputs, waves@, waves@.len() as int),
    {
        let mut acc: Real = 0;
        let mut i: usize = 0;
        while i < waves.len()
            invariant
                self.wf(),
                i <= waves@.len(),
                all_before(waves@, self@.len()),
                acc == sum_acc(self@.outputs, waves@, i as int),
            decreases waves@.len() - i,
        {
            let w = waves[i];
            acc = fx_add(acc, self.outputs[w]);
            i = i + 1;
        }
        acc
    }

    /// The envelope held by module `t`.
    fn envelope_at(&self, t: usize) -> (r: Envelope)
        requires
            self.wf(),
            t < self@.len(),
            self@.state[t as int].len() == 6,
        ensures
            r == env_of(self@.state[t as int]),
    {
        Envelope {
            clock: self.state[t][0],
            sustain_time: self.state[t][1],
            triggered: self.state[t][2] != 0,
            level: self.state[t][3],
            released_at: self.state[t][4],
            release_from: self.state[t][5],
        }
    }

    /// Stores an envelope in the state of module `t`.
    fn store_envelope(&mut self, t: usize, e: Envelope)
        requires
            old(self).wf(),
            t < old(self)@.len(),
            old(self)@.state[t as int].len() == 6,
        ensures
            final(self)@ == old(self)@.with_state(t as int, row_of(e)),
            final(self).wf(),
    {
        let ghost v = self@;
        self.set_state(t, 0, e.clock);
        self.set_state(t, 1, e.sustain_time);
        self.set_state(t, 2, if e.triggered { ONE } else { 0 });
        self.set_state(t, 3, e.level);
        self.set_state(t, 4, e.released_at);
        self.set_state(t, 5, e.release_from);
        proof {
            assert(self@.state[t as int] =~= row_of(e));
            assert(self@.state =~= v.with_state(t as int, row_of(e)).state);
        }
    }

    /// One sample of module `t`.
    fn step(&mut self, t: usize, sr: Real)
        requires
            old(self).wf(),
            t < old(self)@.len(),
        ensures
            final(self)@ == step_spec(old(self)@, t as int, sr as int),
            final(self).wf(),
    {
        let ghost v = self@;
        proof { self.lemma_module_ok(t as int); }
        match &self.modules[t] {
            Module::Sine => {
                let phase = self.state[t][0];
                let out = fx_mul(self.ctl(t, 1), sin_turns(phase));
                let next = fx_frac(fx_add(phase, fx_div(self.ctl(t, 0), sr)));
                self.set_output(t, out);
                self.set_state(t, 0, next);
                proof {
                    assert(self@.state[t as int] =~= seq![next]);
                    assert(self@.state =~= step_spec(v, t as int, sr as int).state);
                }
            },
            Module::Mixer { waves } => {
                let out = self.mix_value(t, waves);
                self.set_output(t, out);
            },
            Module::Product { waves } => {
                assert(all_before(waves@, self@.len()));
                let out = self.product_of(waves);
                self.set_output(t, out);
            },
            Module::Sum { waves } => {
                assert(all_before(waves@, self@.len()));
                let out = self.sum_of(waves);
                self.set_output(t, out);
            },
            Module::Union { active, .. } => {
                let a = *active;
                let out = fx_mul(self.ctl(t, 0), self.outputs[a]);
                self.set_output(t, out);
            },
            Module::Vca { wave } => {
                let w = *wave;
                let out = fx_mul(self.outputs[w], self.ctl(t, 0));
                self.set_output(t, out);
            },
            Module::CrossFade => {
                let out = cross_fade(self.ctl(t, 0), self.ctl(t, 1), self.ctl(t, 2));
                self.set_output(t, out);
            },
            Module::Modulator { wave } => {
                let w = *wave;
                let out = modulate(self.ctl(t, 0), self.ctl(t, 1), self.ctl(t, 2), self.outputs[w]);
                self.set_output(t, out);
            },
            Module::SineFold { wave } => {
                let w = *wave;
                let out = sine_fold(self.outputs[w], self.ctl(t, 0));
                self.set_output(t, out);
            },
            Module::Tanh { wave } => {
                let w = *wave;
                let out = soft_clip(fx_mul(self.outputs[w], TAU));
                self.set_output(t, out);
            },
            Module::Lpf { wave } => {
                let w = *wave;
                let x0 = self.outputs[w];
                let c = lpf(sr, self.ctl(t, 0), self.ctl(t, 1));
                let x1 = self.state[t][0];
                let x2 = self.state[t][1];
                let y1 = self.state[t][2];
                let y2 = self.state[t][3];
                let y = biquad_step(c, x0, x1, x2, y1, y2);
                self.set_output(t, y);
                self.set_state(t, 0, x0);
                self.set_state(t, 1, x1);
                self.set_state(t, 2, y);
                self.set_state(t, 3, y1);
                proof {
                    assert(self@.state[t as int] =~= seq![x0, x1, y, y1]);
                    assert(self@.state =~= step_spec(v, t as int, sr as int).state);
                }
            },
            Module::Delay { wave } => {
                let w = *wave;
                let x = self.outputs[w];
                let d = fx_mul(self.ctl(t, 0), sr);
                let out = self.run_delay_line(t, x, d);
                self.set_output(t, out);
                proof {
                    assert(self@.buffers =~= step_spec(v, t as int, sr as int).buffers);
                }
            },
            Module::Adsr { shape } => {
                let sh = *shape;
                let e = advance(self.ctl(t, 0), self.ctl(t, 1), self.ctl(t, 2), self.ctl(t, 3), sh, self.envelope_at(t), sr);
                self.set_output(t, e.level);
                self.store_envelope(t, e);
            },
            Module::WaveGuide { burst, envelope } => {
                let (bt, et) = (*burst, *envelope);
                let ex = fx_mul(self.outputs[bt], self.outputs[et]);
                let fb = self.state[t][4];
                let mixed = fx_add(ex, fx_mul(self.ctl(t, 2), fb));
                let hz0 = self.ctl(t, 0);
                let hz = if hz0 > ONE { hz0 } else { ONE };
                let d = fx_mul(fx_div(ONE, hz), sr);
                let cutoff = self.ctl(t, 1);
                let x0 = self.run_delay_line(t, mixed, d);
                let c = lpf(sr, cutoff, DEFAULT_Q);
                let x1 = self.state[t][0];
                let x2 = self.state[t][1];
                let y1 = self.state[t][2];
                let y2 = self.state[t][3];
                let y = biquad_step(c, x0, x1, x2, y1, y2);
                self.set_output(t, fx_add(ex, y));
                self.set_state(t, 0, x0);
                self.set_state(t, 1, x1);
                self.set_state(t, 2, y);
                self.set_state(t, 3, y1);
                self.set_state(t, 4, y);
                proof {
                    assert(self@.state[t as int] =~= seq![x0, x1, y, y1, y]);
                    assert(self@.state =~= step_spec(v, t as int, sr as int).state);
                    assert(self@.buffers =~= step_spec(v, t as int, sr as int).buffers);
                }
            },
        }
    }

    /// Evaluates one sample: every module steps once, in ascending tag
    /// order, so each reads the outputs its earlier producers published in
    /// this same sample. Returns the last module's output.
    pub fn play(&mut self, sample_rate: Real) -> (r: Real)
        requires
            old(self).wf(),
            old(self)@.len() > 0,
        ensures
            final(self).wf(),
            final(self)@ == run_upto(old(self)@, sample_rate as int, old(self)@.len()),
            r == final(self)@.outputs[old(self)@.len() - 1],
    {
        let n = self.modules.len();
        let mut t: usize = 0;
        while t < n
            invariant
                self.wf(),
                n == old(self)@.len(),
                t <= n,
                self@ == run_upto(old(self)@, sample_rate as int, t as int),
                self@.modules == old(self)@.modules,
            decreases n - t,
        {
            self.step(t, sample_rate);
            t = t + 1;
        }
        self.outputs[n - 1]
    }
}

/// Module `t`'s envelope after a note starts (`open`) or ends.
pub open spec fn retriggered(v: RackView, t: int, open: bool) -> RackView {
    match v.modules[t] {
        Module::Adsr { shape } => {
            let e = env_of(v.state[t]);
            let e2 = if open { on_spec(v.ctl(t, 0), shape, e) } else { off_spec(v.ctl(t, 0), v.ctl(t, 1), e) };
            v.with_state(t, row_of(e2))
        },
        _ => v,
    }
}

impl Rack {
    /// Control `k` of module `t`, resolved, if there is one.
    pub fn control_value(&self, t: Tag, k: usize) -> (r: Option<Real>)
        requires
            self.wf(),
        ensures
            t < self@.len() && k < self@.controls[t as int].len() ==> r == Some(self@.ctl(t as int, k as int) as i64),
            !(t < self@.len() && k < self@.controls[t as int].len()) ==> r is None,
    {
        if t >= self.controls.len() || k >= self.controls[t].len() {
            return None;
        }
        Some(self.ctl(t, k))
    }

    /// Starts (`open`) or ends a note on the envelope at tag `t`. Starting
    /// restarts the attack from the current level; closing starts the
    /// release from where the clock stands. Refused, with the rack left as
    /// it was, when `t` is not an envelope.
    pub fn trigger(&mut self, t: Tag, open: bool) -> (r: Result<(), RackError>)
        requires
            old(self).wf(),
        ensures
            final(self).wf(),
            t < old(self)@.len() && old(self)@.modules[t as int] is Adsr ==> r is Ok && final(self)@ == retriggered(old(self)@, t as int, open),
            !(t < old(self)@.len() && old(self)@.modules[t as int] is Adsr) ==> r == Err::<(), RackError>(RackError::NoSuchControl) && final(self)@ == old(self)@,
    {
        if t >= self.modules.len() {
            return Err(RackError::NoSuchControl);
        }
        proof { self.lemma_module_ok(t as int); }
        let sh = match &self.modules[t] {
            Module::Adsr { shape } => *shape,
            _ => {
                return Err(RackError::NoSuchControl);
            },
        };
        let e = self.envelope_at(t);
        let e2 = if open {
            on(self.ctl(t, 0), sh, e)
        } else {
            off(self.ctl(t, 0), self.ctl(t, 1), e)
        };
        self.store_envelope(t, e2);
        Ok(())
    }
}

impl Rack {
    /// The envelope that shapes the wave guide at tag `t`, if `t` is one.
    pub fn envelope_of(&self, t: Tag) -> (r: Option<Tag>)
        requires
            self.wf(),
        ensures
            t < self@.len() && self@.modules[t as int] is WaveGuide ==> r == Some(self@.modules[t as int]->envelope),
            !(t < self@.len() && self@.modules[t as int] is WaveGuide) ==> r is None,
    {
        if t >= self.modules.len() {
            return None;
        }
        match &self.modules[t] {
            Module::WaveGuide { envelope, .. } => Some(*envelope),
            _ => None,
        }
    }
}

/// What one append hands the rack: the module, its controls, state and buffer.
pub type Entry = (Module, Seq<In>, Seq<i64>, RingView);

/// The empty rack.
pub open spec fn empty_rack() -> RackView {
    RackView {
        modules: Seq::empty(),
        controls: Seq::empty(),
        outputs: Seq::empty(),
        state: Seq::empty(),
        buffers: Seq::empty(),
    }
}

/// The rack built by appending `items` in order to an empty rack.
pub open spec fn built(items: Seq<Entry>) -> RackView
    decreases items.len(),
{
    if items.len() == 0 {
        empty_rack()
    } else {
        let e = items.last();
        built(items.drop_last()).appended(e.0, e.1, e.2, e.3)
    }
}

/// Tags are handed out as `0, 1, 2, ...` in append order, with no gap and
/// no reuse: an append receives the number of modules before it (what
/// `add_module` returns), so the `i`-th append of a rack built from empty
/// gets tag `i`, and the module at tag `i` is the one appended `i`-th.
pub proof fn lemma_tags_sequential(items: Seq<Entry>, i: int)
    requires
        0 <= i < items.len(),
    ensures
        built(items.take(i)).len() == i,
        built(items).len() == items.len(),
        built(items).modules[i] == items[i].0,
    decreases items.len(),
{
    lemma_built_len(items.take(i));
    lemma_built_len(items);
    if i < items.len() - 1 {
        lemma_tags_sequential(items.drop_last(), i);
        assert(items.drop_last().take(i) =~= items.take(i));
        assert(items.drop_last()[i] == items[i]);
    }
}

proof fn lemma_built_len(items: Seq<Entry>)
    ensures
        built(items).len() == items.len(),
        built(items).modules.len() == built(items).controls.len(),
    decreases items.len(),
{
    if items.len() > 0 {
        lemma_built_len(items.drop_last());
    }
}

/// A mixer of one wave at unit levels passes that wave through unchanged:
/// its output after its step equals the wave's output.
pub proof fn lemma_unity_mixer(v: RackView, t: int, sr: int)
    requires
        0 <= t < v.len(),
        t < v.outputs.len(),
        v.modules[t] matches Module::Mixer { waves } && waves@.len() == 1,
        v.controls[t] == seq![In::Fixed(ONE), In::Fixed(ONE)],
    ensures
        ({
            let w = v.modules[t]->Mixer_waves@[0];
            step_spec(v, t, sr).outputs[t] == v.outputs[w as int]
        }),
{
    let waves = v.modules[t]->Mixer_waves@;
    let x = v.outputs[waves[0] as int] as int;
    assert(x * one() / one() == x) by {
        vstd::arithmetic::div_mod::lemma_div_multiples_vanish(x, one());
        assert(one() * x == x * one());
    }
    assert(mix_acc(v.outputs, waves, v.controls[t], 0) == 0);
    assert(mix_acc(v.outputs, waves, v.controls[t], 1) == x);
    assert(v.ctl(t, 1) == one());
}

impl Rack {
    /// Whether module `t` is an envelope.
    pub fn is_envelope(&self, t: Tag) -> (r: bool)
        requires
            self.wf(),
            t < self@.len(),
        ensures
            r == self@.modules[t as int] is Adsr,
    {
        match &self.modules[t] {
            Module::Adsr { .. } => true,
            _ => false,
        }
    }
}

impl Rack {
    /// Sets state slot `k` of module `t` to `x`; refused, with the rack left
    /// as it was, when there is no such slot.
    pub fn set_state_slot(&mut self, t: Tag, k: usize, x: Real) -> (r: Result<(), RackError>)
        requires
            old(self).wf(),
        ensures
            final(self).wf(),
            r is Ok <==> t < old(self)@.len() && k < old(self)@.state[t as int].len(),
            r is Ok ==> final(self)@ == old(self)@.with_state(t as int, old(self)@.state[t as int].update(k as int, x)),
            r is Err ==> r == Err::<(), RackError>(RackError::NoSuchControl) && final(self)@ == old(self)@,
    {
        if t >= self.state.len() || k >= self.state[t].len() {
            return Err(RackError::NoSuchControl);
        }
        self.set_state(t, k, x);
        Ok(())
    }
}

/// The module `m` reading `w` in place of its one wave, if it has one.
pub open spec fn with_wave(m: Module, w: Tag) -> Option<Module> {
    match m {
        Module::Vca { .. } => Some(Module::Vca { wave: w }),
        Module::Modulator { .. } => Some(Module::Modulator { wave: w }),
        Module::SineFold { .. } => Some(Module::SineFold { wave: w }),
        Module::Tanh { .. } => Some(Module::Tanh { wave: w }),
        Module::Lpf { .. } => Some(Module::Lpf { wave: w }),
        Module::Delay { .. } => Some(Module::Delay { wave: w }),
        _ => None,
    }
}

impl Rack {
    fn replace_module(&mut self, t: Tag, m: Module)
        requires
            old(self).wf(),
            t < old(self)@.len(),
            module_ok(m, t as int, old(self)@.controls[t as int], old(self)@.state[t as int].len() as int),
        ensures
            final(self).wf(),
            final(self)@ == (RackView { modules: old(self)@.modules.update(t as int, m), ..old(self)@ }),
    {
        let ghost v = self@;
        let ghost gm = m;
        self.modules.set(t, m);
        proof {
            let nv = RackView { modules: v.modules.update(t as int, gm), ..v };
            assert(self@.modules =~= nv.modules);
            assert forall|u: int| 0 <= u < nv.len() implies module_ok(
                #[trigger] nv.modules[u],
                u,
                nv.controls[u],
                nv.state[u].len() as int,
            ) by {
                if u != t {
                    assert(module_ok(v.modules[u], u, v.controls[u], v.state[u].len() as int));
                }
            }
            assert forall|u: int| 0 <= u < nv.len() implies (#[trigger] nv.buffers[u]).wf() by {
                assert(v.buffers[u].wf());
            }
        }
    }

    /// Points the module at tag `t`, one that reads a single wave, at the
    /// wave `w` instead. Refused, with the rack left as it was, when `t` has
    /// no single wave or `w` was not created before `t`.
    pub fn set_wave(&mut self, t: Tag, w: Tag) -> (r: Result<(), RackError>)
        requires
            old(self).wf(),
        ensures
            final(self).wf(),
            r is Ok <==> t < old(self)@.len() && with_wave(old(self)@.modules[t as int], w) is Some && w < t,
            r is Ok ==> final(self)@ == (RackView {
                modules: old(self)@.modules.update(t as int, with_wave(old(self)@.modules[t as int], w)->Some_0),
                ..old(self)@
            }),
            r is Err ==> final(self)@ == old(self)@,
    {
        if t >= self.modules.len() || w >= t {
            return Err(RackError::InvalidModule);
        }
        proof { self.lemma_module_ok(t as int); }
        let m = match &self.modules[t] {
            Module::Vca { .. } => Module::Vca { wave: w },
            Module::Modulator { .. } => Module::Modulator { wave: w },
            Module::SineFold { .. } => Module::SineFold { wave: w },
            Module::Tanh { .. } => Module::Tanh { wave: w },
            Module::Lpf { .. } => Module::Lpf { wave: w },
            Module::Delay { .. } => Module::Delay { wave: w },
            _ => {
                return Err(RackError::InvalidModule);
            },
        };
        self.replace_module(t, m);
        Ok(())
    }

    /// Makes the selector at tag `t` play `active`. Refused, with the rack
    /// left as it was, unless `t` is a selector and `active` was created
    /// before it.
    pub fn set_active(&mut self, t: Tag, active: Tag) -> (r: Result<(), RackError>)
        requires
            old(self).wf(),
        ensures
            final(self).wf(),
            r is Ok <==> t < old(self)@.len() && old(self)@.modules[t as int] is Union && active < t,
            r is Ok ==> final(self)@.modules[t as int] is Union,
            r is Ok ==> final(self)@.modules[t as int]->Union_active == active,
            r is Ok ==> final(self)@.modules[t as int]->Union_waves == old(self)@.modules[t as int]->Union_waves,
            r is Ok ==> (RackView { modules: old(self)@.modules, ..final(self)@ }) == old(self)@,
            r is Ok ==> forall|u: int| 0 <= u < old(self)@.len() && u != t ==> final(self)@.modules[u] == old(self)@.modules[u],
            final(self)@.len() == old(self)@.len(),
            r is Err ==> final(self)@ == old(self)@,
    {
        if t >= self.modules.len() || active >= t {
            return Err(RackError::InvalidModule);
        }
        proof { self.lemma_module_ok(t as int); }
        let is_union = match &self.modules[t] {
            Module::Union { .. } => true,
            _ => false,
        };
        if !is_union {
            return Err(RackError::InvalidModule);
        }
        let ghost v = self@;
        match &mut self.modules[t] {
            Module::Union { active: a, .. } => {
                *a = active;
            },
            _ => {},
        }
        proof {
            assert forall|u: int| 0 <= u < v.len() implies module_ok(
                #[trigger] self@.modules[u],
                u,
                self@.controls[u],
                self@.state[u].len() as int,
            ) by {
                assert(module_ok(v.modules[u], u, v.controls[u], v.state[u].len() as int));
            }
            assert forall|u: int| 0 <= u < v.len() implies (#[trigger] self@.buffers[u]).wf() by {
                assert(v.buffers[u].wf());
            }
            assert(self@.modules.len() == v.modules.len());
            assert((RackView { modules: v.modules, ..self@ }) == v);
        }
        Ok(())
    }
}

/// A delay line never shrinks, and after a step it holds at least the
/// delay plus the cubic read's margin of three samples, whenever that fits
/// in `MAX_LEN` slots. This holds for the delay module and the string alike,
/// since both step their buffer with `delay_line`.
pub proof fn lemma_delay_room(b: RingView, x: int, d: int)
    requires
        b.wf(),
        d >= 0,
    ensures
        delay_line(b, x, d).contents.len() >= b.contents.len(),
        delay_room(d) <= MAX_LEN ==> delay_line(b, x, d).contents.len() * one() >= d + 3 * one(),
{
    let len = b.contents.len() as int;
    let n = grow_len(d, len);
    let c = (d + one() - 1) / one();
    vstd::arithmetic::div_mod::lemma_fundamental_div_mod(d + one() - 1, one());
    vstd::arithmetic::div_mod::lemma_mod_bound(d + one() - 1, one());
    assert(c * one() >= d);
    let g = b.grown(n);
    assert(g.contents.len() >= len);
    assert(g.contents.len() >= n);
    assert(delay_line(b, x, d).contents.len() == g.contents.len());
    if delay_room(d) <= MAX_LEN {
        assert(g.contents.len() >= c + 3);
        assert(g.contents.len() * one() >= (c + 3) * one()) by (nonlinear_arith)
            requires
                g.contents.len() >= c + 3,
        ;
    }
}

impl Rack {
    /// The number of slots in the buffer of module `t`, if there is one.
    pub fn buffer_len(&self, t: Tag) -> (r: Option<usize>)
        requires
            self.wf(),
        ensures
            t < self@.len() ==> r == Some(self@.buffers[t as int].contents.len() as usize),
            t >= self@.len() ==> r is None,
    {
        if t < self.buffers.len() {
            proof { self.lemma_module_ok(t as int); }
            Some(self.buffers[t].len())
        } else {
            None
        }
    }
}

/// A rack of a sine oscillator followed by a mixer of that one oscillator at
/// unit levels: every evaluation (`play`) leaves the mixer's output, which
/// is the sample returned, equal to the oscillator's output. `play` changes
/// neither modules nor controls, so this holds at every later sample too.
pub proof fn lemma_unity_mixer_play(v: RackView, sr: int)
    requires
        v.len() == 2,
        v.outputs.len() == 2,
        v.state.len() == 2,
        v.state[0].len() == 1,
        v.modules[0] is Sine,
        v.modules[1] matches Module::Mixer { waves } && waves@ == seq![0usize],
        v.controls[1] == seq![In::Fixed(ONE), In::Fixed(ONE)],
    ensures
        run_upto(v, sr, 2).outputs[1] == run_upto(v, sr, 2).outputs[0],
        run_upto(v, sr, 2).modules == v.modules,
        run_upto(v, sr, 2).controls == v.controls,
{
    let w = run_upto(v, sr, 1);
    assert(run_upto(v, sr, 0) == v);
    assert(w == step_spec(v, 0, sr));
    assert(w.modules == v.modules);
    assert(w.controls == v.controls);
    assert(w.outputs.len() == 2);
    lemma_unity_mixer(w, 1, sr);
    assert(run_upto(v, sr, 2) == step_spec(w, 1, sr));
}

} // verus!
