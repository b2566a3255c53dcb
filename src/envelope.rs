//! The ADSR envelope as a pure state machine over fixed-point time.
use vstd::prelude::*;
use crate::fixed::{add_spec, div_spec, fx_add, fx_div, fx_mul, fx_sub, mul_spec, one, sub_spec, Real, HALF, ONE};

verus! {

/// The shortest segment: 0.01 s, raw. Shorter durations are raised to it.
pub const MIN_DURATION: i64 = 42949673;

/// A curve from 0 at `x == 0` to `ONE` at `x == ONE` through `bias` at
/// `x == HALF`: `bias x / ((1 - bias)(1 - x) + bias x)`. A bias of one half
/// is the straight ramp; a bias above one half bows the curve upward like
/// an exponential approach.
pub open spec fn shape_spec(bias: int, x: int) -> int {
    div_spec(
        mul_spec(bias, x),
        add_spec(mul_spec(sub_spec(one(), bias), sub_spec(one(), x)), mul_spec(bias, x)),
    )
}

/// The inverse of `shape_spec`: the position at which the curve reaches `y`.
pub open spec fn shape_inv_spec(bias: int, y: int) -> int {
    div_spec(
        mul_spec(y, sub_spec(one(), bias)),
        add_spec(mul_spec(bias, sub_spec(one(), y)), mul_spec(y, sub_spec(one(), bias))),
    )
}

/// The shaped segment from `lo` (at `x == 0`) to `hi` (at `x == ONE`).
pub open spec fn curve_spec(lo: int, hi: int, bias: int, x: int) -> int {
    add_spec(lo, mul_spec(sub_spec(hi, lo), shape_spec(bias, x)))
}

/// A duration raised to the shortest segment.
pub open spec fn floor_duration(x: int) -> int {
    if x > MIN_DURATION {
        x
    } else {
        MIN_DURATION as int
    }
}

/// The curve biases of the three moving segments, fixed at construction.
#[derive(Clone, Copy, Debug, PartialEq, Eq, Structural)]
pub struct Shape {
    pub attack: Real,
    pub decay: Real,
    pub release: Real,
}

/// The running state of one envelope.
#[derive(Clone, Copy, Debug, PartialEq, Eq, Structural)]
pub struct Envelope {
    /// Seconds since the (virtual) start of the attack.
    pub clock: Real,
    /// Time spent in sustain, recorded while the note is held.
    pub sustain_time: Real,
    /// Whether the note is held.
    pub triggered: bool,
    /// The last output level.
    pub level: Real,
    /// The clock when the note was last released.
    pub released_at: Real,
    /// The level when the note was last released: where the release starts.
    pub release_from: Real,
}

/// The envelope's value and its updated sustain time, for segment lengths
/// `a, d, r` (already floored), sustain level `s`, in state `e`.
///
/// While the note is held: attack from 0 to 1, decay from 1 to `s`, then
/// sustain at `s` (the control is read afresh each sample). Once released:
/// the release curve from the level reached at release down to 0 over `r`,
/// counted from the clock at release, then silence.
pub open spec fn level_spec(a: int, d: int, s: int, r: int, sh: Shape, e: Envelope) -> (int, int) {
    let t = e.clock as int;
    let ad = add_spec(a, d);
    if e.triggered {
        if t < a {
            (curve_spec(0, one(), sh.attack as int, div_spec(t, a)), e.sustain_time as int)
        } else if t < ad {
            (curve_spec(one(), s, sh.decay as int, div_spec(sub_spec(t, a), d)), e.sustain_time as int)
        } else {
            (s, sub_spec(sub_spec(t, a), d))
        }
    } else {
        let u = sub_spec(t, e.released_at as int);
        if u < r {
            (curve_spec(e.release_from as int, 0, sh.release as int, div_spec(u, r)), e.sustain_time as int)
        } else {
            (0, e.sustain_time as int)
        }
    }
}

/// One sample of the envelope: compute the level from the controls, then
/// advance the clock by one sample period.
pub open spec fn advance_spec(
    attack: int,
    decay: int,
    sustain: int,
    release: int,
    sh: Shape,
    e: Envelope,
    sample_rate: int,
) -> Envelope {
    let (lv, st) = level_spec(
        floor_duration(attack),
        floor_duration(decay),
        sustain,
        floor_duration(release),
        sh,
        e,
    );
    Envelope {
        clock: add_spec(e.clock as int, div_spec(one(), sample_rate)) as i64,
        sustain_time: st as i64,
        triggered: e.triggered,
        level: lv as i64,
        ..e
    }
}

/// Note on: restart the attack from the point of the attack curve at the
/// current level, so a retrigger does not click.
pub open spec fn on_spec(attack: int, sh: Shape, e: Envelope) -> Envelope {
    Envelope {
        clock: mul_spec(shape_inv_spec(sh.attack as int, e.level as int), floor_duration(attack))
            as i64,
        sustain_time: 0,
        triggered: true,
        ..e
    }
}

/// Where the release of a held note starts, for attack and decay controls
/// `attack`, `decay`: released in sustain, at the end of the sustain,
/// `a + d + sustain_time`; released earlier, at the clock reached.
pub open spec fn release_start(attack: int, decay: int, e: Envelope) -> int {
    let ad = add_spec(floor_duration(attack), floor_duration(decay));
    if e.clock >= ad {
        add_spec(ad, e.sustain_time as int)
    } else {
        e.clock as int
    }
}

/// Note off: the release starts from the level reached, at the end of the
/// sustain when the note was sustaining, else where the clock stands, so a
/// release in any segment does not click. A note already released is left
/// as it is.
pub open spec fn off_spec(attack: int, decay: int, e: Envelope) -> Envelope {
    if e.triggered {
        Envelope {
            triggered: false,
            released_at: release_start(attack, decay, e) as i64,
            release_from: e.level,
            ..e
        }
    } else {
        e
    }
}

fn shape(bias: Real, x: Real) -> (r: Real)
    ensures
        r == shape_spec(bias as int, x as int),
{
    fx_div(fx_mul(bias, x), fx_add(fx_mul(fx_sub(ONE, bias), fx_sub(ONE, x)), fx_mul(bias, x)))
}

fn shape_inv(bias: Real, y: Real) -> (r: Real)
    ensures
        r == shape_inv_spec(bias as int, y as int),
{
    fx_div(
        fx_mul(y, fx_sub(ONE, bias)),
        fx_add(fx_mul(bias, fx_sub(ONE, y)), fx_mul(y, fx_sub(ONE, bias))),
    )
}

/// A point of the shaped segment from `lo` to `hi`.
pub fn curve(lo: Real, hi: Real, bias: Real, x: Real) -> (r: Real)
    ensures
        r == curve_spec(lo as int, hi as int, bias as int, x as int),
{
    fx_add(lo, fx_mul(fx_sub(hi, lo), shape(bias, x)))
}

fn floor_dur(x: Real) -> (r: Real)
    ensures
        r == floor_duration(x as int),
{
    if x > MIN_DURATION {
        x
    } else {
        MIN_DURATION
    }
}

/// The envelope's level and updated sustain time.
pub fn calc_level(a: Real, d: Real, s: Real, r: Real, sh: Shape, e: Envelope) -> (res: (Real, Real))
    ensures
        (res.0 as int, res.1 as int) == level_spec(a as int, d as int, s as int, r as int, sh, e),
{
    let t = e.clock;
    let ad = fx_add(a, d);
    if e.triggered {
        if t < a {
            (curve(0, ONE, sh.attack, fx_div(t, a)), e.sustain_time)
        } else if t < ad {
            (curve(ONE, s, sh.decay, fx_div(fx_sub(t, a), d)), e.sustain_time)
        } else {
            (s, fx_sub(fx_sub(t, a), d))
        }
    } else {
        let u = fx_sub(t, e.released_at);
        if u < r {
            (curve(e.release_from, 0, sh.release, fx_div(u, r)), e.sustain_time)
        } else {
            (0, e.sustain_time)
        }
    }
}

/// Advances the envelope by one sample.
pub fn advance(
    attack: Real,
    decay: Real,
    sustain: Real,
    release: Real,
    sh: Shape,
    e: Envelope,
    sample_rate: Real,
) -> (r: Envelope)
    ensures
        r == advance_spec(
            attack as int,
            decay as int,
            sustain as int,
            release as int,
            sh,
            e,
            sample_rate as int,
        ),
{
    let (lv, st) = calc_level(
        floor_dur(attack),
        floor_dur(decay),
        sustain,
        floor_dur(release),
        sh,
        e,
    );
    Envelope {
        clock: fx_add(e.clock, fx_div(ONE, sample_rate)),
        sustain_time: st,
        triggered: e.triggered,
        level: lv,
        ..e
    }
}

/// Starts a note.
pub fn on(attack: Real, sh: Shape, e: Envelope) -> (r: Envelope)
    ensures
        r == on_spec(attack as int, sh, e),
{
    Envelope {
        clock: fx_mul(shape_inv(sh.attack, e.level), floor_dur(attack)),
        sustain_time: 0,
        triggered: true,
        ..e
    }
}

/// Ends a note.
pub fn off(attack: Real, decay: Real, e: Envelope) -> (r: Envelope)
    ensures
        r == off_spec(attack as int, decay as int, e),
{
    if !e.triggered {
        return e;
    }
    let ad = fx_add(floor_dur(attack), floor_dur(decay));
    let start = if e.clock >= ad { fx_add(ad, e.sustain_time) } else { e.clock };
    Envelope { triggered: false, released_at: start, release_from: e.level, ..e }
}

proof fn lemma_div_zero(b: int)
    ensures
        div_spec(0, b) == 0,
{
    if b > 0 {
        assert(0 * one() == 0);
        vstd::arithmetic::div_mod::lemma_div_of0(b);
    } else if b < 0 {
        assert(-0 * one() == 0);
        vstd::arithmetic::div_mod::lemma_div_of0(-b);
    }
}

proof fn lemma_shape_at_zero(bias: int)
    ensures
        shape_spec(bias, 0) == 0,
{
    assert(bias * 0 == 0);
    lemma_div_zero(add_spec(mul_spec(sub_spec(one(), bias), one()), 0));
}

/// A note started from silence restarts the clock at the very beginning
/// of the attack.
pub proof fn lemma_on_from_silence(attack: int, sh: Shape, e: Envelope)
    requires
        e.level == 0,
    ensures
        on_spec(attack, sh, e).clock == 0,
        on_spec(attack, sh, e).triggered,
        on_spec(attack, sh, e).sustain_time == 0,
{
    let b = sh.attack as int;
    assert(0 * sub_spec(one(), b) == 0);
    assert(mul_spec(0, sub_spec(one(), b)) == 0);
    lemma_div_zero(add_spec(mul_spec(b, sub_spec(one(), 0)), mul_spec(0, sub_spec(one(), b))));
    assert(0 * floor_duration(attack) == 0);
}

/// The attack starts from silence and, once the attack time has elapsed,
/// the envelope stands exactly at its apex, one.
pub proof fn lemma_attack_apex(a: int, d: int, s: int, r: int, sh: Shape, e: Envelope)
    requires
        e.triggered,
        a == floor_duration(a),
        d == floor_duration(d),
        a + d <= i64::MAX,
    ensures
        e.clock == 0 ==> level_spec(a, d, s, r, sh, e).0 == 0,
        e.clock == a ==> level_spec(a, d, s, r, sh, e).0 == one(),
{
    lemma_shape_at_zero(sh.attack as int);
    lemma_shape_at_zero(sh.decay as int);
    if e.clock == 0 {
        lemma_div_zero(a);
        assert(mul_spec(one(), 0) == 0);
    }
    if e.clock == a {
        assert(sub_spec(a, a) == 0);
        lemma_div_zero(d);
        assert((s - one()) * 0 == 0);
        assert(mul_spec(sub_spec(s, one()), 0) == 0);
    }
}

proof fn lemma_floor_between(n: int, d: int, lo: int, hi: int)
    requires
        d > 0,
        lo * d <= n,
        n < (hi + 1) * d,
    ensures
        lo <= n / d <= hi,
{
    let q = n / d;
    let r = n % d;
    vstd::arithmetic::div_mod::lemma_fundamental_div_mod(n, d);
    vstd::arithmetic::div_mod::lemma_mod_bound(n, d);
    if q < lo {
        assert(d * q + d <= lo * d) by (nonlinear_arith)
            requires
                q + 1 <= lo,
                d > 0,
        ;
    }
    if q > hi {
        assert((hi + 1) * d <= d * q) by (nonlinear_arith)
            requires
                hi + 1 <= q,
                d > 0,
        ;
    }
}

/// `HALF * y` in fixed point is `y / 2`, rounded down.
proof fn lemma_mul_half(y: int)
    requires
        0 <= y <= one(),
    ensures
        mul_spec(HALF as int, y) == y / 2,
{
    vstd::arithmetic::div_mod::lemma_fundamental_div_mod(y, 2);
    vstd::arithmetic::div_mod::lemma_mod_bound(y, 2);
    let k = y / 2;
    let p = y % 2;
    assert(HALF * y == k * one() + p * HALF);
    vstd::arithmetic::div_mod::lemma_fundamental_div_mod_converse(HALF * y, one(), k, p * HALF);
}

/// The straight ramp in fixed point: exact at even positions, within one
/// unit at odd ones.
proof fn lemma_linear_shape(x: int)
    requires
        0 <= x <= one(),
    ensures
        x % 2 == 0 ==> shape_spec(HALF as int, x) == x,
        x % 2 == 1 ==> x - 1 <= shape_spec(HALF as int, x) <= x + 1,
{
    vstd::arithmetic::div_mod::lemma_fundamental_div_mod(x, 2);
    vstd::arithmetic::div_mod::lemma_mod_bound(x, 2);
    let k = x / 2;
    let p = x % 2;
    lemma_mul_half(x);
    lemma_mul_half(one() - x);
    assert(sub_spec(one(), HALF as int) == HALF);
    assert(sub_spec(one(), x) == one() - x);
    let m = (one() - x) / 2;
    if p == 0 {
        vstd::arithmetic::div_mod::lemma_fundamental_div_mod_converse(one() - x, 2, 0x8000_0000 - k, 0);
        assert(m == 0x8000_0000 - k);
        assert(k * one() == (2 * k) * 0x8000_0000);
        vstd::arithmetic::div_mod::lemma_fundamental_div_mod_converse(k * one(), 0x8000_0000, 2 * k, 0);
    } else {
        vstd::arithmetic::div_mod::lemma_fundamental_div_mod_converse(one() - x, 2, 0x8000_0000 - k - 1, 1);
        assert(m == 0x8000_0000 - k - 1);
        let den = 0x7fff_ffff;
        assert((2 * k) * den <= k * one());
        assert(k * one() < (2 * k + 3) * den);
        lemma_floor_between(k * one(), den, 2 * k, 2 * k + 2);
    }
}

/// The straight ramp never falls.
proof fn lemma_linear_shape_monotone(x1: int, x2: int)
    requires
        0 <= x1 <= x2 <= one(),
    ensures
        shape_spec(HALF as int, x1) <= shape_spec(HALF as int, x2),
        0 <= shape_spec(HALF as int, x2) <= one(),
{
    lemma_linear_shape(x1);
    lemma_linear_shape(x2);
    assert(one() % 2 == 0);
    if x2 == one() {
        assert(x2 % 2 == 0);
    }
    if x1 < x2 && x1 % 2 == 1 && x2 % 2 == 1 {
        assert(x1 + 2 <= x2) by {
            vstd::arithmetic::div_mod::lemma_fundamental_div_mod(x1, 2);
            vstd::arithmetic::div_mod::lemma_fundamental_div_mod(x2, 2);
        }
    }
}

/// A release does not click: at the moment the release starts, in
/// whatever segment the note was, the level is the one already reached.
/// Released in sustain, that moment is `a + d + sustain_time`.
pub proof fn lemma_off_holds_level(attack: int, decay: int, s: int, r: int, sh: Shape, e: Envelope)
    requires
        r == floor_duration(r),
        e.triggered,
    ensures
        level_spec(
            floor_duration(attack),
            floor_duration(decay),
            s,
            r,
            sh,
            Envelope { clock: release_start(attack, decay, e) as i64, ..off_spec(attack, decay, e) },
        ).0 == e.level,
{
    let f = off_spec(attack, decay, e);
    let st = release_start(attack, decay, e);
    assert(i64::MIN <= st <= i64::MAX);
    assert(sub_spec(st, st) == 0);
    lemma_div_zero(r);
    let b = sh.release as int;
    assert(b * 0 == 0);
    lemma_div_zero(add_spec(mul_spec(sub_spec(one(), b), one()), 0));
    assert(shape_spec(b, 0) == 0);
    let l = e.level as int;
    assert(sub_spec(0, l) * 0 == 0);
    assert(mul_spec(sub_spec(0, l), 0) == 0);
}

/// A note released in sustain falls silent exactly `r` after the end of the
/// sustain: at every clock from `a + d + r + sustain_time` on, the level is
/// zero.
pub proof fn lemma_release_ends(attack: int, decay: int, s: int, r: int, sh: Shape, e: Envelope, t: int)
    requires
        r == floor_duration(r),
        e.triggered,
        e.clock >= add_spec(floor_duration(attack), floor_duration(decay)),
        0 <= e.sustain_time,
        floor_duration(attack) + floor_duration(decay) + r + e.sustain_time <= t <= i64::MAX,
    ensures
        level_spec(
            floor_duration(attack),
            floor_duration(decay),
            s,
            r,
            sh,
            Envelope { clock: t as i64, ..off_spec(attack, decay, e) },
        ).0 == 0,
{
    let a = floor_duration(attack);
    let d = floor_duration(decay);
    assert(a + d + e.sustain_time <= i64::MAX);
    assert(add_spec(a, d) == a + d);
    assert(release_start(attack, decay, e) == a + d + e.sustain_time);
}

/// Released with a straight release segment and fixed controls, the
/// envelope falls from the level it was released at and never rises again:
/// at a later clock the level is no higher, never below zero, and no higher
/// than the level at release.
pub proof fn lemma_release_falls(a: int, d: int, s: int, r: int, sh: Shape, e1: Envelope, e2: Envelope)
    requires
        sh.release == HALF,
        r == floor_duration(r),
        0 <= e1.release_from <= one(),
        !e1.triggered,
        e2 == (Envelope { clock: e2.clock, ..e1 }),
        0 <= e1.released_at <= e1.clock <= e2.clock,
    ensures
        0 <= level_spec(a, d, s, r, sh, e2).0 <= level_spec(a, d, s, r, sh, e1).0 <= e1.release_from,
{
    let l = e1.release_from as int;
    let t1 = e1.clock as int;
    let t2 = e2.clock as int;
    let u1 = t1 - e1.released_at;
    let u2 = t2 - e1.released_at;
    assert(sub_spec(t1, e1.released_at as int) == u1);
    assert(sub_spec(t2, e1.released_at as int) == u2);
    assert(sub_spec(0, l) == -l);
    if u1 < r {
        assert(0 <= u1 * one() < r * one()) by (nonlinear_arith)
            requires
                0 <= u1 < r,
        ;
        lemma_floor_between(u1 * one(), r, 0, one() - 1);
        let x1 = div_spec(u1, r);
        assert(x1 == (u1 * one()) / r);
        lemma_linear_shape_monotone(x1, x1);
        let y1 = shape_spec(HALF as int, x1);
        assert(-l * one() <= -l * y1 <= 0) by (nonlinear_arith)
            requires
                0 <= l,
                0 <= y1 <= one(),
        ;
        vstd::arithmetic::div_mod::lemma_div_is_ordered(-l * one(), -l * y1, one());
        vstd::arithmetic::div_mod::lemma_div_multiples_vanish(-l, one());
        assert(-l * one() == one() * (-l));
        vstd::arithmetic::div_mod::lemma_div_is_ordered(-l * y1, 0, one());
        assert(0int / one() == 0);
        assert(curve_spec(l, 0, HALF as int, x1) == l + (-l * y1) / one());
        if u2 < r {
            assert(u1 * one() <= u2 * one() < r * one()) by (nonlinear_arith)
                requires
                    0 <= u1 <= u2 < r,
            ;
            lemma_floor_between(u2 * one(), r, 0, one() - 1);
            vstd::arithmetic::div_mod::lemma_div_is_ordered(u1 * one(), u2 * one(), r);
            let x2 = div_spec(u2, r);
            lemma_linear_shape_monotone(x1, x2);
            let y2 = shape_spec(HALF as int, x2);
            assert(-l * one() <= -l * y2 <= -l * y1) by (nonlinear_arith)
                requires
                    0 <= l,
                    0 <= y1 <= y2 <= one(),
            ;
            vstd::arithmetic::div_mod::lemma_div_is_ordered(-l * y2, -l * y1, one());
            vstd::arithmetic::div_mod::lemma_div_is_ordered(-l * one(), -l * y2, one());
            assert(curve_spec(l, 0, HALF as int, x2) == l + (-l * y2) / one());
        }
    }
}

} // verus!
