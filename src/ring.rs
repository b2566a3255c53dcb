//! A circular delay store with a fractional read cursor and two-point
//! (linear) or four-point (cubic Hermite) interpolation.
use vstd::prelude::*;
use crate::fixed::{
    add_spec, frac_spec, fx_add, fx_frac, fx_mul, fx_sub, mul_spec, one, sub_spec, Real, HALF,
    ONE,
};

verus! {

/// The largest number of slots a ring buffer may hold, so that every
/// position in it is a fixed-point number.
pub const MAX_LEN: usize = 0x4000_0000;

/// Linear interpolation between `a` (at `f == 0`) and `b` (at `f == ONE`).
pub open spec fn lerp_spec(a: int, b: int, f: int) -> int {
    add_spec(a, mul_spec(sub_spec(b, a), f))
}

/// Four-point cubic Hermite interpolation between `v2` (at `f == 0`) and
/// `v3` (at `f == ONE`), with `v1` before and `v4` after them.
pub open spec fn cubic_spec(v1: int, v2: int, v3: int, v4: int, f: int) -> int {
    let c = mul_spec(sub_spec(v3, v1), HALF as int);
    let v = sub_spec(v2, v3);
    let w = add_spec(c, v);
    let a = add_spec(add_spec(w, v), mul_spec(sub_spec(v4, v2), HALF as int));
    let b_neg = add_spec(w, a);
    add_spec(mul_spec(add_spec(mul_spec(sub_spec(mul_spec(a, f), b_neg), f), c), f), v2)
}

/// Slot `i` of `buf`, with `i` taken modulo its length.
pub open spec fn slot(buf: Seq<i64>, i: int) -> int {
    buf[i % (buf.len() as int)] as int
}

/// Linear read of `buf` at fixed-point position `pos`.
pub open spec fn linear_at(buf: Seq<i64>, pos: int) -> int {
    let i = pos / one();
    lerp_spec(slot(buf, i), slot(buf, i + 1), frac_spec(pos))
}

/// Cubic read of `buf` at fixed-point position `pos`.
pub open spec fn cubic_at(buf: Seq<i64>, pos: int) -> int {
    let i = pos / one();
    cubic_spec(slot(buf, i - 1), slot(buf, i), slot(buf, i + 1), slot(buf, i + 2), frac_spec(pos))
}

/// The read position that lies `delay` samples (fixed point) behind the
/// most recent write, when the next write goes to slot `wp` of `len`.
pub open spec fn delay_pos(wp: int, len: int, delay: int) -> int {
    ((wp - 1) * one() - delay) % (len * one())
}

/// The state after writing `v` at `wp` and stepping the cursor.
pub open spec fn push_spec(buf: Seq<i64>, wp: int, v: i64) -> (Seq<i64>, int) {
    (buf.update(wp, v), (wp + 1) % (buf.len() as int))
}

/// The state after writing each of `vals` in turn.
pub open spec fn push_all(buf: Seq<i64>, wp: int, vals: Seq<i64>) -> (Seq<i64>, int)
    decreases vals.len(),
{
    if vals.len() == 0 {
        (buf, wp)
    } else {
        let (b, w) = push_all(buf, wp, vals.drop_last());
        push_spec(b, w, vals.last())
    }
}

/// Linear interpolation between two samples.
pub fn lerp(a: Real, b: Real, f: Real) -> (r: Real)
    ensures
        r == lerp_spec(a as int, b as int, f as int),
{
    fx_add(a, fx_mul(fx_sub(b, a), f))
}

/// Cubic Hermite interpolation over four consecutive samples.
pub fn cubic(v1: Real, v2: Real, v3: Real, v4: Real, f: Real) -> (r: Real)
    ensures
        r == cubic_spec(v1 as int, v2 as int, v3 as int, v4 as int, f as int),
{
    let c = fx_mul(fx_sub(v3, v1), HALF);
    let v = fx_sub(v2, v3);
    let w = fx_add(c, v);
    let a = fx_add(fx_add(w, v), fx_mul(fx_sub(v4, v2), HALF));
    let b_neg = fx_add(w, a);
    fx_add(fx_mul(fx_add(fx_mul(fx_sub(fx_mul(a, f), b_neg), f), c), f), v2)
}

/// Interpolating between two equal samples gives that sample back.
pub proof fn lemma_lerp_flat(a: i64, f: i64)
    ensures
        lerp_spec(a as int, a as int, f as int) == a,
{
    assert(0 * (f as int) == 0);
}

proof fn lemma_mul_zero(x: int)
    ensures
        mul_spec(0, x) == 0,
        mul_spec(x, 0) == 0,
{
    assert(0 * x == 0);
    assert(x * 0 == 0);
}

/// Cubic interpolation over a flat stretch gives the shared value back.
pub proof fn lemma_cubic_flat(a: i64, f: i64)
    ensures
        cubic_spec(a as int, a as int, a as int, a as int, f as int) == a,
{
    lemma_mul_zero(f as int);
    lemma_mul_zero(HALF as int);
}

/// A circular buffer of samples with a write cursor and a fractional read cursor.
pub struct RingBuffer {
    buffer: Vec<Real>,
    write_pos: usize,
    read_pos: Real,
}

/// What a ring buffer holds: its slots and its two cursors.
pub struct RingView {
    pub contents: Seq<i64>,
    /// The slot the next push writes.
    pub write: int,
    /// The read cursor, a fixed-point slot position.
    pub read: int,
}

impl RingView {
    pub open spec fn wf(self) -> bool {
        &&& 0 < self.contents.len() <= MAX_LEN
        &&& 0 <= self.write < self.contents.len()
        &&& 0 <= self.read < self.contents.len() * one()
    }

    /// After writing `v` and stepping the write cursor.
    pub open spec fn pushed(self, v: i64) -> RingView {
        let (c, w) = push_spec(self.contents, self.write, v);
        RingView { contents: c, write: w, read: self.read }
    }

    /// After placing the read cursor `delay` behind the most recent write.
    pub open spec fn delayed(self, delay: int) -> RingView {
        RingView { read: delay_pos(self.write, self.contents.len() as int, delay), ..self }
    }

    /// After growing to at least `n` slots with silent slots at the end.
    pub open spec fn grown(self, n: int) -> RingView {
        if n <= self.contents.len() {
            self
        } else {
            RingView {
                contents: self.contents + Seq::new((n - self.contents.len()) as nat, |_i| 0i64),
                ..self
            }
        }
    }

    /// The cubic read at the read cursor.
    pub open spec fn cubic_read(self) -> int {
        cubic_at(self.contents, self.read)
    }
}

impl View for RingBuffer {
    type V = RingView;

    closed spec fn view(&self) -> RingView {
        RingView {
            contents: self.buffer@,
            write: self.write_pos as int,
            read: self.read_pos as int,
        }
    }
}

impl RingBuffer {
    /// The stored samples, slot by slot.
    pub open spec fn contents(&self) -> Seq<i64> {
        self@.contents
    }

    /// The slot the next push writes.
    pub open spec fn write_index(&self) -> int {
        self@.write
    }

    /// The read cursor, a fixed-point slot position.
    pub open spec fn read_index(&self) -> int {
        self@.read
    }

    pub open spec fn wf(&self) -> bool {
        self@.wf()
    }

    /// A buffer of `len` zeros (at least one slot), both cursors at slot 0.
    pub fn new(len: usize) -> (r: RingBuffer)
        requires
            len <= MAX_LEN,
        ensures
            r.wf(),
            r.contents() == Seq::new(if len == 0 { 1nat } else { len as nat }, |_i| 0i64),
            r.write_index() == 0,
            r.read_index() == 0,
    {
        let n: usize = if len == 0 { 1 } else { len };
        let buffer = vec![0i64; n];
        RingBuffer { buffer, write_pos: 0, read_pos: 0 }
    }

    /// The number of slots.
    pub fn len(&self) -> (r: usize)
        requires
            self.wf(),
        ensures
            r == self.contents().len(),
    {
        self.buffer.len()
    }

    /// Writes `v` at the write cursor and steps the cursor, wrapping.
    pub fn push(&mut self, v: Real)
        requires
            old(self).wf(),
        ensures
            final(self).wf(),
            (final(self).contents(), final(self).write_index()) == push_spec(
                old(self).contents(),
                old(self).write_index(),
                v,
            ),
            final(self).read_index() == old(self).read_index(),
            final(self)@ == old(self)@.pushed(v),
    {
        self.buffer.set(self.write_pos, v);
        let n = self.write_pos + 1;
        self.write_pos = if n == self.buffer.len() { 0 } else { n };
        proof {
            let len = self.buffer@.len() as int;
            if n == len {
                vstd::arithmetic::div_mod::lemma_mod_self_0(len);
            } else {
                vstd::arithmetic::div_mod::lemma_small_mod(n as nat, len as nat);
            }
        }
    }

    /// Places the read cursor `delay` samples (fixed point) behind the most
    /// recent write.
    pub fn set_delay(&mut self, delay: Real)
        requires
            old(self).wf(),
        ensures
            final(self).wf(),
            final(self).contents() == old(self).contents(),
            final(self).write_index() == old(self).write_index(),
            final(self).read_index() == delay_pos(
                old(self).write_index(),
                old(self).contents().len() as int,
                delay as int,
            ),
            final(self)@ == old(self)@.delayed(delay as int),
    {
        assert(self.write_pos < self.buffer@.len() <= MAX_LEN);
        let span: i128 = self.buffer.len() as i128 * ONE as i128;
        let p: i128 = (self.write_pos as i128 - 1) * ONE as i128 - delay as i128;
        let q: i128 = if p >= 0 {
            p % span
        } else {
            let m = (-p) % span;
            if m == 0 { 0 } else { span - m }
        };
        proof {
            let s = span as int;
            if p < 0 {
                let m = (-p) as int % s;
                vstd::arithmetic::div_mod::lemma_fundamental_div_mod(-p as int, s);
                vstd::arithmetic::div_mod::lemma_mod_bound(-p as int, s);
                let k = (-p) as int / s;
                if m == 0 {
                    assert(p as int == (-k) * s + 0) by (nonlinear_arith)
                        requires
                            -p == s * k + m,
                            m == 0,
                    ;
                    vstd::arithmetic::div_mod::lemma_fundamental_div_mod_converse(p as int, s, -k, 0);
                } else {
                    assert(p as int == (-k - 1) * s + (s - m)) by (nonlinear_arith)
                        requires
                            -p == s * k + m,
                    ;
                    vstd::arithmetic::div_mod::lemma_fundamental_div_mod_converse(
                        p as int,
                        s,
                        -k - 1,
                        s - m,
                    );
                }
            }
            vstd::arithmetic::div_mod::lemma_mod_bound(p as int, s);
        }
        self.read_pos = q as i64;
    }

    /// The linearly interpolated sample at the read cursor.
    pub fn get_linear(&self) -> (r: Real)
        requires
            self.wf(),
        ensures
            r == linear_at(self.contents(), self.read_index()),
    {
        let len = self.buffer.len();
        let f = fx_frac(self.read_pos);
        let i = (self.read_pos / ONE) as usize;
        proof {
            vstd::arithmetic::div_mod::lemma_div_pos_is_pos(self.read_pos as int, one());
            vstd::arithmetic::div_mod::lemma_div_is_ordered(self.read_pos as int, len * one(), one());
            vstd::arithmetic::div_mod::lemma_div_multiples_vanish(len as int, one());
            vstd::arithmetic::div_mod::lemma_small_mod(i as nat, len as nat);
        }
        let j = if i + 1 == len { 0 } else { i + 1 };
        proof {
            if i + 1 == len {
                vstd::arithmetic::div_mod::lemma_mod_self_0(len as int);
            } else {
                vstd::arithmetic::div_mod::lemma_small_mod((i + 1) as nat, len as nat);
            }
        }
        lerp(self.buffer[i], self.buffer[j], f)
    }

    /// The cubic-interpolated sample at the read cursor.
    pub fn get_cubic(&self) -> (r: Real)
        requires
            self.wf(),
        ensures
            r == cubic_at(self.contents(), self.read_index()),
    {
        let len = self.buffer.len();
        let f = fx_frac(self.read_pos);
        let i = (self.read_pos / ONE) as usize;
        proof {
            vstd::arithmetic::div_mod::lemma_div_pos_is_pos(self.read_pos as int, one());
            vstd::arithmetic::div_mod::lemma_div_is_ordered(self.read_pos as int, len * one(), one());
            vstd::arithmetic::div_mod::lemma_div_multiples_vanish(len as int, one());
            vstd::arithmetic::div_mod::lemma_small_mod(i as nat, len as nat);
            vstd::arithmetic::div_mod::lemma_mod_add_multiples_vanish(i - 1, len as int);
        }
        let j0 = (i + len - 1) % len;
        let j2 = (i + 1) % len;
        let j3 = (i + 2) % len;
        cubic(self.buffer[j0], self.buffer[i], self.buffer[j2], self.buffer[j3], f)
    }

    /// Grows the buffer to `new_len` slots by appending silent slots; both
    /// cursors stay where they are. A buffer never shrinks. History that had
    /// wrapped past the old end is not moved, so a read across it hears the
    /// new silent slots once: growth costs a one-time glitch, not a copy.
    pub fn resize(&mut self, new_len: usize)
        requires
            old(self).wf(),
            new_len <= MAX_LEN,
        ensures
            final(self).wf(),
            new_len <= old(self).contents().len() ==> final(self).contents() == old(
                self,
            ).contents(),
            new_len > old(self).contents().len() ==> final(self).contents() == old(
                self,
            ).contents() + Seq::new((new_len - old(self).contents().len()) as nat, |_i| 0i64),
            final(self).write_index() == old(self).write_index(),
            final(self).read_index() == old(self).read_index(),
            final(self)@ == old(self)@.grown(new_len as int),
    {
        let old_len = self.buffer.len();
        if new_len > old_len {
            let ghost start = self.buffer@;
            let mut k: usize = old_len;
            while k < new_len
                invariant
                    old_len <= k <= new_len,
                    self.buffer@ == start + Seq::new((k - old_len) as nat, |_i| 0i64),
                    start.len() == old_len,
                    self.read_pos == old(self).read_pos,
                    self.write_pos == old(self).write_pos,
                decreases new_len - k,
            {
                self.buffer.push(0);
                k = k + 1;
                proof {
                    assert(self.buffer@ =~= start + Seq::new((k - old_len) as nat, |_i| 0i64));
                }
            }
            proof {
                assert(old_len * one() <= new_len * one()) by (nonlinear_arith)
                    requires
                        old_len <= new_len,
                ;
            }
        }
    }
}

proof fn lemma_push_all(buf: Seq<i64>, wp: int, vals: Seq<i64>)
    requires
        0 < buf.len(),
        0 <= wp < buf.len(),
    ensures
        push_all(buf, wp, vals).0.len() == buf.len(),
        push_all(buf, wp, vals).1 == (wp + vals.len()) % (buf.len() as int),
        forall|k: int|
            0 <= k < vals.len() && vals.len() - buf.len() <= k ==> #[trigger] push_all(buf, wp, vals).0[(wp + k) % (
            buf.len() as int)] == vals[k],
    decreases vals.len(),
{
    let l = buf.len() as int;
    if vals.len() > 0 {
        let init = vals.drop_last();
        lemma_push_all(buf, wp, init);
        let (b, w) = push_all(buf, wp, init);
        let n = vals.len() as int;
        vstd::arithmetic::div_mod::lemma_mod_bound(wp + n - 1, l);
        vstd::arithmetic::div_mod::lemma_add_mod_noop(wp + n - 1, 1, l);
        vstd::arithmetic::div_mod::lemma_add_mod_noop_right((wp + n - 1) % l, 1, l);
        assert forall|k: int| 0 <= k < vals.len() && vals.len() - l <= k implies #[trigger] push_all(
            buf,
            wp,
            vals,
        ).0[(wp + k) % l] == vals[k] by {
            if k < n - 1 {
                assert(init[k] == vals[k]);
                assert(b[(wp + k) % l] == vals[k]);
                // distinct slots: k and n - 1 differ by less than l
                if (wp + k) % l == (wp + n - 1) % l {
                    lemma_mod_distinct(wp + k, wp + n - 1, l);
                }
            }
        }
    } else {
        vstd::arithmetic::div_mod::lemma_small_mod(wp as nat, l as nat);
    }
}

proof fn lemma_mod_distinct(a: int, b: int, m: int)
    requires
        0 < m,
        a < b < a + m,
    ensures
        a % m != b % m,
{
    vstd::arithmetic::div_mod::lemma_fundamental_div_mod(a, m);
    vstd::arithmetic::div_mod::lemma_fundamental_div_mod(b, m);
    vstd::arithmetic::div_mod::lemma_mod_bound(a, m);
    vstd::arithmetic::div_mod::lemma_mod_bound(b, m);
    if a % m == b % m {
        let qa = a / m;
        let qb = b / m;
        assert(b - a == m * (qb - qa)) by (nonlinear_arith)
            requires
                a == m * qa + a % m,
                b == m * qb + b % m,
                a % m == b % m,
        ;
        assert(false) by (nonlinear_arith)
            requires
                b - a == m * (qb - qa),
                0 < b - a < m,
                m > 0,
        ;
    }
}

proof fn lemma_mod_shift(y: int, q: int, l: int)
    requires
        l > 0,
    ensures
        (y - l * q) % l == y % l,
{
    vstd::arithmetic::div_mod::lemma_fundamental_div_mod(y, l);
    vstd::arithmetic::div_mod::lemma_mod_bound(y, l);
    assert(y - l * q == (y / l - q) * l + y % l) by (nonlinear_arith)
        requires
            y == l * (y / l) + y % l,
    ;
    vstd::arithmetic::div_mod::lemma_fundamental_div_mod_converse(y - l * q, l, y / l - q, y % l);
}

proof fn lemma_scaled_mod(x: int, l: int, c: int)
    requires
        l > 0,
        c > 0,
    ensures
        (x * c) % (l * c) == (x % l) * c,
{
    let q = x / l;
    let r = x % l;
    vstd::arithmetic::div_mod::lemma_fundamental_div_mod(x, l);
    vstd::arithmetic::div_mod::lemma_mod_bound(x, l);
    assert(x * c == q * (l * c) + r * c) by (nonlinear_arith)
        requires
            x == l * q + r,
    ;
    assert(0 <= r * c < l * c) by (nonlinear_arith)
        requires
            0 <= r < l,
            c > 0,
    ;
    vstd::arithmetic::div_mod::lemma_fundamental_div_mod_converse(x * c, l * c, q, r * c);
}

/// Round trip: after pushing `vals` (a run of any length), a read at a whole
/// delay `d` shorter than both the run and the buffer gives back, with no
/// interpolation error, the value pushed `d` steps before the last.
pub proof fn lemma_round_trip(buf: Seq<i64>, wp: int, vals: Seq<i64>, d: int)
    requires
        0 < buf.len() <= MAX_LEN,
        0 <= wp < buf.len(),
        0 <= d < vals.len(),
        d < buf.len(),
    ensures
        ({
            let (b, w) = push_all(buf, wp, vals);
            let pos = delay_pos(w, b.len() as int, d * one());
            &&& linear_at(b, pos) == vals[vals.len() - 1 - d]
            &&& cubic_at(b, pos) == vals[vals.len() - 1 - d]
        }),
{
    lemma_push_all(buf, wp, vals);
    let (b, w) = push_all(buf, wp, vals);
    let l = buf.len() as int;
    let n = vals.len() as int;
    let x = w - 1 - d;
    assert((w - 1) * one() - d * one() == x * one());
    lemma_scaled_mod(x, l, one());
    let pos = delay_pos(w, l, d * one());
    assert(pos == (x % l) * one());
    vstd::arithmetic::div_mod::lemma_div_multiples_vanish(x % l, one());
    vstd::arithmetic::div_mod::lemma_mod_multiples_basic(x % l, one());
    assert(pos / one() == x % l);
    assert(frac_spec(pos) == 0);
    vstd::arithmetic::div_mod::lemma_mod_bound(x, l);
    vstd::arithmetic::div_mod::lemma_small_mod((x % l) as nat, l as nat);
    // x = (wp + n) % l - 1 - d and wp + n - 1 - d agree modulo l
    vstd::arithmetic::div_mod::lemma_fundamental_div_mod(wp + n, l);
    lemma_mod_shift(wp + n - 1 - d, (wp + n) / l, l);
    assert(x % l == (wp + (n - 1 - d)) % l);
    assert(b[(wp + (n - 1 - d)) % l] == vals[n - 1 - d]);
    assert(slot(b, pos / one()) == vals[n - 1 - d]);
    lemma_mul_zero(sub_spec(slot(b, pos / one() + 1), slot(b, pos / one())));
    let i = pos / one();
    let c = mul_spec(sub_spec(slot(b, i + 1), slot(b, i - 1)), HALF as int);
    let v = sub_spec(slot(b, i), slot(b, i + 1));
    let ww = add_spec(c, v);
    let a = add_spec(add_spec(ww, v), mul_spec(sub_spec(slot(b, i + 2), slot(b, i)), HALF as int));
    let b_neg = add_spec(ww, a);
    lemma_mul_zero(a);
    lemma_mul_zero(sub_spec(mul_spec(a, 0), b_neg));
    lemma_mul_zero(add_spec(mul_spec(sub_spec(mul_spec(a, 0), b_neg), 0), c));
}

} // verus!
