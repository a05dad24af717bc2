//! Windowed per-frame statistics: the detector family.
//!
//! A [`Detect`] implementation folds each incoming frame to one scalar
//! statistic ([`Detect::measure`]), keeps the last `W` statistics in a
//! [`CircularBuffer`] window that starts full of silence, and answers one
//! scalar per frame ([`Detect::output`] over the window). [`Rms`] keeps
//! squared magnitudes and an incrementally maintained running sum — O(1)
//! per frame — and answers the square root of the window mean. [`Peak`]
//! keeps absolute magnitudes and answers the window maximum by rescanning,
//! O(W) per frame.

use crate::frame::{frame_ok, sample_ok, Frame};
use crate::num::{
    abs_val, div_one, div_unit, is_isqrt, isqrt, lemma_div_mod_witness, lemma_isqrt_lt,
    AMP_MAX, DETECT_MAX,
};
use crate::ring::{push_all, push_model, CircularBuffer};
use vstd::arithmetic::div_mod::{
    lemma_div_is_ordered, lemma_div_multiples_vanish, lemma_fundamental_div_mod,
};
use vstd::prelude::*;

verus! {

/// Largest admitted detector window length.
pub const WINDOW_MAX: usize = 65536;

/// Largest admitted frame arity for a detector.
pub const CHANNELS_MAX: usize = 256;

/// Largest value one windowed energy statistic can take.
pub const ENERGY_MAX: i64 = 1099511627776;

/// A window's worth of statistics as mathematical integers.
pub open spec fn stats_view(w: Seq<i64>) -> Seq<int> {
    w.map_values(|v: i64| v as int)
}

/// Channel-summed squared magnitude of the first `k` channels, each square
/// scaled back to Q16.
pub open spec fn energy_prefix(f: Seq<int>, k: nat) -> int
    decreases k,
{
    if k == 0 {
        0
    } else {
        energy_prefix(f, (k - 1) as nat) + div_one(f[k - 1] * f[k - 1])
    }
}

/// Channel-summed squared magnitude of a frame, in Q16.
pub open spec fn frame_energy(f: Seq<int>) -> int {
    energy_prefix(f, f.len())
}

/// Largest absolute sample among the first `k` channels.
pub open spec fn mag_prefix(f: Seq<int>, k: nat) -> int
    decreases k,
{
    if k == 0 {
        0
    } else {
        let m = mag_prefix(f, (k - 1) as nat);
        if abs_val(f[k - 1]) > m {
            abs_val(f[k - 1])
        } else {
            m
        }
    }
}

/// Largest absolute sample of a frame.
pub open spec fn frame_magnitude(f: Seq<int>) -> int {
    mag_prefix(f, f.len())
}

/// Sum of a statistics window.
pub open spec fn sum_seq(u: Seq<int>) -> int
    decreases u.len(),
{
    if u.len() == 0 {
        0
    } else {
        sum_seq(u.drop_last()) + u.last()
    }
}

/// Maximum of a statistics window (zero when empty; the statistics are
/// never negative).
pub open spec fn seq_max(u: Seq<int>) -> int
    decreases u.len(),
{
    if u.len() == 0 {
        0
    } else {
        let m = seq_max(u.drop_last());
        if u.last() > m {
            u.last()
        } else {
            m
        }
    }
}

/// The integer square root, as a value.
pub open spec fn sqrt_floor(n: int) -> int {
    choose|r: int| is_isqrt(n, r)
}

/// Integer square roots are unique, so any witness names `sqrt_floor`.
pub proof fn lemma_sqrt_floor_witness(n: int, r: int)
    requires
        is_isqrt(n, r),
    ensures
        r == sqrt_floor(n),
{
    let s = choose|q: int| is_isqrt(n, q);
    assert(is_isqrt(n, s));
    if r < s {
        assert((r + 1) * (r + 1) <= s * s) by (nonlinear_arith)
            requires
                0 <= r + 1 <= s,
        ;
    }
    if s < r {
        assert((s + 1) * (s + 1) <= r * r) by (nonlinear_arith)
            requires
                0 <= s + 1 <= r,
        ;
    }
}

/// What an RMS window answers: the square root of the window mean, read
/// back in Q16 sample scale.
pub open spec fn rms_output(w: Seq<int>) -> int {
    sqrt_floor((sum_seq(w) / w.len() as int) * 65536)
}

/// Prepending a statistic adds it to the window sum.
pub proof fn lemma_sum_prepend(u: Seq<int>, e: int)
    ensures
        sum_seq(seq![e] + u) == e + sum_seq(u),
    decreases u.len(),
{
    if u.len() == 0 {
        assert(seq![e] + u =~= seq![e]);
        assert(seq![e].drop_last() =~= Seq::<int>::empty());
        assert(sum_seq(Seq::<int>::empty()) == 0);
        assert(sum_seq(seq![e]) == e);
    } else {
        assert((seq![e] + u).drop_last() =~= seq![e] + u.drop_last());
        assert((seq![e] + u).last() == u.last());
        lemma_sum_prepend(u.drop_last(), e);
    }
}

/// A window of one repeated statistic sums to length times the statistic.
pub proof fn lemma_sum_const(u: Seq<int>, e: int)
    requires
        forall|i: int| 0 <= i < u.len() ==> u[i] == e,
    ensures
        sum_seq(u) == u.len() * e,
    decreases u.len(),
{
    if u.len() == 0 {
    } else {
        lemma_sum_const(u.drop_last(), e);
        assert((u.len() - 1) * e + e == u.len() * e) by (nonlinear_arith);
    }
}

/// Elementwise bounds carry to the window sum.
pub proof fn lemma_sum_bounds(u: Seq<int>, hi: int)
    requires
        0 <= hi,
        forall|i: int| 0 <= i < u.len() ==> 0 <= #[trigger] u[i] <= hi,
    ensures
        0 <= sum_seq(u) <= u.len() * hi,
    decreases u.len(),
{
    if u.len() == 0 {
    } else {
        lemma_sum_bounds(u.drop_last(), hi);
        assert((u.len() - 1) * hi + hi == u.len() * hi) by (nonlinear_arith);
    }
}

/// The window maximum bounds every entry and is attained by one of them.
pub proof fn lemma_seq_max_props(u: Seq<int>)
    requires
        u.len() >= 1,
        forall|i: int| 0 <= i < u.len() ==> #[trigger] u[i] >= 0,
    ensures
        forall|i: int| 0 <= i < u.len() ==> #[trigger] u[i] <= seq_max(u),
        exists|i: int| 0 <= i < u.len() && u[i] == seq_max(u),
    decreases u.len(),
{
    if u.len() == 1 {
        assert(u.drop_last().len() == 0);
        assert(seq_max(u.drop_last()) == 0);
        assert(u[0] == seq_max(u));
    } else {
        lemma_seq_max_props(u.drop_last());
        assert forall|i: int| 0 <= i < u.len() implies #[trigger] u[i] <= seq_max(u) by {
            if i < u.len() - 1 {
                assert(u.drop_last()[i] == u[i]);
            }
        }
        if u.last() > seq_max(u.drop_last()) {
            assert(u[u.len() - 1] == seq_max(u));
        } else {
            let j = choose|i: int|
                0 <= i < u.drop_last().len() && u.drop_last()[i] == seq_max(u.drop_last());
            assert(u[j] == seq_max(u));
        }
    }
}

/// An energy statistic of a well-formed sample stays within one channel's
/// share of `ENERGY_MAX`.
pub proof fn lemma_energy_term(s: int)
    requires
        -AMP_MAX <= s <= AMP_MAX,
    ensures
        0 <= div_one(s * s) <= 4294967296,
{
    assert(0 <= s * s <= 281474976710656) by (nonlinear_arith)
        requires
            -16777216 <= s <= 16777216,
    ;
    lemma_div_mod_witness(0, 65536, 0, 0);
    lemma_div_mod_witness(281474976710656, 65536, 4294967296, 0);
    lemma_div_is_ordered(0, s * s, 65536);
    lemma_div_is_ordered(s * s, 281474976710656, 65536);
}

/// Over a window holding only the energy of one sample `v` whose square
/// carries no fractional Q16 part, the RMS answer is exactly the sample's
/// magnitude: once such a constant input has filled the window, the
/// detector reports `|v|`. (For a sample whose square does carry a
/// fractional part — `v == 1`, say — the quantized energy rounds down and
/// the answer sits just below `|v|`.)
pub proof fn lemma_rms_constant_window(v: int, w: Seq<int>)
    requires
        w.len() >= 1,
        -AMP_MAX <= v <= AMP_MAX,
        (v * v) % 65536 == 0,
        forall|i: int| 0 <= i < w.len() ==> w[i] == div_one(v * v),
    ensures
        rms_output(w) == abs_val(v),
{
    let e = div_one(v * v);
    assert(v * v >= 0) by (nonlinear_arith);
    lemma_fundamental_div_mod(v * v, 65536);
    assert(v * v == 65536 * e);
    lemma_sum_const(w, e);
    assert(0 <= e) by {
        assert(0 <= (v * v) / 65536 * 65536 + 0) by (nonlinear_arith)
            requires
                v * v == 65536 * ((v * v) / 65536),
                0 <= v * v,
        ;
    }
    lemma_div_multiples_vanish(e, w.len() as int);
    assert(sum_seq(w) / w.len() as int == e);
    assert(e * 65536 == v * v);
    let av = abs_val(v);
    assert(is_isqrt(v * v, av)) by {
        assert(av * av == v * v && v * v < (av + 1) * (av + 1)) by (nonlinear_arith)
            requires
                av == abs_val(v),
                0 <= av,
                (v >= 0 ==> av == v) && (v < 0 ==> av == -v),
        ;
    }
    lemma_sqrt_floor_witness(v * v, av);
}

/// One detector step slides the window exactly as one push into a full
/// ring buffer does.
pub proof fn lemma_window_step_is_push(w: Seq<int>, m: int)
    requires
        w.len() >= 1,
    ensures
        seq![m] + w.drop_last() == push_model(w, w.len(), m),
{
    assert(seq![m] + w.drop_last() =~= push_model(w, w.len(), m));
}

/// Feeding a full peak window any run of at least `W` magnitudes leaves
/// the answer at the maximum over exactly the last `W` of them — also
/// after an earlier maximum has aged out of the window.
pub proof fn lemma_peak_sliding_window(w0: Seq<int>, cap: nat, ms: Seq<int>)
    requires
        cap >= 1,
        w0.len() == cap,
        ms.len() >= cap,
        forall|i: int| 0 <= i < ms.len() ==> #[trigger] ms[i] >= 0,
    ensures
        forall|i: int|
            ms.len() - cap <= i < ms.len() ==> #[trigger] ms[i] <= seq_max(
                push_all(w0, cap, ms),
            ),
        exists|i: int|
            ms.len() - cap <= i < ms.len() && ms[i] == seq_max(push_all(w0, cap, ms)),
{
    crate::ring::lemma_push_all_retains_latest(w0, cap, ms);
    let u = push_all(w0, cap, ms);
    assert(forall|j: int| 0 <= j < cap ==> #[trigger] u[j] >= 0) by {
        assert(forall|j: int| 0 <= j < cap ==> #[trigger] u[j] == ms[ms.len() - 1 - j]);
    }
    lemma_seq_max_props(u);
    assert forall|i: int| ms.len() - cap <= i < ms.len() implies #[trigger] ms[i] <= seq_max(
        u,
    ) by {
        assert(u[ms.len() - 1 - i] == ms[i]);
    }
    let j = choose|j: int| 0 <= j < u.len() && u[j] == seq_max(u);
    assert(ms[ms.len() - 1 - j] == seq_max(u));
}

/// A stateful per-frame statistic over a sliding window.
///
/// `window()` is the retained statistics, most recent first, always at its
/// fixed length; `measure` folds one frame to a statistic and `output`
/// folds the window to the answer.
pub trait Detect: Sized {
    /// The implementation's internal invariant.
    spec fn inv(&self) -> bool;

    /// The fixed arity of accepted frames.
    spec fn chans(&self) -> nat;

    /// The retained statistics, most recent first.
    spec fn window(&self) -> Seq<int>;

    /// The statistic of one frame.
    spec fn measure(f: Seq<int>) -> int;

    /// The answer over a window.
    spec fn output(w: Seq<int>) -> int;

    /// Absorb one frame — the window slides by one — and answer the
    /// statistic over the new window.
    fn detect(&mut self, f: &Frame) -> (r: i64)
        requires
            old(self).inv(),
            f@.len() == old(self).chans(),
            frame_ok(f@),
        ensures
            final(self).inv(),
            final(self).chans() == old(self).chans(),
            final(self).window() == seq![Self::measure(f@)] + old(self).window().drop_last(),
            final(self).window().len() == old(self).window().len(),
            r == Self::output(final(self).window()),
            0 <= r <= DETECT_MAX,
    ;
}

/// Root-mean-square detector: windowed squared magnitudes with an O(1)
/// incremental running sum.
pub struct Rms {
    win: CircularBuffer<i64>,
    sum: i64,
    arity: usize,
}

impl Rms {
    /// Build an RMS detector of frame arity `arity` over a window of `window`
    /// statistics, initially all silence.
    pub fn new(arity: usize, window: usize) -> (r: Rms)
        requires
            1 <= arity <= CHANNELS_MAX,
            1 <= window <= WINDOW_MAX,
        ensures
            r.inv(),
            r.chans() == arity as nat,
            r.window() == Seq::new(window as nat, |i: int| 0int),
    {
        let mut init: Vec<i64> = Vec::new();
        let mut i: usize = 0;
        while i < window
            invariant
                i <= window,
                init@.len() == i,
                forall|j: int| 0 <= j < i ==> init@[j] == 0i64,
            decreases window - i,
        {
            init.push(0);
            i = i + 1;
        }
        let win = CircularBuffer::from_vec(init);
        let r = Rms { win, sum: 0, arity };
        proof {
            assert(r.window() =~= Seq::new(window as nat, |j: int| 0int));
            lemma_sum_const(r.window(), 0);
            assert(r.window().len() * 0 == 0) by (nonlinear_arith);
        }
        r
    }
}

impl Detect for Rms {
    closed spec fn inv(&self) -> bool {
        &&& self.win.well_formed()
        &&& self.win@.len() == self.win.cap()
        &&& 1 <= self.win.cap() <= WINDOW_MAX
        &&& 1 <= self.arity <= CHANNELS_MAX
        &&& forall|i: int|
            0 <= i < self.win@.len() ==> 0 <= #[trigger] self.win@[i] <= ENERGY_MAX
        &&& self.sum == sum_seq(stats_view(self.win@))
        &&& 0 <= self.sum <= 72057594037927936
    }

    closed spec fn chans(&self) -> nat {
        self.arity as nat
    }

    closed spec fn window(&self) -> Seq<int> {
        stats_view(self.win@)
    }

    open spec fn measure(f: Seq<int>) -> int {
        frame_energy(f)
    }

    open spec fn output(w: Seq<int>) -> int {
        rms_output(w)
    }

    fn detect(&mut self, f: &Frame) -> (r: i64) {
        let n = f.channels();
        let mut e: i64 = 0;
        let mut c: usize = 0;
        while c < n
            invariant
                n == f@.len(),
                frame_ok(f@),
                c <= n,
                n <= CHANNELS_MAX,
                e == energy_prefix(f@, c as nat),
                0 <= e <= c * 4294967296,
            decreases n - c,
        {
            let s = f.get(c);
            proof {
                assert(sample_ok(f@[c as int]));
                assert(0 <= (s as int) * (s as int) <= 281474976710656) by (nonlinear_arith)
                    requires
                        -16777216 <= s as int <= 16777216,
                ;
                lemma_energy_term(s as int);
            }
            e = e + div_unit(s * s);
            c = c + 1;
        }
        let cap = self.win.capacity();
        let evicted = *self.win.get(cap - 1);
        let ghost oldwin = stats_view(self.win@);
        self.win.push(e);
        proof {
            assert(oldwin.drop_last() =~= stats_view(old(self).win@.take(cap - 1)));
            assert(stats_view(self.win@) =~= seq![e as int] + oldwin.drop_last());
            assert(sum_seq(oldwin) == sum_seq(oldwin.drop_last()) + evicted);
            lemma_sum_prepend(oldwin.drop_last(), e as int);
            assert(forall|i: int|
                0 <= i < self.win@.len() ==> 0 <= #[trigger] self.win@[i] <= ENERGY_MAX);
            lemma_sum_bounds(stats_view(self.win@), 1099511627776);
            assert(stats_view(self.win@).len() * 1099511627776 <= 72057594037927936)
                by (nonlinear_arith)
                requires
                    stats_view(self.win@).len() <= 65536,
            ;
        }
        self.sum = self.sum - evicted + e;
        let mean = ((self.sum as u64) / (cap as u64)) as i64;
        proof {
            let w = stats_view(self.win@);
            lemma_sum_bounds(w, 1099511627776);
            assert(w.len() as int * 1099511627776 == (cap as int) * 1099511627776);
            lemma_div_is_ordered(
                sum_seq(w),
                (cap as int) * 1099511627776,
                cap as int,
            );
            lemma_div_multiples_vanish(1099511627776, cap as int);
            lemma_div_is_ordered(0, sum_seq(w), cap as int);
            lemma_div_mod_witness(0, cap as int, 0, 0);
        }
        let root = isqrt((mean as u64) * 65536);
        proof {
            let nv = (mean as int) * 65536;
            lemma_isqrt_lt(nv, root as int, 268435457);
            assert(268435457 * 268435457 > 72057594037927936 * 65536 / 65536)
                by (nonlinear_arith);
            assert(nv < 268435457 * 268435457) by (nonlinear_arith)
                requires
                    0 <= mean as int <= 1099511627776,
                    nv == (mean as int) * 65536,
            ;
            lemma_sqrt_floor_witness(nv, root as int);
        }
        root as i64
    }
}

/// Peak detector: windowed absolute magnitudes, answered by rescanning the
/// window for its maximum (O(W) per frame).
pub struct Peak {
    win: CircularBuffer<i64>,
    arity: usize,
}

impl Peak {
    /// Build a peak detector of frame arity `arity` over a window of
    /// `window` statistics, initially all silence.
    pub fn new(arity: usize, window: usize) -> (r: Peak)
        requires
            1 <= arity <= CHANNELS_MAX,
            1 <= window <= WINDOW_MAX,
        ensures
            r.inv(),
            r.chans() == arity as nat,
            r.window() == Seq::new(window as nat, |i: int| 0int),
    {
        let mut init: Vec<i64> = Vec::new();
        let mut i: usize = 0;
        while i < window
            invariant
                i <= window,
                init@.len() == i,
                forall|j: int| 0 <= j < i ==> init@[j] == 0i64,
            decreases window - i,
        {
            init.push(0);
            i = i + 1;
        }
        let win = CircularBuffer::from_vec(init);
        let r = Peak { win, arity };
        proof {
            assert(r.window() =~= Seq::new(window as nat, |j: int| 0int));
        }
        r
    }
}

impl Detect for Peak {
    closed spec fn inv(&self) -> bool {
        &&& self.win.well_formed()
        &&& self.win@.len() == self.win.cap()
        &&& 1 <= self.win.cap() <= WINDOW_MAX
        &&& 1 <= self.arity <= CHANNELS_MAX
        &&& forall|i: int| 0 <= i < self.win@.len() ==> 0 <= #[trigger] self.win@[i] <= AMP_MAX
    }

    closed spec fn chans(&self) -> nat {
        self.arity as nat
    }

    closed spec fn window(&self) -> Seq<int> {
        stats_view(self.win@)
    }

    open spec fn measure(f: Seq<int>) -> int {
        frame_magnitude(f)
    }

    open spec fn output(w: Seq<int>) -> int {
        seq_max(w)
    }

    fn detect(&mut self, f: &Frame) -> (r: i64) {
        let n = f.channels();
        let mut m: i64 = 0;
        let mut c: usize = 0;
        while c < n
            invariant
                n == f@.len(),
                frame_ok(f@),
                c <= n,
                m == mag_prefix(f@, c as nat),
                0 <= m <= AMP_MAX,
            decreases n - c,
        {
            let s = f.get(c);
            proof {
                assert(sample_ok(f@[c as int]));
            }
            let a: i64 = if s >= 0 {
                s
            } else {
                -s
            };
            if a > m {
                m = a;
            }
            c = c + 1;
        }
        self.win.push(m);
        proof {
            assert(stats_view(self.win@) =~= seq![m as int] + stats_view(
                old(self).win@,
            ).drop_last());
            assert(forall|i: int|
                0 <= i < self.win@.len() ==> 0 <= #[trigger] self.win@[i] <= AMP_MAX);
        }
        let cap = self.win.capacity();
        let ghost w = stats_view(self.win@);
        let mut best: i64 = 0;
        let mut j: usize = 0;
        while j < cap
            invariant
                self.inv(),
                cap == self.win.cap(),
                w == stats_view(self.win@),
                j <= cap,
                best == seq_max(w.take(j as int)),
                0 <= best <= AMP_MAX,
            decreases cap - j,
        {
            let v = *self.win.get(j);
            proof {
                assert(w.take(j as int + 1).drop_last() =~= w.take(j as int));
                assert(w.take(j as int + 1).last() == w[j as int]);
            }
            if v > best {
                best = v;
            }
            j = j + 1;
        }
        proof {
            assert(w.take(cap as int) =~= w);
        }
        best
    }
}

} // verus!
