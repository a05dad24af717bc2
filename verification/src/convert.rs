//! Rate conversion: re-times a source [`Signal`] through an
//! [`Interpolator`] at an arbitrary source-to-target ratio.
//!
//! The ratio and the phase accumulator are Q16 fixed-point values
//! ([`PHASE_ONE`] stands for `1.0`). Each output first drains whole steps
//! from the accumulator — pulling exactly `floor(phase)` source frames into
//! the kernel — then answers the kernel's query at the remaining fraction
//! and adds the ratio back. The contracts below pin that bookkeeping
//! exactly: which frames were pulled, what the kernel window became, and
//! which fraction the output was taken at.
//!
//! The converter offers the same pull interface as a [`Signal`] — `next`
//! and `is_exhausted` — with that exact per-step contract; it is not
//! itself an implementation of the trait, whose model fixes a producer's
//! whole remaining output up front.

use crate::frame::{frame_bounded, Frame};
use crate::interp::Interpolator;
use crate::num::{lemma_div_mod_witness, OUT_MAX};
use crate::signal::{head_or_silence, tail_rem, Signal};
use vstd::prelude::*;

verus! {

/// Q16 representation of the phase step `1.0`.
pub const PHASE_ONE: u64 = 65536;

/// Largest accepted Q16 conversion ratio: everything the `u64` phase
/// accumulator can absorb, one phase step of slack below `u64::MAX`, so
/// that adding the ratio to a reduced fraction never wraps. Construction
/// rejects only a ratio above this, or one at or below zero.
pub const RATIO_MAX: u64 = u64::MAX - 65536;

/// The frames `n` consecutive pulls take from a signal whose meaningful
/// remainder is `rem`: the head of the remainder, then silence once it runs
/// out.
pub open spec fn frames_out(rem: Seq<Seq<int>>, chans: nat, n: nat) -> Seq<Seq<int>>
    decreases n,
{
    if n == 0 {
        Seq::empty()
    } else {
        seq![head_or_silence(rem, chans)] + frames_out(tail_rem(rem), chans, (n - 1) as nat)
    }
}

/// The meaningful remainder left after `n` pulls.
pub open spec fn rem_after(rem: Seq<Seq<int>>, n: nat) -> Seq<Seq<int>>
    decreases n,
{
    if n == 0 {
        rem
    } else {
        rem_after(tail_rem(rem), (n - 1) as nat)
    }
}

/// A kernel window `h` after absorbing the frames `fs` in order: each frame
/// enters in front and the oldest retained frame leaves.
pub open spec fn hist_after(h: Seq<Seq<int>>, fs: Seq<Seq<int>>) -> Seq<Seq<int>>
    decreases fs.len(),
{
    if fs.len() == 0 {
        h
    } else {
        hist_after(seq![fs[0]] + h.drop_last(), fs.skip(1))
    }
}

/// Pulling once more appends the head of what the previous pulls left.
pub proof fn lemma_frames_out_snoc(rem: Seq<Seq<int>>, chans: nat, n: nat)
    ensures
        frames_out(rem, chans, n + 1) == frames_out(rem, chans, n).push(
            head_or_silence(rem_after(rem, n), chans),
        ),
        rem_after(rem, n + 1) == tail_rem(rem_after(rem, n)),
    decreases n,
{
    if n == 0 {
        assert(frames_out(tail_rem(rem), chans, 0) == Seq::<Seq<int>>::empty());
        assert(rem_after(tail_rem(rem), 0) == tail_rem(rem));
        assert(rem_after(rem, 1) == tail_rem(rem_after(rem, 0)));
        assert(frames_out(rem, chans, 1) =~= frames_out(rem, chans, 0).push(
            head_or_silence(rem_after(rem, 0), chans),
        ));
    } else {
        lemma_frames_out_snoc(tail_rem(rem), chans, (n - 1) as nat);
        assert(rem_after(rem, n + 1) == rem_after(tail_rem(rem), n));
        assert(rem_after(rem, n) == rem_after(tail_rem(rem), (n - 1) as nat));
        assert(frames_out(rem, chans, n + 1) =~= frames_out(rem, chans, n).push(
            head_or_silence(rem_after(rem, n), chans),
        ));
    }
}

/// Absorbing one more frame shifts the absorbed window by one position.
pub proof fn lemma_hist_after_snoc(h: Seq<Seq<int>>, fs: Seq<Seq<int>>, f: Seq<int>)
    ensures
        hist_after(h, fs.push(f)) == seq![f] + hist_after(h, fs).drop_last(),
    decreases fs.len(),
{
    if fs.len() == 0 {
        assert(fs.push(f)[0] == f);
        assert(fs.push(f).skip(1) =~= Seq::<Seq<int>>::empty());
        assert(hist_after(seq![f] + h.drop_last(), Seq::<Seq<int>>::empty()) == seq![f]
            + h.drop_last());
        assert(hist_after(h, fs.push(f)) == seq![f] + h.drop_last());
    } else {
        let h1 = seq![fs[0]] + h.drop_last();
        assert(fs.push(f)[0] == fs[0]);
        assert(fs.push(f).skip(1) =~= fs.skip(1).push(f));
        lemma_hist_after_snoc(h1, fs.skip(1), f);
    }
}

/// The phase accumulator before the `n + 1`-th output of a fresh
/// converter with Q16 ratio `r`, as `next` drives it: reduced modulo one
/// step, then advanced by the ratio.
pub open spec fn phase_after(r: nat, n: nat) -> nat
    decreases n,
{
    if n == 0 {
        0
    } else {
        phase_after(r, (n - 1) as nat) % 65536 + r
    }
}

/// How many source frames the first `n` outputs of a fresh converter with
/// Q16 ratio `r` pull in total.
pub open spec fn pulls_through(r: nat, n: nat) -> nat
    decreases n,
{
    if n == 0 {
        0
    } else {
        pulls_through(r, (n - 1) as nat) + phase_after(r, (n - 1) as nat) / 65536
    }
}

/// Phase-accumulator correctness: the accumulator never drifts. Before
/// the `n + 1`-th output it holds exactly the fractional part of
/// `(n - 1) * ratio` plus one ratio step, and the first `n` outputs have
/// consumed exactly `floor((n - 1) * ratio)` source frames — the
/// bookkeeping that keeps repeated up- and down-conversions aligned.
pub proof fn lemma_phase_accumulator(r: nat, n: nat)
    requires
        n >= 1,
    ensures
        phase_after(r, n) == ((n - 1) * r) % 65536 + r,
        pulls_through(r, n) == ((n - 1) * r) / 65536,
    decreases n,
{
    if n == 1 {
        lemma_div_mod_witness(0, 65536, 0, 0);
        assert((0 * r) % 65536 == 0) by (nonlinear_arith);
        assert((0 * r) / 65536 == 0) by (nonlinear_arith);
        assert(phase_after(r, 0) % 65536 == 0);
        assert(pulls_through(r, 1) == pulls_through(r, 0) + phase_after(r, 0) / 65536);
        assert(phase_after(r, 0) / 65536 == 0);
    } else {
        lemma_phase_accumulator(r, (n - 1) as nat);
        let a = (n - 2) * r;
        let q = a / 65536;
        let s = a % 65536;
        vstd::arithmetic::div_mod::lemma_fundamental_div_mod(a, 65536);
        // The next reduction folds the carried fraction back in.
        vstd::arithmetic::div_mod::lemma_mod_multiples_vanish(q, s + r, 65536);
        assert((65536 * q + (s + r)) % 65536 == (s + r) % 65536);
        assert(a + r == 65536 * q + (s + r));
        assert(((n - 1) * r) == a + r) by (nonlinear_arith)
            requires
                a == (n - 2) * r,
                n >= 2,
        ;
        assert(phase_after(r, n) == ((n - 1) * r) % 65536 + r);
        // And the pulled whole steps hoist out of the division.
        vstd::arithmetic::div_mod::lemma_hoist_over_denominator(s + r, q, 65536);
        assert((s + r) / 65536 + q == (s + r + q * 65536) / 65536);
        assert(s + r + q * 65536 == a + r);
        assert(pulls_through(r, n) == pulls_through(r, (n - 1) as nat) + phase_after(
            r,
            (n - 1) as nat,
        ) / 65536);
        assert(pulls_through(r, (n - 1) as nat) == q);
        assert(phase_after(r, (n - 1) as nat) == s + r);
        assert(pulls_through(r, n) == (a + r) / 65536);
    }
}

/// Re-times the frames of `source` through `interpolator` at a fixed
/// source-to-target ratio.
pub struct Converter<S: Signal, I: Interpolator> {
    source: S,
    interpolator: I,
    /// Q16 fractional progress toward needing the next source frame.
    phase: u64,
    /// Q16 source-to-target ratio; `> 1.0` downsamples, `< 1.0` upsamples.
    ratio: u64,
}

impl<S: Signal, I: Interpolator> Converter<S, I> {
    /// The wrapped source.
    pub closed spec fn source_spec(&self) -> S {
        self.source
    }

    /// The wrapped kernel.
    pub closed spec fn kernel_spec(&self) -> I {
        self.interpolator
    }

    /// The current phase accumulator, in Q16 steps.
    pub closed spec fn phase_spec(&self) -> nat {
        self.phase as nat
    }

    /// The current ratio, in Q16 steps.
    pub closed spec fn ratio_spec(&self) -> nat {
        self.ratio as nat
    }

    /// The source's meaningful remainder.
    pub open spec fn rem_spec(&self) -> Seq<Seq<int>> {
        self.source_spec().remaining()
    }

    /// The kernel's retained window.
    pub open spec fn hist_spec(&self) -> Seq<Seq<int>> {
        self.kernel_spec().hist()
    }

    /// The common arity of source and kernel.
    pub open spec fn chans_spec(&self) -> nat {
        self.source_spec().chans()
    }

    /// The frame the kernel would answer at fraction `x`.
    pub open spec fn interp_at_spec(&self, x: int) -> Seq<int> {
        self.kernel_spec().interp_at(x)
    }

    /// The converter's invariant: both halves are well formed, agree on
    /// arity, the ratio is in range and the accumulator never runs away.
    pub open spec fn inv(&self) -> bool {
        &&& self.source_spec().inv()
        &&& self.kernel_spec().inv()
        &&& self.source_spec().chans() == self.kernel_spec().chans()
        &&& 1 <= self.ratio_spec() <= RATIO_MAX
        &&& self.phase_spec() < PHASE_ONE + RATIO_MAX
    }

    /// Build a converter that multiplies the playback rate by the Q16
    /// factor `scale`; rejects a factor of zero or one beyond `RATIO_MAX`.
    pub fn scale_playback_hz(source: S, interpolator: I, scale: u64) -> (r: Option<
        Converter<S, I>,
    >)
        requires
            source.inv(),
            interpolator.inv(),
            source.chans() == interpolator.chans(),
        ensures
            (r is Some) == (1 <= scale <= RATIO_MAX),
            r matches Some(c) ==> ({
                &&& c.inv()
                &&& c.source_spec() == source
                &&& c.kernel_spec() == interpolator
                &&& c.phase_spec() == 0
                &&& c.ratio_spec() == scale as nat
            }),
    {
        if scale >= 1 && scale <= RATIO_MAX {
            Some(Converter { source, interpolator, phase: 0, ratio: scale })
        } else {
            None
        }
    }

    /// Build a converter from the source and target sample rates in Hz;
    /// the ratio becomes `source_hz / target_hz`, rejected when it rounds
    /// to zero or overruns `RATIO_MAX`.
    pub fn from_hz_to_hz(source: S, interpolator: I, source_hz: u64, target_hz: u64) -> (r:
        Option<Converter<S, I>>)
        requires
            source.inv(),
            interpolator.inv(),
            source.chans() == interpolator.chans(),
            source_hz <= 281474976710655,
        ensures
            (r is Some) == (target_hz >= 1 && 1 <= source_hz * 65536 / target_hz as int
                <= RATIO_MAX),
            r matches Some(c) ==> ({
                &&& c.inv()
                &&& c.source_spec() == source
                &&& c.kernel_spec() == interpolator
                &&& c.phase_spec() == 0
                &&& c.ratio_spec() == source_hz * 65536 / target_hz as int
            }),
    {
        if target_hz == 0 {
            None
        } else {
            let scale = (source_hz * 65536) / target_hz;
            Self::scale_playback_hz(source, interpolator, scale)
        }
    }

    /// Build a converter that multiplies the sample rate by the Q16 factor
    /// `scale`: the playback ratio becomes its reciprocal.
    pub fn scale_sample_hz(source: S, interpolator: I, scale: u64) -> (r: Option<
        Converter<S, I>,
    >)
        requires
            source.inv(),
            interpolator.inv(),
            source.chans() == interpolator.chans(),
        ensures
            (r is Some) == (scale >= 1 && 4294967296int / scale as int >= 1),
            r matches Some(c) ==> ({
                &&& c.inv()
                &&& c.source_spec() == source
                &&& c.kernel_spec() == interpolator
                &&& c.phase_spec() == 0
                &&& c.ratio_spec() == 4294967296int / scale as int
            }),
    {
        if scale == 0 {
            None
        } else {
            Self::scale_playback_hz(source, interpolator, 4294967296u64 / scale)
        }
    }

    /// Change the ratio live from source and target rates in Hz; touches
    /// nothing but the stored ratio.
    pub fn set_hz_to_hz(&mut self, source_hz: u64, target_hz: u64)
        requires
            old(self).inv(),
            source_hz <= 281474976710655,
            target_hz >= 1,
            1 <= source_hz * 65536 / target_hz as int <= RATIO_MAX,
        ensures
            final(self).inv(),
            final(self).ratio_spec() == source_hz * 65536 / target_hz as int,
            final(self).source_spec() == old(self).source_spec(),
            final(self).kernel_spec() == old(self).kernel_spec(),
            final(self).phase_spec() == old(self).phase_spec(),
    {
        self.set_playback_hz_scale((source_hz * 65536) / target_hz);
    }

    /// Change the playback-rate multiplier live; touches nothing but the
    /// stored ratio.
    pub fn set_playback_hz_scale(&mut self, scale: u64)
        requires
            old(self).inv(),
            1 <= scale <= RATIO_MAX,
        ensures
            final(self).inv(),
            final(self).ratio_spec() == scale as nat,
            final(self).source_spec() == old(self).source_spec(),
            final(self).kernel_spec() == old(self).kernel_spec(),
            final(self).phase_spec() == old(self).phase_spec(),
    {
        self.ratio = scale;
    }

    /// Change the sample-rate multiplier live; the stored ratio becomes its
    /// reciprocal, and nothing else moves.
    pub fn set_sample_hz_scale(&mut self, scale: u64)
        requires
            old(self).inv(),
            scale >= 1,
            4294967296int / scale as int >= 1,
        ensures
            final(self).inv(),
            final(self).ratio_spec() == 4294967296int / scale as int,
            final(self).source_spec() == old(self).source_spec(),
            final(self).kernel_spec() == old(self).kernel_spec(),
            final(self).phase_spec() == old(self).phase_spec(),
    {
        self.set_playback_hz_scale(4294967296u64 / scale);
    }

    /// Borrow the wrapped source.
    pub fn source(&self) -> (r: &S)
        ensures
            *r == self.source_spec(),
    {
        &self.source
    }

    /// Mutably borrow the wrapped source; the caller is responsible for
    /// leaving it well formed and at the same arity.
    pub fn source_mut(&mut self) -> (r: &mut S)
        ensures
            *r == old(self).source_spec(),
            final(self).source_spec() == *final(r),
            final(self).kernel_spec() == old(self).kernel_spec(),
            final(self).phase_spec() == old(self).phase_spec(),
            final(self).ratio_spec() == old(self).ratio_spec(),
    {
        &mut self.source
    }

    /// Drop the converter and hand back its source.
    pub fn into_source(self) -> (r: S)
        ensures
            r == self.source_spec(),
    {
        self.source
    }

    /// Produce the next re-timed frame: drain whole phase steps by pulling
    /// `floor(phase)` source frames into the kernel, answer the kernel at
    /// the remaining fraction, then advance the accumulator by the ratio.
    pub fn next(&mut self) -> (out: Frame)
        requires
            old(self).inv(),
        ensures
            final(self).inv(),
            final(self).ratio_spec() == old(self).ratio_spec(),
            final(self).chans_spec() == old(self).chans_spec(),
            final(self).rem_spec() == rem_after(
                old(self).rem_spec(),
                old(self).phase_spec() / 65536,
            ),
            final(self).hist_spec() == hist_after(
                old(self).hist_spec(),
                frames_out(
                    old(self).rem_spec(),
                    old(self).chans_spec(),
                    old(self).phase_spec() / 65536,
                ),
            ),
            final(self).phase_spec() == old(self).phase_spec() % 65536
                + old(self).ratio_spec(),
            out@ == final(self).interp_at_spec((old(self).phase_spec() % 65536) as int),
            out@.len() == old(self).chans_spec(),
            frame_bounded(out@, OUT_MAX as int),
    {
        let ghost orem = self.source.remaining();
        let ghost ohist = self.interpolator.hist();
        let ghost ophase = self.phase as nat;
        let ghost cs = self.source.chans();
        let ghost mut pulled: nat = 0;
        while self.phase >= PHASE_ONE
            invariant
                self.source.inv(),
                self.interpolator.inv(),
                self.source.chans() == cs,
                self.interpolator.chans() == cs,
                self.ratio == old(self).ratio,
                self.phase as int == ophase as int - pulled * 65536,
                self.source.remaining() == rem_after(orem, pulled),
                self.interpolator.hist() == hist_after(ohist, frames_out(orem, cs, pulled)),
            decreases self.phase,
        {
            let f = self.source.next();
            self.interpolator.next_source_frame(f);
            self.phase = self.phase - PHASE_ONE;
            proof {
                lemma_frames_out_snoc(orem, cs, pulled);
                lemma_hist_after_snoc(ohist, frames_out(orem, cs, pulled), f@);
                pulled = pulled + 1;
            }
        }
        proof {
            lemma_div_mod_witness(
                ophase as int,
                65536,
                pulled as int,
                self.phase as int,
            );
        }
        let x = self.phase;
        let out = self.interpolator.interpolate(x as i64);
        self.phase = self.phase + self.ratio;
        out
    }

    /// Exhausted once the source has nothing meaningful left and the
    /// accumulator already demands a fresh source frame for the next
    /// output.
    pub fn is_exhausted(&self) -> (b: bool)
        requires
            self.inv(),
        ensures
            b == (self.rem_spec().len() == 0 && self.phase_spec() >= 65536),
    {
        self.source.is_exhausted() && self.phase >= PHASE_ONE
    }
}

} // verus!
