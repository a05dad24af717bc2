//! Envelope following: asymmetric one-pole smoothing over a detector.
//!
//! An [`EnvelopeFollower`] wraps a [`Detect`] implementation and smooths
//! its per-frame statistic with two Q16 coefficients fixed at
//! construction: when the statistic rises above the envelope the attack
//! coefficient applies, otherwise the release coefficient, per sample. The
//! coefficients are derived from time constants by the surrounding
//! application (one-pole discretization needs an exponential, which is
//! floating-point work); the follower itself only ever applies them.

use crate::detect::{Detect, Peak, Rms, CHANNELS_MAX, WINDOW_MAX};
use crate::frame::{frame_ok, Frame};
use crate::num::{lemma_scale_frac_between, mul_frac, scale_frac, DETECT_MAX, ONE};
use vstd::arithmetic::div_mod::lemma_div_multiples_vanish;
use vstd::prelude::*;

verus! {

/// One smoothing step: move the envelope `e` toward the detector output
/// `d` by the attack fraction when rising, by the release fraction
/// otherwise.
pub open spec fn env_step(e: int, d: int, attack: int, release: int) -> int {
    if d > e {
        e + scale_frac(d - e, attack)
    } else {
        e + scale_frac(d - e, release)
    }
}

/// The envelope after a whole run of detector outputs, folded one
/// `env_step` at a time.
pub open spec fn env_run(e: int, ds: Seq<int>, attack: int, release: int) -> int
    decreases ds.len(),
{
    if ds.len() == 0 {
        e
    } else {
        env_run(env_step(e, ds[0], attack, release), ds.skip(1), attack, release)
    }
}

/// The largest of a starting value and a run of detector outputs.
pub open spec fn run_max(e: int, ds: Seq<int>) -> int
    decreases ds.len(),
{
    if ds.len() == 0 {
        e
    } else {
        run_max(
            if ds[0] > e {
                ds[0]
            } else {
                e
            },
            ds.skip(1),
        )
    }
}

/// With attack coefficient one and release coefficient zero, a step holds
/// the maximum ever seen: it jumps to any larger detector output and never
/// decays.
pub proof fn lemma_env_step_hold_max(e: int, d: int)
    ensures
        env_step(e, d, ONE as int, 0) == (if d > e {
            d
        } else {
            e
        }),
{
    crate::num::lemma_div_mod_witness(0, 65536, 0, 0);
    if d > e {
        lemma_div_multiples_vanish(d - e, 65536);
    }
}

/// With both coefficients one, a step tracks the detector output exactly:
/// no smoothing at all.
pub proof fn lemma_env_step_track(e: int, d: int)
    ensures
        env_step(e, d, ONE as int, ONE as int) == d,
{
    if d > e {
        lemma_div_multiples_vanish(d - e, 65536);
    } else {
        lemma_div_multiples_vanish(e - d, 65536);
    }
}

/// With attack coefficient one and release coefficient zero, a whole run
/// of detector outputs leaves the envelope at the maximum ever seen: the
/// largest of its starting value and every output in the run.
pub proof fn lemma_env_run_hold_max(e: int, ds: Seq<int>)
    ensures
        env_run(e, ds, ONE as int, 0) == run_max(e, ds),
    decreases ds.len(),
{
    if ds.len() > 0 {
        lemma_env_step_hold_max(e, ds[0]);
        lemma_env_run_hold_max(
            if ds[0] > e {
                ds[0]
            } else {
                e
            },
            ds.skip(1),
        );
    }
}

/// With both coefficients one, a whole run of detector outputs leaves the
/// envelope exactly at the last output: no smoothing at all.
pub proof fn lemma_env_run_track(e: int, ds: Seq<int>)
    requires
        ds.len() >= 1,
    ensures
        env_run(e, ds, ONE as int, ONE as int) == ds.last(),
    decreases ds.len(),
{
    lemma_env_step_track(e, ds[0]);
    if ds.len() == 1 {
        assert(ds.skip(1).len() == 0);
        assert(env_run(ds[0], ds.skip(1), ONE as int, ONE as int) == ds[0]);
        assert(ds.last() == ds[0]);
    } else {
        lemma_env_run_track(ds[0], ds.skip(1));
        assert(ds.skip(1).last() == ds.last());
    }
}

/// A detector wrapped in attack/release smoothing; owns the detector, the
/// two coefficients, and the last emitted envelope value. Nothing is ever
/// reset implicitly.
pub struct EnvelopeFollower<D: Detect> {
    detector: D,
    attack: i64,
    release: i64,
    last: i64,
}

impl<D: Detect> EnvelopeFollower<D> {
    /// The wrapped detector.
    pub closed spec fn detector_spec(&self) -> D {
        self.detector
    }

    /// The Q16 attack coefficient.
    pub closed spec fn attack_spec(&self) -> int {
        self.attack as int
    }

    /// The Q16 release coefficient.
    pub closed spec fn release_spec(&self) -> int {
        self.release as int
    }

    /// The last emitted envelope value.
    pub closed spec fn last_spec(&self) -> int {
        self.last as int
    }

    /// The follower's invariant: a well-formed detector, coefficients in
    /// `[0, ONE]`, and an envelope within the detector range.
    pub open spec fn inv(&self) -> bool {
        &&& self.detector_spec().inv()
        &&& 0 <= self.attack_spec() <= ONE
        &&& 0 <= self.release_spec() <= ONE
        &&& 0 <= self.last_spec() <= DETECT_MAX
    }

    /// Wrap `detector` with the given Q16 attack and release coefficients;
    /// the envelope starts at silence.
    pub fn new(detector: D, attack: i64, release: i64) -> (r: EnvelopeFollower<D>)
        requires
            detector.inv(),
            0 <= attack <= ONE,
            0 <= release <= ONE,
        ensures
            r.inv(),
            r.detector_spec() == detector,
            r.attack_spec() == attack as int,
            r.release_spec() == release as int,
            r.last_spec() == 0,
    {
        EnvelopeFollower { detector, attack, release, last: 0 }
    }

    /// Absorb one frame: the detector window slides by one, and the
    /// envelope moves one `env_step` toward the detector's answer.
    pub fn detect(&mut self, f: &Frame) -> (r: i64)
        requires
            old(self).inv(),
            f@.len() == old(self).detector_spec().chans(),
            frame_ok(f@),
        ensures
            final(self).inv(),
            final(self).attack_spec() == old(self).attack_spec(),
            final(self).release_spec() == old(self).release_spec(),
            final(self).detector_spec().chans() == old(self).detector_spec().chans(),
            final(self).detector_spec().window() == seq![D::measure(f@)] + old(
                self,
            ).detector_spec().window().drop_last(),
            final(self).detector_spec().window().len() == old(
                self,
            ).detector_spec().window().len(),
            r == env_step(
                old(self).last_spec(),
                D::output(final(self).detector_spec().window()),
                old(self).attack_spec(),
                old(self).release_spec(),
            ),
            final(self).last_spec() == r,
            0 <= r <= DETECT_MAX,
    {
        let d = self.detector.detect(f);
        let e = self.last;
        let r = if d > e {
            proof {
                lemma_scale_frac_between((d - e) as int, self.attack as int);
            }
            e + mul_frac(d - e, self.attack)
        } else {
            proof {
                lemma_scale_frac_between((d - e) as int, self.release as int);
            }
            e + mul_frac(d - e, self.release)
        };
        self.last = r;
        r
    }
}

impl EnvelopeFollower<Rms> {
    /// An RMS-backed follower over a fresh silence window.
    pub fn rms(arity: usize, window: usize, attack: i64, release: i64) -> (r:
        EnvelopeFollower<Rms>)
        requires
            1 <= arity <= CHANNELS_MAX,
            1 <= window <= WINDOW_MAX,
            0 <= attack <= ONE,
            0 <= release <= ONE,
        ensures
            r.inv(),
            r.detector_spec().chans() == arity as nat,
            r.detector_spec().window() == Seq::new(window as nat, |i: int| 0int),
            r.attack_spec() == attack as int,
            r.release_spec() == release as int,
            r.last_spec() == 0,
    {
        Self::new(Rms::new(arity, window), attack, release)
    }
}

impl EnvelopeFollower<Peak> {
    /// A peak-backed follower over a fresh silence window.
    pub fn peak(arity: usize, window: usize, attack: i64, release: i64) -> (r:
        EnvelopeFollower<Peak>)
        requires
            1 <= arity <= CHANNELS_MAX,
            1 <= window <= WINDOW_MAX,
            0 <= attack <= ONE,
            0 <= release <= ONE,
        ensures
            r.inv(),
            r.detector_spec().chans() == arity as nat,
            r.detector_spec().window() == Seq::new(window as nat, |i: int| 0int),
            r.attack_spec() == attack as int,
            r.release_spec() == release as int,
            r.last_spec() == 0,
    {
        Self::new(Peak::new(arity, window), attack, release)
    }
}

} // verus!
