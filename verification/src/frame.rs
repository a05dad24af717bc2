//! The sample and frame model.
//!
//! A sample is a Q16 fixed-point `i64` (see [`crate::num`]); its equilibrium
//! ("silence") value is `0`, and a well-formed sample stays within
//! [`AMP_MAX`]. A [`Frame`] is one time-aligned group of per-channel samples
//! whose arity is fixed at construction.

use crate::num::{mul_frac, scale_frac, AMP_MAX, ONE, SCALE_IN_MAX};
use vstd::arithmetic::div_mod::lemma_div_multiples_vanish;
use vstd::prelude::*;

verus! {

/// A sample magnitude that every component accepts as input.
pub open spec fn sample_ok(s: int) -> bool {
    -AMP_MAX <= s <= AMP_MAX
}

/// Every sample of the frame is well formed.
pub open spec fn frame_ok(f: Seq<int>) -> bool {
    forall|i: int| 0 <= i < f.len() ==> sample_ok(#[trigger] f[i])
}

/// Every sample of the frame stays within magnitude `b`.
pub open spec fn frame_bounded(f: Seq<int>, b: int) -> bool {
    forall|i: int| 0 <= i < f.len() ==> -b <= #[trigger] f[i] <= b
}

/// The equilibrium frame of arity `n`.
pub open spec fn silence_seq(n: nat) -> Seq<int> {
    Seq::new(n, |i: int| 0)
}

/// What a Q16 sample reads back as 16-bit PCM: halved toward zero (full
/// scale `1.0` is `32768` there), saturated at the PCM range ends.
pub open spec fn pcm_of(s: int) -> int {
    let raw = if s >= 0 {
        s / 2
    } else {
        -((-s) / 2)
    };
    if raw > 32767 {
        32767
    } else if raw < -32768 {
        -32768
    } else {
        raw
    }
}

/// Lossless conversion from a 16-bit PCM sample into Q16: full PCM scale
/// becomes `1.0` exactly, so every PCM value maps to twice itself.
pub fn sample_from_i16(v: i16) -> (s: i64)
    ensures
        s == 2 * v as int,
        sample_ok(s as int),
{
    (v as i64) * 2
}

/// Conversion from Q16 back to 16-bit PCM: rounds toward zero and
/// saturates at the representation boundary instead of panicking.
pub fn sample_to_i16(s: i64) -> (v: i16)
    requires
        -SCALE_IN_MAX <= s <= SCALE_IN_MAX,
    ensures
        v as int == pcm_of(s as int),
{
    let raw: i64 = if s >= 0 {
        ((s as u64) / 2) as i64
    } else {
        -(((-s) as u64 / 2) as i64)
    };
    if raw > 32767 {
        32767
    } else if raw < -32768 {
        -32768
    } else {
        raw as i16
    }
}

/// The PCM round trip is lossless: reading a converted PCM sample back
/// gives the sample itself.
pub proof fn lemma_pcm_round_trip(v: int)
    requires
        -32768 <= v <= 32767,
    ensures
        pcm_of(2 * v) == v,
{
    if v >= 0 {
        lemma_div_multiples_vanish(v, 2);
    } else {
        lemma_div_multiples_vanish(-v, 2);
    }
}

/// One time-aligned group of per-channel sample values. The arity (channel
/// count) is fixed when the frame is built and never changes.
#[derive(Clone, Debug, PartialEq, Eq)]
pub struct Frame {
    samples: Vec<i64>,
}

impl View for Frame {
    type V = Seq<int>;

    closed spec fn view(&self) -> Seq<int> {
        self.samples@.map_values(|s: i64| s as int)
    }
}

impl Frame {
    /// Wrap raw per-channel samples as a frame.
    pub fn new(samples: Vec<i64>) -> (f: Frame)
        ensures
            f@.len() == samples@.len(),
            forall|i: int| 0 <= i < samples@.len() ==> f@[i] == samples@[i] as int,
    {
        Frame { samples }
    }

    /// The equilibrium frame of arity `n`.
    pub fn silence(n: usize) -> (f: Frame)
        ensures
            f@ == silence_seq(n as nat),
    {
        let mut v: Vec<i64> = Vec::new();
        let mut i: usize = 0;
        while i < n
            invariant
                i <= n,
                v@.len() == i,
                forall|j: int| 0 <= j < i ==> v@[j] == 0i64,
            decreases n - i,
        {
            v.push(0);
            i = i + 1;
        }
        let f = Frame { samples: v };
        proof {
            assert(f@ =~= silence_seq(n as nat));
        }
        f
    }

    /// How many channels the frame carries.
    pub fn channels(&self) -> (n: usize)
        ensures
            n == self@.len(),
    {
        self.samples.len()
    }

    /// Read the sample of channel `i`.
    pub fn get(&self, i: usize) -> (s: i64)
        requires
            i < self@.len(),
        ensures
            s == self@[i as int],
    {
        self.samples[i]
    }

    /// A fresh frame holding the same samples.
    pub fn duplicate(&self) -> (f: Frame)
        ensures
            f@ == self@,
    {
        let n = self.samples.len();
        let mut v: Vec<i64> = Vec::new();
        let mut i: usize = 0;
        while i < n
            invariant
                i <= n,
                n == self.samples@.len(),
                v@.len() == i,
                forall|j: int| 0 <= j < i ==> v@[j] == self.samples@[j],
            decreases n - i,
        {
            v.push(self.samples[i]);
            i = i + 1;
        }
        let f = Frame { samples: v };
        proof {
            assert(f@ =~= self@);
        }
        f
    }

    /// Per-channel sum of two frames of matching arity.
    pub fn add(&self, other: &Frame) -> (f: Frame)
        requires
            self@.len() == other@.len(),
            frame_ok(self@),
            frame_ok(other@),
        ensures
            f@.len() == self@.len(),
            forall|i: int| 0 <= i < f@.len() ==> f@[i] == self@[i] + other@[i],
            frame_bounded(f@, 2 * AMP_MAX),
    {
        let n = self.samples.len();
        let mut v: Vec<i64> = Vec::new();
        let mut i: usize = 0;
        while i < n
            invariant
                i <= n,
                n == self.samples@.len(),
                self@.len() == other@.len(),
                frame_ok(self@),
                frame_ok(other@),
                v@.len() == i,
                forall|j: int| 0 <= j < i ==> v@[j] == self@[j] + other@[j],
            decreases n - i,
        {
            assert(sample_ok(self@[i as int]) && sample_ok(other@[i as int]));
            v.push(self.samples[i] + other.samples[i]);
            i = i + 1;
        }
        Frame { samples: v }
    }

    /// Per-channel scaling by a Q16 fraction `q` of at most `ONE`, rounding
    /// toward zero.
    pub fn scale(&self, q: i64) -> (f: Frame)
        requires
            frame_ok(self@),
            0 <= q <= ONE,
        ensures
            f@.len() == self@.len(),
            forall|i: int| 0 <= i < f@.len() ==> f@[i] == scale_frac(self@[i], q as int),
            frame_ok(f@),
    {
        let n = self.samples.len();
        let mut v: Vec<i64> = Vec::new();
        let mut i: usize = 0;
        while i < n
            invariant
                i <= n,
                n == self.samples@.len(),
                frame_ok(self@),
                0 <= q <= ONE,
                v@.len() == i,
                forall|j: int| 0 <= j < i ==> v@[j] == scale_frac(self@[j], q as int),
                forall|j: int| 0 <= j < i ==> sample_ok(#[trigger] v@[j] as int),
            decreases n - i,
        {
            assert(sample_ok(self@[i as int]));
            let s = mul_frac(self.samples[i], q);
            proof {
                crate::num::lemma_scale_frac_between(self@[i as int], q as int);
            }
            v.push(s);
            i = i + 1;
        }
        Frame { samples: v }
    }
}

} // verus!
