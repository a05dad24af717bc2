//! The interpolation kernels behind rate conversion.
//!
//! An [`Interpolator`] retains a fixed-length window of recent source frames
//! (`hist()`, most recent first) and answers `interpolate(x)` for any Q16
//! fraction `x` in `[0, ONE)` purely from that window. `next_source_frame`
//! shifts the window by exactly one frame; `reset` returns it to silence.
//!
//! [`Floor`] retains one frame (zero-order hold); [`Linear`] retains two and
//! blends them; the windowed-sinc kernel lives in [`crate::sinc`].

use crate::frame::{frame_bounded, frame_ok, sample_ok, silence_seq, Frame};
use crate::num::{lemma_scale_frac_between, mul_frac, scale_frac, AMP_MAX, ONE, OUT_MAX};
use vstd::prelude::*;

verus! {

/// Linear blend between `a` and `b` at Q16 fraction `x`, rounding toward
/// zero: `a + (b - a) * x`.
pub open spec fn lerp(a: int, b: int, x: int) -> int {
    a + scale_frac(b - a, x)
}

/// The blend stays between its endpoints.
pub proof fn lemma_lerp_between(a: int, b: int, x: int)
    requires
        0 <= x <= ONE,
    ensures
        a <= b ==> a <= lerp(a, b, x) <= b,
        b <= a ==> b <= lerp(a, b, x) <= a,
{
    lemma_scale_frac_between(b - a, x);
}

/// A stateful kernel answering interpolation queries over a fixed window of
/// recent source frames.
pub trait Interpolator: Sized {
    /// The kernel's internal invariant.
    spec fn inv(&self) -> bool;

    /// The fixed arity of every retained and produced frame.
    spec fn chans(&self) -> nat;

    /// The retained source frames, most recent first; its length is fixed
    /// per kernel.
    spec fn hist(&self) -> Seq<Seq<int>>;

    /// The frame the kernel answers at fraction `x`.
    spec fn interp_at(&self, x: int) -> Seq<int>;

    /// Answer the interpolation query at Q16 fraction `x` in `[0, ONE)`;
    /// pure: repeated calls with equal `x` return equal frames.
    fn interpolate(&self, x: i64) -> (r: Frame)
        requires
            self.inv(),
            0 <= x < ONE,
        ensures
            r@ == self.interp_at(x as int),
            r@.len() == self.chans(),
            frame_bounded(r@, OUT_MAX as int),
    ;

    /// Advance the window by one source frame, discarding the oldest
    /// retained frame.
    fn next_source_frame(&mut self, f: Frame)
        requires
            old(self).inv(),
            f@.len() == old(self).chans(),
            frame_ok(f@),
        ensures
            final(self).inv(),
            final(self).chans() == old(self).chans(),
            final(self).hist() == seq![f@] + old(self).hist().drop_last(),
            final(self).hist().len() == old(self).hist().len(),
    ;

    /// Return the kernel to its silence-equivalent zero state.
    fn reset(&mut self)
        requires
            old(self).inv(),
        ensures
            final(self).inv(),
            final(self).chans() == old(self).chans(),
            final(self).hist() == Seq::new(
                old(self).hist().len(),
                |i: int| silence_seq(old(self).chans()),
            ),
    ;
}

/// Zero-order hold: retains exactly one frame and returns it for every
/// fraction.
pub struct Floor {
    frame: Frame,
}

impl Floor {
    /// Start the hold from `frame`.
    pub fn new(frame: Frame) -> (r: Floor)
        requires
            frame_ok(frame@),
        ensures
            r.inv(),
            r.chans() == frame@.len(),
            r.hist() == seq![frame@],
    {
        Floor { frame }
    }
}

impl Interpolator for Floor {
    closed spec fn inv(&self) -> bool {
        frame_ok(self.frame@)
    }

    closed spec fn chans(&self) -> nat {
        self.frame@.len()
    }

    closed spec fn hist(&self) -> Seq<Seq<int>> {
        seq![self.frame@]
    }

    /// Zero-order hold: the answer is the retained frame, whatever the
    /// fraction.
    open spec fn interp_at(&self, x: int) -> Seq<int> {
        self.hist()[0]
    }

    fn interpolate(&self, x: i64) -> (r: Frame) {
        let r = self.frame.duplicate();
        proof {
            assert(frame_bounded(r@, OUT_MAX as int));
        }
        r
    }

    fn next_source_frame(&mut self, f: Frame) {
        self.frame = f;
        proof {
            assert(self.hist() =~= seq![f@] + old(self).hist().drop_last());
        }
    }

    fn reset(&mut self) {
        let n = self.frame.channels();
        self.frame = Frame::silence(n);
        proof {
            assert(frame_ok(self.frame@));
            assert(self.hist() =~= Seq::new(1, |i: int| silence_seq(old(self).chans())));
        }
    }
}

/// First-order kernel: retains two frames `a` (older) and `b` (newer) and
/// blends them per channel.
pub struct Linear {
    a: Frame,
    b: Frame,
}

impl Linear {
    /// Start from the two most recent source frames, `a` before `b`.
    pub fn new(a: Frame, b: Frame) -> (r: Linear)
        requires
            a@.len() == b@.len(),
            frame_ok(a@),
            frame_ok(b@),
        ensures
            r.inv(),
            r.chans() == a@.len(),
            r.hist() == seq![b@, a@],
    {
        Linear { a, b }
    }
}

impl Interpolator for Linear {
    closed spec fn inv(&self) -> bool {
        &&& self.a@.len() == self.b@.len()
        &&& frame_ok(self.a@)
        &&& frame_ok(self.b@)
    }

    closed spec fn chans(&self) -> nat {
        self.a@.len()
    }

    closed spec fn hist(&self) -> Seq<Seq<int>> {
        seq![self.b@, self.a@]
    }

    /// The per-channel blend `a + (b - a) * x` of the older retained frame
    /// `a` (`hist()[1]`) toward the newer one `b` (`hist()[0]`).
    open spec fn interp_at(&self, x: int) -> Seq<int> {
        Seq::new(
            self.hist()[1].len(),
            |c: int| lerp(self.hist()[1][c], self.hist()[0][c], x),
        )
    }

    fn interpolate(&self, x: i64) -> (r: Frame) {
        let n = self.a.channels();
        let mut v: Vec<i64> = Vec::new();
        let mut c: usize = 0;
        while c < n
            invariant
                c <= n,
                n == self.a@.len(),
                self.inv(),
                0 <= x < ONE,
                v@.len() == c,
                forall|j: int|
                    0 <= j < c ==> v@[j] == lerp(self.a@[j], self.b@[j], x as int),
                forall|j: int| 0 <= j < c ==> sample_ok(#[trigger] v@[j] as int),
            decreases n - c,
        {
            let av = self.a.get(c);
            let bv = self.b.get(c);
            proof {
                assert(sample_ok(self.a@[c as int]) && sample_ok(self.b@[c as int]));
                lemma_lerp_between(av as int, bv as int, x as int);
            }
            let s = av + mul_frac(bv - av, x);
            v.push(s);
            c = c + 1;
        }
        let r = Frame::new(v);
        proof {
            assert(r@ =~= self.interp_at(x as int));
        }
        r
    }

    fn next_source_frame(&mut self, f: Frame) {
        self.a = self.b.duplicate();
        self.b = f;
        proof {
            assert(self.hist() =~= seq![f@] + old(self).hist().drop_last());
        }
    }

    fn reset(&mut self) {
        let n = self.a.channels();
        self.a = Frame::silence(n);
        self.b = Frame::silence(n);
        proof {
            assert(frame_ok(self.a@) && frame_ok(self.b@));
            assert(self.hist() =~= Seq::new(2, |i: int| silence_seq(old(self).chans())));
        }
    }
}

} // verus!
