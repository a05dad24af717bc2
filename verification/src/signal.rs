//! The pull-based signal abstraction.
//!
//! A [`Signal`] is a stateful producer of frames with a well-defined
//! exhaustion predicate. Its model is the sequence of meaningful frames it
//! has still to produce: `next` yields the head of that sequence, or the
//! equilibrium frame once nothing remains. Calling `next` past exhaustion is
//! defined and deterministic: it keeps returning silence.

use crate::frame::{frame_ok, silence_seq, Frame};
use vstd::prelude::*;

verus! {

/// The frame a signal hands out next: the head of what remains, or silence
/// once the signal is exhausted.
pub open spec fn head_or_silence(rem: Seq<Seq<int>>, chans: nat) -> Seq<int> {
    if rem.len() > 0 {
        rem[0]
    } else {
        silence_seq(chans)
    }
}

/// What remains after one pull.
pub open spec fn tail_rem(rem: Seq<Seq<int>>) -> Seq<Seq<int>> {
    if rem.len() > 0 {
        rem.skip(1)
    } else {
        rem
    }
}

/// A stateful, pull-based producer of frames.
///
/// `remaining()` is the sequence of meaningful frames still to come; every
/// implementation keeps its arity constant and produces only well-formed
/// frames.
pub trait Signal: Sized {
    /// The implementation's internal invariant.
    spec fn inv(&self) -> bool;

    /// The fixed arity of every produced frame.
    spec fn chans(&self) -> nat;

    /// The meaningful frames still to be produced.
    spec fn remaining(&self) -> Seq<Seq<int>>;

    /// Produce exactly one frame, advancing the signal; once exhausted this
    /// deterministically yields the equilibrium frame.
    fn next(&mut self) -> (f: Frame)
        requires
            old(self).inv(),
        ensures
            final(self).inv(),
            final(self).chans() == old(self).chans(),
            final(self).remaining() == tail_rem(old(self).remaining()),
            f@ == head_or_silence(old(self).remaining(), old(self).chans()),
            f@.len() == old(self).chans(),
            frame_ok(f@),
    ;

    /// Whether no meaningful frames remain.
    fn is_exhausted(&self) -> (b: bool)
        requires
            self.inv(),
        ensures
            b == (self.remaining().len() == 0),
    ;
}

/// A finite signal that plays a fixed list of frames once, then yields
/// silence forever.
pub struct FromFrames {
    frames: Vec<Frame>,
    pos: usize,
    arity: usize,
}

impl FromFrames {
    /// Build a finite signal over `frames`, each of arity `arity` and
    /// well formed.
    pub fn new(frames: Vec<Frame>, arity: usize) -> (s: FromFrames)
        requires
            forall|i: int|
                0 <= i < frames@.len() ==> (#[trigger] frames@[i]@).len() == arity as nat
                    && frame_ok(frames@[i]@),
        ensures
            s.inv(),
            s.chans() == arity as nat,
            s.remaining() == frames@.map_values(|f: Frame| f@),
    {
        let s = FromFrames { frames, pos: 0, arity };
        proof {
            assert(s.remaining() =~= s.frames@.map_values(|f: Frame| f@));
        }
        s
    }
}

impl Signal for FromFrames {
    closed spec fn inv(&self) -> bool {
        &&& self.pos <= self.frames@.len()
        &&& forall|i: int|
            0 <= i < self.frames@.len() ==> (#[trigger] self.frames@[i]@).len()
                == self.arity as nat && frame_ok(self.frames@[i]@)
    }

    closed spec fn chans(&self) -> nat {
        self.arity as nat
    }

    closed spec fn remaining(&self) -> Seq<Seq<int>> {
        self.frames@.skip(self.pos as int).map_values(|f: Frame| f@)
    }

    fn next(&mut self) -> (f: Frame)
    {
        if self.pos < self.frames.len() {
            let f = self.frames[self.pos].duplicate();
            self.pos = self.pos + 1;
            proof {
                assert(self.remaining() =~= tail_rem(old(self).remaining()));
            }
            f
        } else {
            let f = Frame::silence(self.arity);
            proof {
                assert(self.remaining() =~= old(self).remaining());
            }
            f
        }
    }

    fn is_exhausted(&self) -> (b: bool)
    {
        self.pos == self.frames.len()
    }
}

} // verus!
