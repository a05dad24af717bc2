//! A fixed-capacity circular buffer with overwrite-oldest semantics.
//!
//! The buffer owns a backing store whose size never changes after
//! construction; [`CircularBuffer::push`] always succeeds, silently evicting
//! the logically oldest element once the buffer is full. All reads are
//! relative to logical recency: index `0` is the most recently pushed
//! element. The view `buf@` is that logical sequence, most recent first.

use vstd::prelude::*;

verus! {

/// The logical contents after one push: the new element in front, and all
/// but the oldest retained element behind it once the buffer is full.
pub open spec fn push_model<T>(w: Seq<T>, cap: nat, v: T) -> Seq<T> {
    seq![v] + w.take(if w.len() < cap { w.len() as int } else { cap - 1 })
}

/// The logical contents after pushing every element of `xs` in order.
pub open spec fn push_all<T>(w: Seq<T>, cap: nat, xs: Seq<T>) -> Seq<T>
    decreases xs.len(),
{
    if xs.len() == 0 {
        w
    } else {
        push_all(push_model(w, cap, xs[0]), cap, xs.skip(1))
    }
}

/// Smaller of two integers.
pub open spec fn min_int(a: int, b: int) -> int {
    if a <= b {
        a
    } else {
        b
    }
}

/// A run of pushes keeps exactly the latest elements: the history seen
/// through the buffer is the reversed push order, cut to capacity.
pub proof fn lemma_push_all_history<T>(w: Seq<T>, cap: nat, xs: Seq<T>)
    requires
        cap >= 1,
        w.len() <= cap,
    ensures
        push_all(w, cap, xs) == (xs.reverse() + w).take(min_int(xs.len() as int + w.len() as int, cap as int)),
    decreases xs.len(),
{
    if xs.len() == 0 {
        assert(xs.reverse() =~= Seq::<T>::empty());
        assert((xs.reverse() + w).take(w.len() as int) =~= w);
    } else {
        let w1 = push_model(w, cap, xs[0]);
        let xs1 = xs.skip(1);
        assert(w1.len() <= cap);
        lemma_push_all_history(w1, cap, xs1);
        let lhs = (xs1.reverse() + w1).take(min_int(xs1.len() as int + w1.len() as int, cap as int));
        let rhs = (xs.reverse() + w).take(min_int(xs.len() as int + w.len() as int, cap as int));
        assert(xs1.reverse() =~= xs.reverse().take(xs.len() - 1));
        assert(lhs =~= rhs) by {
            assert forall|i: int| 0 <= i < rhs.len() implies lhs.len() > i && lhs[i] == rhs[i] by {
                if i < xs.len() - 1 {
                    assert(lhs[i] == xs1.reverse()[i]);
                    assert(xs1.reverse()[i] == xs1[xs1.len() - 1 - i]);
                    assert(rhs[i] == xs.reverse()[i]);
                } else if i == xs.len() - 1 {
                    assert(lhs[i] == w1[0]);
                    assert(rhs[i] == xs.reverse()[i]);
                    assert(xs.reverse()[i] == xs[0]);
                } else {
                    let j = i - xs.len();
                    assert(rhs[i] == w[j]);
                    assert(lhs[i] == w1[i - (xs.len() - 1)]);
                    assert(w1[j + 1] == w.take(if w.len() < cap {
                        w.len() as int
                    } else {
                        cap - 1
                    })[j]);
                }
            }
        }
    }
}

/// Once at least `cap` elements have been pushed, the buffer holds exactly
/// the last `cap` of them, most recent first.
pub proof fn lemma_push_all_retains_latest<T>(w: Seq<T>, cap: nat, xs: Seq<T>)
    requires
        cap >= 1,
        w.len() <= cap,
        xs.len() >= cap,
    ensures
        push_all(w, cap, xs).len() == cap,
        forall|i: int|
            0 <= i < cap ==> push_all(w, cap, xs)[i] == xs[xs.len() - 1 - i],
{
    lemma_push_all_history(w, cap, xs);
    assert forall|i: int| 0 <= i < cap implies push_all(w, cap, xs)[i] == xs[xs.len() - 1
        - i] by {
        assert(push_all(w, cap, xs)[i] == (xs.reverse() + w).take(cap as int)[i]);
        assert(xs.reverse()[i] == xs[xs.len() - 1 - i]);
    }
}

/// Fixed-capacity ring store with overwrite-oldest eviction.
pub struct CircularBuffer<T> {
    data: Vec<T>,
    /// Index of the next slot to overwrite.
    cursor: usize,
    /// How many slots hold live elements, clamped at capacity.
    count: usize,
}

impl<T> View for CircularBuffer<T> {
    type V = Seq<T>;

    closed spec fn view(&self) -> Seq<T> {
        Seq::new(
            self.count as nat,
            |i: int|
                if i < self.cursor {
                    self.data@[self.cursor - 1 - i]
                } else {
                    self.data@[self.data@.len() + self.cursor - 1 - i]
                },
        )
    }
}

impl<T: Clone> CircularBuffer<T> {
    /// A buffer of capacity `cap` holding no elements yet; the backing store
    /// is filled with copies of `fill`.
    pub fn with_capacity(cap: usize, fill: T) -> (buf: CircularBuffer<T>)
        requires
            cap >= 1,
        ensures
            buf.well_formed(),
            buf.cap() == cap,
            buf@ == Seq::<T>::empty(),
    {
        let mut data: Vec<T> = Vec::new();
        let mut i: usize = 0;
        while i < cap
            invariant
                i <= cap,
                data@.len() == i,
            decreases cap - i,
        {
            data.push(fill.clone());
            i = i + 1;
        }
        let buf = CircularBuffer { data, cursor: 0, count: 0 };
        proof {
            assert(buf@ =~= Seq::<T>::empty());
        }
        buf
    }
}

impl<T> CircularBuffer<T> {
    /// The buffer's structural invariant.
    pub closed spec fn well_formed(&self) -> bool {
        &&& self.data@.len() >= 1
        &&& self.cursor < self.data@.len()
        &&& self.count <= self.data@.len()
        &&& (self.count == self.data@.len() || self.cursor == self.count)
    }

    /// The fixed capacity.
    pub closed spec fn cap(&self) -> nat {
        self.data@.len()
    }

    /// A buffer that starts full, holding the elements of `init`; the last
    /// element of `init` is the most recent one.
    pub fn from_vec(init: Vec<T>) -> (buf: CircularBuffer<T>)
        requires
            init@.len() >= 1,
        ensures
            buf.well_formed(),
            buf.cap() == init@.len(),
            buf@ == init@.reverse(),
    {
        let ghost v = init@;
        let count = init.len();
        let buf = CircularBuffer { data: init, cursor: 0, count };
        proof {
            assert(buf@ =~= v.reverse());
        }
        buf
    }

    /// How many elements are retained.
    pub fn len(&self) -> (n: usize)
        requires
            self.well_formed(),
        ensures
            n == self@.len(),
    {
        self.count
    }

    /// Whether the retained count has reached capacity.
    pub fn is_full(&self) -> (b: bool)
        requires
            self.well_formed(),
        ensures
            b == (self@.len() == self.cap()),
    {
        self.count == self.data.len()
    }

    /// The fixed capacity.
    pub fn capacity(&self) -> (n: usize)
        requires
            self.well_formed(),
        ensures
            n == self.cap(),
    {
        self.data.len()
    }

    /// Append an element, evicting the logically oldest one when full.
    pub fn push(&mut self, v: T)
        requires
            old(self).well_formed(),
        ensures
            final(self).well_formed(),
            final(self).cap() == old(self).cap(),
            final(self)@ == push_model(old(self)@, old(self).cap(), v),
    {
        let cap = self.data.len();
        self.data[self.cursor] = v;
        self.cursor = if self.cursor + 1 == cap {
            0
        } else {
            self.cursor + 1
        };
        if self.count < cap {
            self.count = self.count + 1;
        }
        proof {
            assert(self@ =~= push_model(old(self)@, old(self).cap(), v));
        }
    }

    /// Read the element `i` steps back from the most recent push.
    pub fn get(&self, i: usize) -> (r: &T)
        requires
            self.well_formed(),
            i < self@.len(),
        ensures
            *r == self@[i as int],
    {
        if i < self.cursor {
            &self.data[self.cursor - 1 - i]
        } else {
            &self.data[(self.data.len() - 1 - i) + self.cursor]
        }
    }
}

} // verus!
