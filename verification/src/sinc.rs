//! Table-driven windowed-sinc interpolation.
//!
//! The kernel retains a symmetric window of recent frames in a
//! [`CircularBuffer`] and answers a query at fraction `x` as a dot product
//! of that window with one row of a coefficient bank: row `p` holds the
//! apodized sinc weights sampled at the `p`-th phase step, in Q16, indexed
//! by recency (entry `j` weighs the `j`-th most recent frame). The bank is
//! construction-time configuration — the surrounding application computes
//! it from whatever window function it favours — and is admitted only when
//! every row's absolute weight sum stays within [`KERNEL_GAIN_MAX`]. That
//! admission bound is what makes the output of every query provably finite
//! and within [`OUT_MAX`], for any finite input whatever: the removable
//! singularity of the underlying sinc shape can never surface here, since
//! every weight is a fixed, bounded integer.

use crate::frame::{frame_ok, sample_ok, silence_seq, Frame};
use crate::interp::Interpolator;
use crate::num::{
    abs_val, div_one, div_unit, lemma_div_mod_witness, lemma_div_one_bound, ONE, OUT_MAX,
};
use crate::ring::CircularBuffer;
use vstd::arithmetic::div_mod::lemma_div_is_ordered;
use vstd::prelude::*;

verus! {

/// Largest admitted absolute weight sum of one coefficient row (`8.0` in
/// Q16): the kernel's gain bound.
pub const KERNEL_GAIN_MAX: i64 = 524288;

/// Largest admitted number of phase rows in a coefficient bank.
pub const TABLE_ROWS_MAX: usize = 65536;

/// Sum of the magnitudes of a coefficient row.
pub open spec fn abs_sum(row: Seq<int>) -> int
    decreases row.len(),
{
    if row.len() == 0 {
        0
    } else {
        abs_sum(row.drop_last()) + abs_val(row.last())
    }
}

/// One coefficient row as mathematical integers.
pub open spec fn row_view(row: Vec<i64>) -> Seq<int> {
    row@.map_values(|v: i64| v as int)
}

/// A whole coefficient bank as mathematical integers.
pub open spec fn table_view(t: Seq<Vec<i64>>) -> Seq<Seq<int>> {
    t.map_values(|row: Vec<i64>| row_view(row))
}

/// A coefficient bank the kernel admits: at least one row, every row as
/// long as the window, and every row's gain within bound.
pub open spec fn table_ok(t: Seq<Seq<int>>, cap: nat) -> bool {
    &&& 1 <= t.len() <= TABLE_ROWS_MAX
    &&& cap >= 1
    &&& forall|i: int|
        0 <= i < t.len() ==> (#[trigger] t[i]).len() == cap && abs_sum(t[i]) <= KERNEL_GAIN_MAX
}

/// Dot product of the first `k` window frames (channel `c`) with the first
/// `k` row weights.
pub open spec fn dot_prefix(hist: Seq<Seq<int>>, row: Seq<int>, c: int, k: nat) -> int
    decreases k,
{
    if k == 0 {
        0
    } else {
        dot_prefix(hist, row, c, (k - 1) as nat) + hist[k - 1][c] * row[k - 1]
    }
}

/// Dot product of the whole window (channel `c`) with a row.
pub open spec fn dot_channel(hist: Seq<Seq<int>>, row: Seq<int>, c: int) -> int {
    dot_prefix(hist, row, c, row.len())
}

/// Which phase row a Q16 fraction selects.
pub open spec fn row_index(x: int, nrows: int) -> int {
    x * nrows / 65536
}

/// The frame a sinc kernel answers: per channel, the window–row dot
/// product at the selected phase row, scaled back down.
pub open spec fn sinc_at(hist: Seq<Seq<int>>, table: Seq<Seq<int>>, chans: nat, x: int) -> Seq<
    int,
> {
    Seq::new(
        chans,
        |c: int| div_one(dot_channel(hist, table[row_index(x, table.len() as int)], c)),
    )
}

/// A row's magnitude sum is never negative.
pub proof fn lemma_abs_sum_nonneg(row: Seq<int>)
    ensures
        abs_sum(row) >= 0,
    decreases row.len(),
{
    if row.len() > 0 {
        lemma_abs_sum_nonneg(row.drop_last());
    }
}

/// Extending a prefix by one element adds that element's magnitude.
pub proof fn lemma_abs_sum_take_succ(row: Seq<int>, j: int)
    requires
        0 <= j < row.len(),
    ensures
        abs_sum(row.take(j + 1)) == abs_sum(row.take(j)) + abs_val(row[j]),
{
    assert(row.take(j + 1).drop_last() =~= row.take(j));
    assert(row.take(j + 1).last() == row[j]);
}

/// A prefix's magnitude sum never exceeds the whole row's.
pub proof fn lemma_abs_sum_take_le(row: Seq<int>, j: int)
    requires
        0 <= j <= row.len(),
    ensures
        abs_sum(row.take(j)) <= abs_sum(row),
    decreases row.len() - j,
{
    if j < row.len() {
        lemma_abs_sum_take_succ(row, j);
        lemma_abs_sum_take_le(row, j + 1);
    } else {
        assert(row.take(j) =~= row);
    }
}

/// No single weight outweighs the row's magnitude sum.
pub proof fn lemma_abs_sum_elem(row: Seq<int>, j: int)
    requires
        0 <= j < row.len(),
    ensures
        abs_val(row[j]) <= abs_sum(row),
{
    lemma_abs_sum_nonneg(row.take(j));
    lemma_abs_sum_take_succ(row, j);
    lemma_abs_sum_take_le(row, j + 1);
}

/// A fraction below `ONE` always selects a row inside the bank.
pub proof fn lemma_row_index_bound(x: int, nrows: int)
    requires
        0 <= x < 65536,
        1 <= nrows <= 65536,
    ensures
        0 <= row_index(x, nrows) < nrows,
{
    assert(x * nrows <= 65535 * nrows) by (nonlinear_arith)
        requires
            0 <= x <= 65535,
            0 <= nrows,
    ;
    assert(x * nrows >= 0) by (nonlinear_arith)
        requires
            0 <= x,
            0 <= nrows,
    ;
    assert((nrows - 1) * 65536 + (65536 - nrows) == 65535 * nrows) by (nonlinear_arith);
    lemma_div_mod_witness(65535 * nrows, 65536, nrows - 1, 65536 - nrows);
    lemma_div_is_ordered(x * nrows, 65535 * nrows, 65536);
    lemma_div_is_ordered(0, x * nrows, 65536);
}

/// Windowed-sinc kernel: a frame window plus a phase-row coefficient bank.
pub struct Sinc {
    win: CircularBuffer<Frame>,
    coeffs: Vec<Vec<i64>>,
    arity: usize,
}

impl Sinc {
    /// The admitted coefficient bank.
    pub closed spec fn table(&self) -> Seq<Seq<int>> {
        table_view(self.coeffs@)
    }

    /// The window length (frames retained).
    pub closed spec fn window_len(&self) -> nat {
        self.win.cap()
    }

    /// Build a kernel of arity `arity` over the coefficient bank `coeffs`,
    /// starting from a silence-filled window as long as the rows. Rejects a
    /// bank with no rows, too many rows, ragged or empty rows, or a row
    /// whose gain exceeds `KERNEL_GAIN_MAX`.
    pub fn new(arity: usize, coeffs: Vec<Vec<i64>>) -> (r: Option<Sinc>)
        requires
            arity >= 1,
        ensures
            (r is Some) == table_ok(table_view(coeffs@), coeffs@[0]@.len()),
            r matches Some(s) ==> ({
                &&& s.inv()
                &&& s.chans() == arity as nat
                &&& s.table() == table_view(coeffs@)
                &&& s.window_len() == coeffs@[0]@.len()
                &&& s.hist() == Seq::new(coeffs@[0]@.len(), |i: int| silence_seq(arity as nat))
            }),
    {
        let nrows = coeffs.len();
        if nrows == 0 || nrows > TABLE_ROWS_MAX {
            return None;
        }
        let cap = coeffs[0].len();
        if cap == 0 {
            return None;
        }
        let ghost tv = table_view(coeffs@);
        let mut i: usize = 0;
        while i < nrows
            invariant
                nrows == coeffs@.len(),
                1 <= nrows <= TABLE_ROWS_MAX,
                cap == coeffs@[0]@.len(),
                cap >= 1,
                i <= nrows,
                tv == table_view(coeffs@),
                forall|p: int|
                    0 <= p < i ==> (#[trigger] tv[p]).len() == cap as nat && abs_sum(tv[p])
                        <= KERNEL_GAIN_MAX,
            decreases nrows - i,
        {
            if coeffs[i].len() != cap {
                proof {
                    assert(tv[i as int].len() != cap as nat);
                }
                return None;
            }
            let ghost row = tv[i as int];
            let mut acc: i64 = 0;
            let mut j: usize = 0;
            while j < cap
                invariant
                    nrows == coeffs@.len(),
                    i < nrows,
                    cap == coeffs@[i as int]@.len(),
                    row == tv[i as int],
                    tv == table_view(coeffs@),
                    j <= cap,
                    acc == abs_sum(row.take(j as int)),
                    0 <= acc <= KERNEL_GAIN_MAX,
                decreases cap - j,
            {
                let e = coeffs[i][j];
                proof {
                    lemma_abs_sum_take_succ(row, j as int);
                }
                if e > KERNEL_GAIN_MAX || e < -KERNEL_GAIN_MAX {
                    proof {
                        lemma_abs_sum_elem(row, j as int);
                    }
                    return None;
                }
                let a: i64 = if e >= 0 {
                    e
                } else {
                    -e
                };
                if acc + a > KERNEL_GAIN_MAX {
                    proof {
                        lemma_abs_sum_take_le(row, j as int + 1);
                    }
                    return None;
                }
                acc = acc + a;
                j = j + 1;
            }
            proof {
                assert(row.take(cap as int) =~= row);
            }
            i = i + 1;
        }
        let mut init: Vec<Frame> = Vec::new();
        let mut k: usize = 0;
        while k < cap
            invariant
                k <= cap,
                init@.len() == k,
                forall|p: int|
                    0 <= p < k ==> (#[trigger] init@[p])@ == silence_seq(arity as nat),
            decreases cap - k,
        {
            init.push(Frame::silence(arity));
            k = k + 1;
        }
        let win = CircularBuffer::from_vec(init);
        let s = Sinc { win, coeffs, arity };
        proof {
            assert(forall|p: int|
                0 <= p < s.win@.len() ==> (#[trigger] s.win@[p])@ == silence_seq(arity as nat));
            assert(frame_ok(silence_seq(arity as nat)));
            assert(s.hist() =~= Seq::new(cap as nat, |q: int| silence_seq(arity as nat)));
        }
        Some(s)
    }
}

impl Interpolator for Sinc {
    closed spec fn inv(&self) -> bool {
        &&& self.win.well_formed()
        &&& self.win@.len() == self.win.cap()
        &&& self.arity >= 1
        &&& forall|k: int|
            0 <= k < self.win@.len() ==> (#[trigger] self.win@[k])@.len() == self.arity as nat
                && frame_ok(self.win@[k]@)
        &&& table_ok(table_view(self.coeffs@), self.win.cap())
    }

    closed spec fn chans(&self) -> nat {
        self.arity as nat
    }

    closed spec fn hist(&self) -> Seq<Seq<int>> {
        self.win@.map_values(|f: Frame| f@)
    }

    /// The windowed dot product [`sinc_at`] of the retained window with
    /// the admitted coefficient bank at the selected phase row.
    open spec fn interp_at(&self, x: int) -> Seq<int> {
        sinc_at(self.hist(), self.table(), self.chans(), x)
    }

    fn interpolate(&self, x: i64) -> (r: Frame) {
        let nrows = self.coeffs.len();
        proof {
            lemma_row_index_bound(x as int, nrows as int);
            assert((x as int) * (nrows as int) < 4294967296) by (nonlinear_arith)
                requires
                    0 <= x < 65536,
                    0 <= nrows <= 65536,
            ;
        }
        let ridx = (((x as u64) * (nrows as u64)) / 65536) as usize;
        let ghost hist = self.hist();
        let ghost row = table_view(self.coeffs@)[ridx as int];
        let cap = self.win.capacity();
        let mut out: Vec<i64> = Vec::new();
        let mut c: usize = 0;
        while c < self.arity
            invariant
                self.inv(),
                0 <= x < ONE,
                nrows == self.coeffs@.len(),
                hist == self.hist(),
                ridx == row_index(x as int, nrows as int),
                0 <= ridx < nrows,
                row == table_view(self.coeffs@)[ridx as int],
                cap == self.win.cap(),
                c <= self.arity,
                out@.len() == c,
                forall|q: int|
                    0 <= q < c ==> out@[q] == div_one(dot_channel(hist, row, q)),
                forall|q: int|
                    0 <= q < c ==> -OUT_MAX <= #[trigger] out@[q] <= OUT_MAX,
            decreases self.arity - c,
        {
            let mut acc: i64 = 0;
            let mut j: usize = 0;
            while j < cap
                invariant
                    self.inv(),
                    nrows == self.coeffs@.len(),
                    hist == self.hist(),
                    0 <= ridx < nrows,
                    row == table_view(self.coeffs@)[ridx as int],
                    cap == self.win.cap(),
                    c < self.arity,
                    j <= cap,
                    acc == dot_prefix(hist, row, c as int, j as nat),
                    -16777216 * abs_sum(row.take(j as int)) <= acc <= 16777216 * abs_sum(
                        row.take(j as int),
                    ),
                decreases cap - j,
            {
                let s = self.win.get(j).get(c);
                let w = self.coeffs[ridx][j];
                proof {
                    assert(table_view(self.coeffs@)[ridx as int] == row);
                    assert(row.len() == cap as nat);
                    assert(abs_sum(row) <= KERNEL_GAIN_MAX);
                    assert(hist[j as int] == self.win@[j as int]@);
                    assert(sample_ok(hist[j as int][c as int]));
                    assert(row[j as int] == w as int);
                    lemma_abs_sum_elem(row, j as int);
                    lemma_abs_sum_take_succ(row, j as int);
                    lemma_abs_sum_take_le(row, j as int + 1);
                    lemma_abs_sum_nonneg(row.take(j as int));
                    let wi = w as int;
                    let aw = abs_val(wi);
                    assert(-aw <= wi <= aw && 0 <= aw);
                    assert(-16777216 * aw <= (s as int) * wi <= 16777216 * aw)
                        by (nonlinear_arith)
                        requires
                            -16777216 <= s as int <= 16777216,
                            -aw <= wi <= aw,
                            0 <= aw,
                    ;
                    lemma_abs_sum_take_le(row, j as int);
                    assert(aw <= KERNEL_GAIN_MAX);
                    assert(abs_sum(row.take(j as int)) <= KERNEL_GAIN_MAX);
                    assert(-8796093022208 <= (s as int) * wi <= 8796093022208);
                    assert(-8796093022208 <= acc <= 8796093022208);
                }
                acc = acc + s * w;
                j = j + 1;
            }
            proof {
                assert(row.take(cap as int) =~= row);
                lemma_abs_sum_take_le(row, cap as int);
                lemma_div_one_bound(acc as int, 8796093022208);
            }
            let o = div_unit(acc);
            out.push(o);
            c = c + 1;
        }
        let r = Frame::new(out);
        proof {
            assert(r@ =~= self.interp_at(x as int));
        }
        r
    }

    fn next_source_frame(&mut self, f: Frame) {
        self.win.push(f);
        proof {
            assert forall|k: int| 0 <= k < self.win@.len() implies (#[trigger] self.win@[k])@
                .len() == self.arity as nat && frame_ok(self.win@[k]@) by {
                if k > 0 {
                    assert(self.win@[k] == old(self).win@[k - 1]);
                }
            }
            assert(self.hist() =~= seq![f@] + old(self).hist().drop_last());
        }
    }

    fn reset(&mut self) {
        let cap = self.win.capacity();
        let mut i: usize = 0;
        while i < cap
            invariant
                self.win.well_formed(),
                cap == self.win.cap(),
                cap >= 1,
                self.win@.len() == cap,
                self.arity == old(self).arity,
                self.coeffs == old(self).coeffs,
                self.arity >= 1,
                table_ok(table_view(self.coeffs@), self.win.cap()),
                i <= cap,
                forall|k: int|
                    0 <= k < self.win@.len() ==> (#[trigger] self.win@[k])@.len()
                        == self.arity as nat && frame_ok(self.win@[k]@),
                forall|k: int|
                    0 <= k < i ==> (#[trigger] self.win@[k])@ == silence_seq(
                        self.arity as nat,
                    ),
            decreases cap - i,
        {
            let f = Frame::silence(self.arity);
            proof {
                assert(frame_ok(f@));
            }
            let ghost prev = self.win@;
            self.win.push(f);
            proof {
                assert forall|k: int| 0 <= k < self.win@.len() implies (#[trigger] self.win@[
                    k])@.len() == self.arity as nat && frame_ok(self.win@[k]@) by {
                    if k > 0 {
                        assert(self.win@[k] == prev[k - 1]);
                    }
                }
                assert forall|k: int| 0 <= k < i + 1 implies (#[trigger] self.win@[k])@
                    == silence_seq(self.arity as nat) by {
                    if k > 0 {
                        assert(self.win@[k] == prev[k - 1]);
                    }
                }
            }
            i = i + 1;
        }
        proof {
            assert(self.hist() =~= Seq::new(
                old(self).hist().len(),
                |q: int| silence_seq(old(self).chans()),
            ));
        }
    }
}

} // verus!
