//! Fixed-point arithmetic shared by every component.
//!
//! A sample, a fraction and a smoothing coefficient are all carried as `i64`
//! values scaled by [`ONE`] (Q16 fixed point): `ONE` stands for `1.0`, `0` for
//! silence. Keeping the whole core on integers makes every bound exact; the
//! floating-point world is converted at the edge by the surrounding
//! application code.

use vstd::arithmetic::div_mod::{
    lemma_div_is_ordered, lemma_div_multiples_vanish, lemma_fundamental_div_mod_converse,
};
use vstd::prelude::*;

verus! {

/// The fixed-point unit: this many raw steps stand for the real value `1.0`.
pub const ONE: i64 = 65536;

/// Largest magnitude a well-formed sample may carry (`256.0` in real terms,
/// leaving headroom above full scale for intermediate mixes).
pub const AMP_MAX: i64 = 16777216;

/// Largest magnitude any interpolation kernel may emit: a windowed-sinc dot
/// product may exceed the input range by the kernel gain bound, never more.
pub const OUT_MAX: i64 = 134217728;

/// Largest value a detector statistic may take.
pub const DETECT_MAX: i64 = 268435456;

/// How far `scale_frac` inputs may reach without overflowing the arithmetic.
pub const SCALE_IN_MAX: i64 = 1099511627776;

/// `v * q / ONE`, rounded toward zero; the meaning of multiplying a value by
/// a Q16 fraction `q`.
pub open spec fn scale_frac(v: int, q: int) -> int {
    if v >= 0 {
        (v * q) / (ONE as int)
    } else {
        -(((-v) * q) / (ONE as int))
    }
}

/// The magnitude of a value.
pub open spec fn abs_val(v: int) -> int {
    if v >= 0 {
        v
    } else {
        -v
    }
}

/// `v / ONE`, rounded toward zero; the meaning of dropping the Q16 scale
/// from a double-scaled product.
pub open spec fn div_one(v: int) -> int {
    if v >= 0 {
        v / (ONE as int)
    } else {
        -((-v) / (ONE as int))
    }
}

/// `r` is the integer square root of `n`.
pub open spec fn is_isqrt(n: int, r: int) -> bool {
    &&& 0 <= r
    &&& r * r <= n
    &&& n < (r + 1) * (r + 1)
}

/// Multiply a value by a Q16 fraction, rounding toward zero.
pub fn mul_frac(v: i64, q: i64) -> (r: i64)
    requires
        -SCALE_IN_MAX <= v <= SCALE_IN_MAX,
        0 <= q <= 2 * ONE,
    ensures
        r == scale_frac(v as int, q as int),
{
    proof {
        assert(SCALE_IN_MAX * (2 * ONE) < u64::MAX) by (nonlinear_arith);
    }
    if v >= 0 {
        proof {
            assert((v as int) * (q as int) <= SCALE_IN_MAX * (2 * ONE)) by (nonlinear_arith)
                requires
                    0 <= v <= SCALE_IN_MAX,
                    0 <= q <= 2 * ONE,
            ;
            assert((v as int) * (q as int) >= 0) by (nonlinear_arith)
                requires
                    0 <= v,
                    0 <= q,
            ;
        }
        let t: u64 = ((v as u64) * (q as u64)) / 65536;
        proof {
            lemma_div_is_ordered((v as int) * (q as int), SCALE_IN_MAX * (2 * ONE), ONE as int);
        }
        t as i64
    } else {
        let m: u64 = (-v) as u64;
        proof {
            assert((m as int) * (q as int) <= SCALE_IN_MAX * (2 * ONE)) by (nonlinear_arith)
                requires
                    0 <= m <= SCALE_IN_MAX,
                    0 <= q <= 2 * ONE,
            ;
            assert((m as int) * (q as int) >= 0) by (nonlinear_arith)
                requires
                    0 <= m,
                    0 <= q,
            ;
        }
        let t: u64 = (m * (q as u64)) / 65536;
        proof {
            lemma_div_is_ordered((m as int) * (q as int), SCALE_IN_MAX * (2 * ONE), ONE as int);
        }
        -(t as i64)
    }
}

/// Drop the Q16 scale from a double-scaled value, rounding toward zero.
pub fn div_unit(v: i64) -> (r: i64)
    requires
        -0x4000000000000000 <= v <= 0x4000000000000000,
    ensures
        r == div_one(v as int),
{
    if v >= 0 {
        let t: u64 = (v as u64) / 65536;
        proof {
            lemma_div_is_ordered(v as int, 0x4000000000000000, ONE as int);
        }
        t as i64
    } else {
        let t: u64 = ((-v) as u64) / 65536;
        proof {
            lemma_div_is_ordered(-(v as int), 0x4000000000000000, ONE as int);
        }
        -(t as i64)
    }
}

/// Dropping the scale shrinks any symmetric bound accordingly.
pub proof fn lemma_div_one_bound(v: int, b: int)
    requires
        0 <= b,
        -b <= v <= b,
    ensures
        -(b / (ONE as int)) <= div_one(v) <= b / (ONE as int),
{
    if v >= 0 {
        lemma_div_is_ordered(v, b, ONE as int);
        lemma_div_is_ordered(0, v, ONE as int);
    } else {
        lemma_div_is_ordered(-v, b, ONE as int);
        lemma_div_is_ordered(0, -v, ONE as int);
    }
}

/// Scaling by a fraction of at most `ONE` never leaves the interval between
/// zero and the value itself.
pub proof fn lemma_scale_frac_between(v: int, q: int)
    requires
        0 <= q <= ONE,
    ensures
        v >= 0 ==> 0 <= scale_frac(v, q) <= v,
        v < 0 ==> v <= scale_frac(v, q) <= 0,
{
    if v >= 0 {
        assert(v * q <= v * (ONE as int)) by (nonlinear_arith)
            requires
                0 <= v,
                q <= ONE,
        ;
        assert(v * q >= 0) by (nonlinear_arith)
            requires
                0 <= v,
                0 <= q,
        ;
        lemma_div_is_ordered(v * q, v * (ONE as int), ONE as int);
        lemma_div_multiples_vanish(v, ONE as int);
        assert((ONE as int) * v == v * (ONE as int)) by (nonlinear_arith);
        lemma_div_is_ordered(0, v * q, ONE as int);
    } else {
        let w = -v;
        assert(w * q <= w * (ONE as int)) by (nonlinear_arith)
            requires
                0 <= w,
                q <= ONE,
        ;
        assert(w * q >= 0) by (nonlinear_arith)
            requires
                0 <= w,
                0 <= q,
        ;
        lemma_div_is_ordered(w * q, w * (ONE as int), ONE as int);
        lemma_div_multiples_vanish(w, ONE as int);
        assert((ONE as int) * w == w * (ONE as int)) by (nonlinear_arith);
        lemma_div_is_ordered(0, w * q, ONE as int);
    }
}

/// Integer square root by bisection.
pub fn isqrt(n: u64) -> (r: u64)
    requires
        n < 0x4000000000000000,
    ensures
        is_isqrt(n as int, r as int),
{
    let mut lo: u64 = 0;
    let mut hi: u64 = 0x80000000;
    proof {
        assert((hi as int) * (hi as int) == 0x4000000000000000) by (nonlinear_arith)
            requires
                hi == 0x80000000,
        ;
    }
    while lo + 1 < hi
        invariant
            0 <= lo < hi <= 0x80000000,
            (lo as int) * (lo as int) <= n as int,
            (n as int) < (hi as int) * (hi as int),
        decreases hi - lo,
    {
        let mid: u64 = lo + (hi - lo) / 2;
        proof {
            assert((mid as int) * (mid as int) <= 0x4000000000000000) by (nonlinear_arith)
                requires
                    0 <= mid <= 0x80000000,
            ;
        }
        if mid * mid <= n {
            lo = mid;
        } else {
            hi = mid;
        }
    }
    lo
}

/// An integer square root of a value below `b * b` lies below `b`.
pub proof fn lemma_isqrt_lt(n: int, r: int, b: int)
    requires
        is_isqrt(n, r),
        0 <= b,
        n < b * b,
    ensures
        r < b,
{
    if r >= b {
        assert(b * b <= r * r) by (nonlinear_arith)
            requires
                0 <= b <= r,
        ;
    }
}

/// The quotient and remainder of a value split against a positive divisor
/// are pinned by any witness pair.
pub proof fn lemma_div_mod_witness(x: int, d: int, q: int, r: int)
    requires
        0 < d,
        0 <= r < d,
        x == q * d + r,
    ensures
        q == x / d,
        r == x % d,
{
    lemma_fundamental_div_mod_converse(x, d, q, r);
}

} // verus!
