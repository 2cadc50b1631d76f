//! Exact statistics over an observation history.
//!
//! An observation is the number of set bits of one sampled 64-bit word, a
//! value in `0..=64`; the bit-density it stands for is that count divided by
//! 64. The history is the append-only sequence of observations. All four
//! statistics of a snapshot (count, mean, variance, jitter) are exact
//! rationals of the history, held as integer numerator/denominator pairs.

use vstd::prelude::*;

use vstd::arithmetic::mul::lemma_mul_upper_bound;
use vstd::arithmetic::power2::{lemma2_to64, lemma_pow2_pos, lemma_pow2_unfold, pow2};

verus! {

/// Number of bits in one sampled word. Every observation lies in
/// `0..=WORD_BITS`, and a bit-density `p` is an observation over `WORD_BITS`.
pub const WORD_BITS: u64 = 64;

/// Fixed-point scale for configuration thresholds: a threshold field holding
/// `t` stands for the fraction `t / PPM_SCALE` (parts per million).
pub const PPM_SCALE: u64 = 1_000_000;

/// Capacity of an observation history. Statistics are computed in 128-bit
/// integers; this cap keeps every intermediate product in range.
pub const MAX_SAMPLES: u64 = 0xFFFF_FFFF;

/// An exact nonnegative rational `num / den`, with `den >= 1`.
#[derive(Clone, Copy, Debug, PartialEq, Eq, Structural)]
pub struct Ratio {
    pub num: u128,
    pub den: u128,
}

/// Absolute difference of two integers.
pub open spec fn dist(a: int, b: int) -> int {
    if a >= b {
        a - b
    } else {
        b - a
    }
}

/// Every observation is a bit count of one word, so at most `WORD_BITS`.
pub open spec fn obs_ok(h: Seq<u8>) -> bool {
    forall|i: int| 0 <= i < h.len() ==> h[i] <= WORD_BITS
}

/// Sum of all observations.
pub open spec fn sum_of(h: Seq<u8>) -> int
    decreases h.len(),
{
    if h.len() == 0 {
        0
    } else {
        sum_of(h.drop_last()) + h.last()
    }
}

/// Sum of the squares of all observations.
pub open spec fn sum_sq_of(h: Seq<u8>) -> int
    decreases h.len(),
{
    if h.len() == 0 {
        0
    } else {
        sum_sq_of(h.drop_last()) + h.last() * h.last()
    }
}

/// Sum of the absolute differences of consecutive observations.
pub open spec fn diff_sum_of(h: Seq<u8>) -> int
    decreases h.len(),
{
    if h.len() <= 1 {
        0
    } else {
        diff_sum_of(h.drop_last()) + dist(h.last() as int, h[h.len() - 2] as int)
    }
}

/// Numerator of the mean bit-density: the observation sum (0 when empty).
pub open spec fn mean_num_of(h: Seq<u8>) -> int {
    if h.len() == 0 {
        0
    } else {
        sum_of(h)
    }
}

/// Denominator of the mean bit-density: `WORD_BITS * n` (1 when empty).
pub open spec fn mean_den_of(h: Seq<u8>) -> int {
    if h.len() == 0 {
        1
    } else {
        WORD_BITS * h.len()
    }
}

/// `n * sum_sq - sum^2`: the dispersion numerator before division. Sample
/// variance of the densities is this over `WORD_BITS^2 * n * (n - 1)`.
pub open spec fn disp_of(h: Seq<u8>) -> int {
    h.len() * sum_sq_of(h) - sum_of(h) * sum_of(h)
}

/// Numerator of the sample variance (0 for fewer than two observations).
pub open spec fn var_num_of(h: Seq<u8>) -> int {
    if h.len() < 2 {
        0
    } else {
        disp_of(h)
    }
}

/// Denominator of the sample variance (1 for fewer than two observations).
pub open spec fn var_den_of(h: Seq<u8>) -> int {
    if h.len() < 2 {
        1
    } else {
        WORD_BITS * WORD_BITS * h.len() * (h.len() - 1)
    }
}

/// Numerator of the jitter: the sum of absolute first differences.
pub open spec fn jitter_num_of(h: Seq<u8>) -> int {
    if h.len() < 2 {
        0
    } else {
        diff_sum_of(h)
    }
}

/// Denominator of the jitter: `WORD_BITS * (n - 1)` (1 when it has no pairs).
pub open spec fn jitter_den_of(h: Seq<u8>) -> int {
    if h.len() < 2 {
        1
    } else {
        WORD_BITS * (h.len() - 1)
    }
}

/// A metrics snapshot: count, mean, variance and jitter of the history at the
/// instant of computation, each statistic an exact rational.
#[derive(Clone, Copy, Debug, PartialEq, Eq, Structural)]
pub struct EntropyMetrics {
    /// Number of observations the snapshot covers.
    pub sample_count: u64,
    /// Arithmetic mean of the bit-densities; 0 when the history is empty.
    pub mean: Ratio,
    /// Sample variance of the bit-densities; 0 below two observations.
    pub variance: Ratio,
    /// Mean absolute difference of consecutive bit-densities; 0 below two.
    pub jitter: Ratio,
}

impl EntropyMetrics {
    /// Shape of every snapshot this library produces: denominators are
    /// positive and bounded by the history capacity, and mean and jitter are
    /// densities, so at most 1.
    pub open spec fn wf(self) -> bool {
        &&& self.sample_count <= MAX_SAMPLES
        &&& 1 <= self.mean.den <= WORD_BITS * MAX_SAMPLES
        &&& self.mean.num <= self.mean.den
        &&& 1 <= self.jitter.den <= WORD_BITS * MAX_SAMPLES
        &&& self.jitter.num <= self.jitter.den
        &&& 1 <= self.variance.den
    }
}

/// The snapshot determined by a history: the reference every implementation
/// clause points back to.
pub open spec fn metrics_of(h: Seq<u8>) -> EntropyMetrics {
    EntropyMetrics {
        sample_count: h.len() as u64,
        mean: Ratio { num: mean_num_of(h) as u128, den: mean_den_of(h) as u128 },
        variance: Ratio { num: var_num_of(h) as u128, den: var_den_of(h) as u128 },
        jitter: Ratio { num: jitter_num_of(h) as u128, den: jitter_den_of(h) as u128 },
    }
}

/// Number of set bits in the binary representation of a nonnegative integer.
pub open spec fn spec_popcount(x: int) -> int
    decreases x,
{
    if x <= 0 {
        0
    } else {
        x % 2 + spec_popcount(x / 2)
    }
}

/// A bit count is never negative.
pub proof fn lemma_popcount_nonneg(x: int)
    ensures
        spec_popcount(x) >= 0,
    decreases x,
{
    if x > 0 {
        lemma_popcount_nonneg(x / 2);
    }
}

/// An integer below `2^b` has at most `b` set bits.
pub proof fn lemma_popcount_bound(x: int, b: nat)
    requires
        0 <= x < pow2(b),
    ensures
        spec_popcount(x) <= b,
    decreases b,
{
    if b == 0 {
        assert(pow2(0) == 1) by {
            lemma2_to64();
        }
    } else {
        lemma_pow2_unfold(b);
        lemma_pow2_pos((b - 1) as nat);
        assert(x / 2 < pow2((b - 1) as nat));
        lemma_popcount_bound(x / 2, (b - 1) as nat);
    }
}

/// Count the set bits of one word: exactly `spec_popcount`, and at most
/// `WORD_BITS` of them.
pub fn popcount64(x: u64) -> (c: u8)
    ensures
        c == spec_popcount(x as int),
        c <= WORD_BITS,
{
    proof {
        lemma2_to64();
        lemma_popcount_bound(x as int, 64);
        lemma_popcount_nonneg(x as int);
    }
    let mut v: u64 = x;
    let mut c: u8 = 0;
    while v > 0
        invariant
            c + spec_popcount(v as int) == spec_popcount(x as int),
            spec_popcount(x as int) <= 64,
            spec_popcount(v as int) >= 0,
        decreases v,
    {
        proof {
            lemma_popcount_nonneg(v as int / 2);
        }
        let b: u8 = (v % 2) as u8;
        c = c + b;
        v = v / 2;
    }
    c
}

/// Bounds of the running sums: each observation is at most `WORD_BITS`, so
/// the sum is at most `WORD_BITS * n` and the square sum `WORD_BITS^2 * n`.
pub proof fn lemma_sums_bounded(h: Seq<u8>)
    requires
        obs_ok(h),
    ensures
        0 <= sum_of(h) <= WORD_BITS * h.len(),
        0 <= sum_sq_of(h) <= WORD_BITS * WORD_BITS * h.len(),
    decreases h.len(),
{
    if h.len() > 0 {
        let g = h.drop_last();
        assert(obs_ok(g));
        lemma_sums_bounded(g);
        let a = h.last() as int;
        assert(a * a <= 64 * 64) by (nonlinear_arith)
            requires
                0 <= a <= 64,
        ;
    }
}

/// The sum of absolute first differences is at most `WORD_BITS` per pair.
pub proof fn lemma_diff_sum_bounded(h: Seq<u8>)
    requires
        obs_ok(h),
    ensures
        0 <= diff_sum_of(h),
        h.len() >= 1 ==> diff_sum_of(h) <= WORD_BITS * (h.len() - 1),
    decreases h.len(),
{
    if h.len() > 1 {
        let g = h.drop_last();
        assert(obs_ok(g));
        lemma_diff_sum_bounded(g);
    }
}

/// Sum of squared deviations of the observations from an arbitrary point.
pub open spec fn sq_dev_sum(h: Seq<u8>, a: int) -> int
    decreases h.len(),
{
    if h.len() == 0 {
        0
    } else {
        sq_dev_sum(h.drop_last(), a) + (h.last() - a) * (h.last() - a)
    }
}

/// Expanding the squares: the deviation sum in terms of the running sums.
pub proof fn lemma_sq_dev_expand(h: Seq<u8>, a: int)
    ensures
        sq_dev_sum(h, a) == sum_sq_of(h) - 2 * a * sum_of(h) + h.len() * (a * a),
    decreases h.len(),
{
    if h.len() == 0 {
    } else {
        let g = h.drop_last();
        lemma_sq_dev_expand(g, a);
        let l = h.last() as int;
        let n = g.len() as int;
        assert((l - a) * (l - a) == l * l - 2 * a * l + a * a) by (nonlinear_arith);
        assert((n + 1) * (a * a) == n * (a * a) + a * a) by (nonlinear_arith);
        assert(2 * a * (sum_of(g) + l) == 2 * a * sum_of(g) + 2 * a * l) by (nonlinear_arith);
    }
}

/// A sum of squares is nonnegative.
pub proof fn lemma_sq_dev_nonneg(h: Seq<u8>, a: int)
    ensures
        sq_dev_sum(h, a) >= 0,
    decreases h.len(),
{
    if h.len() > 0 {
        lemma_sq_dev_nonneg(h.drop_last(), a);
        let l = h.last() as int;
        assert((l - a) * (l - a) >= 0) by (nonlinear_arith);
    }
}

/// The dispersion numerator `n * sum_sq - sum^2` is nonnegative: appending an
/// observation adds the (nonnegative) squared deviations of the prefix from
/// it.
pub proof fn lemma_disp_nonneg(h: Seq<u8>)
    ensures
        disp_of(h) >= 0,
    decreases h.len(),
{
    if h.len() == 0 {
    } else {
        let g = h.drop_last();
        lemma_disp_nonneg(g);
        let a = h.last() as int;
        let n = g.len() as int;
        let q = sum_sq_of(g);
        let s = sum_of(g);
        lemma_sq_dev_expand(g, a);
        lemma_sq_dev_nonneg(g, a);
        assert((n + 1) * (q + a * a) == n * q + q + n * (a * a) + a * a) by (nonlinear_arith);
        assert((s + a) * (s + a) == s * s + 2 * a * s + a * a) by (nonlinear_arith);
    }
}

/// Upper bound of the dispersion numerator, for 128-bit arithmetic: at most
/// `WORD_BITS^2 * MAX_SAMPLES^2`.
pub proof fn lemma_disp_upper(h: Seq<u8>)
    requires
        obs_ok(h),
        h.len() <= MAX_SAMPLES,
    ensures
        disp_of(h) <= WORD_BITS * WORD_BITS * MAX_SAMPLES * MAX_SAMPLES,
{
    lemma_sums_bounded(h);
    let n = h.len() as int;
    let q = sum_sq_of(h);
    let s = sum_of(h);
    assert(s * s >= 0) by (nonlinear_arith);
    assert(q <= WORD_BITS * WORD_BITS * (MAX_SAMPLES as int)) by {
        lemma_mul_upper_bound(WORD_BITS * WORD_BITS, WORD_BITS * WORD_BITS, n, MAX_SAMPLES as int);
    }
    lemma_mul_upper_bound(n, MAX_SAMPLES as int, q, WORD_BITS * WORD_BITS * (MAX_SAMPLES as int));
}

impl EntropyMetrics {
    /// Compute the snapshot of a complete history in a single pass: running
    /// sum, sum of squares, and sum of absolute first differences, assembled
    /// into the exact rationals that `metrics_of` states.
    pub fn from_samples(samples: &Vec<u8>) -> (m: EntropyMetrics)
        requires
            obs_ok(samples@),
            samples@.len() <= MAX_SAMPLES,
        ensures
            m == metrics_of(samples@),
            m.wf(),
    {
        let ghost h = samples@;
        let n = samples.len();
        let mut sum: u64 = 0;
        let mut sum_sq: u64 = 0;
        let mut diff_sum: u64 = 0;
        let mut i: usize = 0;
        while i < n
            invariant
                i <= n,
                n == h.len(),
                h == samples@,
                obs_ok(h),
                n <= MAX_SAMPLES,
                sum == sum_of(h.take(i as int)),
                sum_sq == sum_sq_of(h.take(i as int)),
                diff_sum == diff_sum_of(h.take(i as int)),
            decreases n - i,
        {
            proof {
                assert(obs_ok(h.take(i as int)));
                lemma_sums_bounded(h.take(i as int));
                lemma_diff_sum_bounded(h.take(i as int));
                assert(h.take(i + 1).drop_last() =~= h.take(i as int));
            }
            let k = samples[i];
            assert(k * k <= 64 * 64) by (nonlinear_arith)
                requires
                    0 <= k <= 64,
            ;
            if i > 0 {
                let prev = samples[i - 1];
                let d = if k >= prev {
                    k - prev
                } else {
                    prev - k
                };
                diff_sum = diff_sum + d as u64;
            }
            sum = sum + k as u64;
            sum_sq = sum_sq + (k as u64) * (k as u64);
            i = i + 1;
        }
        proof {
            assert(h.take(n as int) =~= h);
            lemma_sums_bounded(h);
            lemma_diff_sum_bounded(h);
            lemma_disp_nonneg(h);
            lemma_disp_upper(h);
        }
        let count: u64 = n as u64;
        let mean = if count == 0 {
            Ratio { num: 0, den: 1 }
        } else {
            Ratio { num: sum as u128, den: 64 * (count as u128) }
        };
        let variance = if count < 2 {
            Ratio { num: 0, den: 1 }
        } else {
            proof {
                lemma_mul_upper_bound(
                    count as int,
                    MAX_SAMPLES as int,
                    sum_sq as int,
                    WORD_BITS * WORD_BITS * (MAX_SAMPLES as int),
                );
                lemma_mul_upper_bound(
                    sum as int,
                    WORD_BITS * (MAX_SAMPLES as int),
                    sum as int,
                    WORD_BITS * (MAX_SAMPLES as int),
                );
                lemma_mul_upper_bound(
                    4096 * (count as int),
                    4096 * (MAX_SAMPLES as int),
                    count - 1,
                    MAX_SAMPLES as int,
                );
                assert((4096 * (count as int)) * ((count - 1) as int) >= 1) by (nonlinear_arith)
                    requires
                        count >= 2,
                ;
            }
            let nq: u128 = (count as u128) * (sum_sq as u128);
            let ss: u128 = (sum as u128) * (sum as u128);
            Ratio { num: nq - ss, den: (4096 * (count as u128)) * ((count - 1) as u128) }
        };
        let jitter = if count < 2 {
            Ratio { num: 0, den: 1 }
        } else {
            Ratio { num: diff_sum as u128, den: 64 * ((count - 1) as u128) }
        };
        EntropyMetrics { sample_count: count, mean, variance, jitter }
    }
}

} // verus!
