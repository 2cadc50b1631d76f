//! The guarantees of the monitor, stated once and proved, over the spec-level
//! history and policy that the executable functions are pinned to: what a
//! fresh engine reports, the warm-up gate, the precedence of `Kill`, the
//! determinism of the projections, and what a stuck (constant) source looks
//! like.

use vstd::prelude::*;

use crate::engine::EntropyConfig;
use crate::metrics::{
    dist, diff_sum_of, disp_of, metrics_of, obs_ok, sum_of, sum_sq_of, EntropyMetrics,
    MAX_SAMPLES, PPM_SCALE, WORD_BITS,
};
use crate::sentry::{decide_spec, jitter_exceeds, mean_hard_breach, SentryDecision};

verus! {

/// After each recorded observation the reported count grows by exactly one:
/// the count of a snapshot is the length of the history it covers.
pub proof fn lemma_sample_count_tracks_history(h: Seq<u8>, k: u8)
    requires
        h.len() < MAX_SAMPLES,
    ensures
        metrics_of(h.push(k)).sample_count == metrics_of(h).sample_count + 1,
{
}

/// A fresh engine: with no observations the count, mean, variance and jitter
/// are all zero, and under any valid configuration the verdict is `Keep`.
pub proof fn lemma_empty_history(cfg: EntropyConfig)
    requires
        cfg.valid(),
    ensures
        metrics_of(Seq::<u8>::empty()).sample_count == 0,
        metrics_of(Seq::<u8>::empty()).mean.num == 0,
        metrics_of(Seq::<u8>::empty()).variance.num == 0,
        metrics_of(Seq::<u8>::empty()).jitter.num == 0,
        decide_spec(metrics_of(Seq::<u8>::empty()), cfg) == SentryDecision::Keep,
{
}

/// A single observation: variance and jitter are zero, and the mean is that
/// observation's own density.
pub proof fn lemma_single_observation(k: u8)
    ensures
        metrics_of(seq![k]).sample_count == 1,
        metrics_of(seq![k]).variance.num == 0,
        metrics_of(seq![k]).jitter.num == 0,
        metrics_of(seq![k]).mean.num == k,
        metrics_of(seq![k]).mean.den == WORD_BITS,
{
    let h = seq![k];
    assert(h.drop_last() =~= Seq::<u8>::empty());
    assert(sum_of(Seq::<u8>::empty()) == 0);
    assert(h.last() == k);
    assert(sum_of(h) == sum_of(h.drop_last()) + h.last());
    assert(sum_of(h) == k);
}

/// The warm-up gate: below `min_samples` observations the verdict is `Keep`,
/// whatever the metric values are.
pub proof fn lemma_warm_up_keeps(m: EntropyMetrics, cfg: EntropyConfig)
    requires
        m.sample_count < cfg.min_samples,
    ensures
        decide_spec(m, cfg) == SentryDecision::Keep,
{
}

/// Precedence of the hard failure: whenever the mean deviates beyond the
/// tolerance or the jitter exceeds the kill threshold, and the warm-up gate
/// is passed, the verdict is `Kill` — never `Throttle`, even if the softer
/// conditions hold as well.
pub proof fn lemma_hard_failure_kills(m: EntropyMetrics, cfg: EntropyConfig)
    requires
        m.sample_count >= cfg.min_samples,
        mean_hard_breach(m, cfg) || jitter_exceeds(m, cfg.kill_jitter_ppm),
    ensures
        decide_spec(m, cfg) == SentryDecision::Kill,
{
}

/// Idempotence: the snapshot and the verdict are functions of the history
/// and the configuration alone, so repeated computations without an
/// intervening observation agree.
pub proof fn lemma_projections_deterministic(
    m1: EntropyMetrics,
    m2: EntropyMetrics,
    h: Seq<u8>,
    cfg: EntropyConfig,
)
    requires
        m1 == metrics_of(h),
        m2 == metrics_of(h),
    ensures
        m1 == m2,
        decide_spec(m1, cfg) == decide_spec(m2, cfg),
{
}

/// The running sums of a constant history: `n` copies of `k` sum to `n * k`
/// and their squares to `n * k^2`, and consecutive observations never differ.
proof fn lemma_constant_sums(h: Seq<u8>, k: u8)
    requires
        forall|i: int| 0 <= i < h.len() ==> h[i] == k,
    ensures
        sum_of(h) == h.len() * k,
        sum_sq_of(h) == h.len() * (k * k),
        diff_sum_of(h) == 0,
    decreases h.len(),
{
    if h.len() > 0 {
        let g = h.drop_last();
        lemma_constant_sums(g, k);
        let n = g.len() as int;
        assert((n + 1) * k == n * k + k) by (nonlinear_arith);
        assert((n + 1) * (k * k) == n * (k * k) + k * k) by (nonlinear_arith);
    }
}

/// A stuck source, which returns the same word forever: jitter and variance
/// are exactly zero at every history length; and once the warm-up gate is
/// passed, a constant density whose gap to the configured center exceeds the
/// tolerance (all scaled to one word: `|PPM_SCALE * k - WORD_BITS * center| >
/// WORD_BITS * tolerance`) forces the verdict `Kill` through the mean rule.
pub proof fn lemma_constant_source(h: Seq<u8>, k: u8, cfg: EntropyConfig)
    requires
        obs_ok(h),
        h.len() <= MAX_SAMPLES,
        h.len() >= 1,
        forall|i: int| 0 <= i < h.len() ==> h[i] == k,
    ensures
        metrics_of(h).jitter.num == 0,
        metrics_of(h).variance.num == 0,
        h.len() >= cfg.min_samples && dist(
            PPM_SCALE * k,
            WORD_BITS * cfg.mean_center_ppm,
        ) > WORD_BITS * cfg.mean_tolerance_ppm ==> decide_spec(metrics_of(h), cfg)
            == SentryDecision::Kill,
{
    lemma_constant_sums(h, k);
    let n = h.len() as int;
    let q = sum_sq_of(h);
    let s = sum_of(h);
    assert(disp_of(h) == 0) by (nonlinear_arith)
        requires
            n >= 0,
            s == n * k,
            q == n * (k * k),
            disp_of(h) == n * q - s * s,
    ;
    crate::metrics::lemma_sums_bounded(h);
    let m = metrics_of(h);
    assert(m.mean.num == n * k);
    assert(m.mean.den == WORD_BITS * n);
    if h.len() >= cfg.min_samples && dist(PPM_SCALE * k, WORD_BITS * cfg.mean_center_ppm)
        > WORD_BITS * cfg.mean_tolerance_ppm {
        let a = PPM_SCALE * k;
        let b = WORD_BITS * cfg.mean_center_ppm;
        let t = WORD_BITS * cfg.mean_tolerance_ppm;
        assert(dist(n * a, n * b) == n * dist(a, b)) by (nonlinear_arith)
            requires
                n >= 1,
        ;
        assert(n * dist(a, b) > n * t) by (nonlinear_arith)
            requires
                n >= 1,
                dist(a, b) > t,
        ;
        assert(PPM_SCALE * m.mean.num == n * a) by (nonlinear_arith)
            requires
                m.mean.num == n * k,
                a == PPM_SCALE * k,
        ;
        assert(cfg.mean_center_ppm * m.mean.den == n * b) by (nonlinear_arith)
            requires
                m.mean.den == WORD_BITS * n,
                b == WORD_BITS * cfg.mean_center_ppm,
        ;
        assert(cfg.mean_tolerance_ppm * m.mean.den == n * t) by (nonlinear_arith)
            requires
                m.mean.den == WORD_BITS * n,
                t == WORD_BITS * cfg.mean_tolerance_ppm,
        ;
        assert(mean_hard_breach(m, cfg));
    }
}

} // verus!
