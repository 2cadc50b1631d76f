//! The decision policy: a pure function from a metrics snapshot and a
//! configuration to a three-tier verdict.
//!
//! The rules, in precedence order (the first that matches wins):
//! 1. warm-up: below `min_samples` observations the verdict is `Keep`;
//! 2. hard failure: `|mean - center| > tolerance` or `jitter > kill_jitter`
//!    gives `Kill`;
//! 3. soft failure: `|mean - center| > tolerance / 2` or `jitter > max_jitter`
//!    gives `Throttle`;
//! 4. otherwise `Keep`.
//!
//! All comparisons are exact: each statistic is a rational `num / den` and
//! each threshold a fraction `t / PPM_SCALE`, so `stat > t / PPM_SCALE` is
//! decided by cross-multiplication in 128-bit integers.

use vstd::prelude::*;

use crate::engine::EntropyConfig;
use crate::metrics::{dist, EntropyMetrics, MAX_SAMPLES, PPM_SCALE, WORD_BITS};

verus! {

/// The verdict on the monitored source, in increasing severity: proceed
/// normally, rate-limit consumers, or cut the source off.
#[derive(Clone, Copy, Debug, PartialEq, Eq, Structural)]
pub enum SentryDecision {
    /// The source looks healthy (or is still warming up): proceed.
    Keep,
    /// The metrics are softly anomalous: rate-limit consumers.
    Throttle,
    /// The metrics are hard out of range: cut the source off.
    Kill,
}

impl SentryDecision {
    /// Position of the verdict in the total severity order
    /// `Keep < Throttle < Kill`.
    pub open spec fn spec_severity(self) -> int {
        match self {
            SentryDecision::Keep => 0,
            SentryDecision::Throttle => 1,
            SentryDecision::Kill => 2,
        }
    }

    /// Severity rank of the verdict, so that two verdicts compare by plain
    /// integer comparison of their ranks.
    pub fn severity(&self) -> (rank: u8)
        ensures
            rank == self.spec_severity(),
    {
        match self {
            SentryDecision::Keep => 0,
            SentryDecision::Throttle => 1,
            SentryDecision::Kill => 2,
        }
    }
}

/// The mean bit-density deviates from the configured center by strictly more
/// than the tolerance: `|mean - center/PPM_SCALE| > tolerance/PPM_SCALE`,
/// cross-multiplied by the positive `PPM_SCALE * mean.den`.
pub open spec fn mean_hard_breach(m: EntropyMetrics, cfg: EntropyConfig) -> bool {
    dist(PPM_SCALE * m.mean.num, cfg.mean_center_ppm * m.mean.den) > cfg.mean_tolerance_ppm
        * m.mean.den
}

/// The mean deviates by strictly more than half the tolerance.
pub open spec fn mean_soft_breach(m: EntropyMetrics, cfg: EntropyConfig) -> bool {
    2 * dist(PPM_SCALE * m.mean.num, cfg.mean_center_ppm * m.mean.den) > cfg.mean_tolerance_ppm
        * m.mean.den
}

/// The jitter exceeds the threshold `limit_ppm / PPM_SCALE` strictly.
pub open spec fn jitter_exceeds(m: EntropyMetrics, limit_ppm: u64) -> bool {
    PPM_SCALE * m.jitter.num > limit_ppm * m.jitter.den
}

/// The decision policy as a mathematical function; `decide` returns exactly
/// this.
pub open spec fn decide_spec(m: EntropyMetrics, cfg: EntropyConfig) -> SentryDecision {
    if m.sample_count < cfg.min_samples {
        SentryDecision::Keep
    } else if mean_hard_breach(m, cfg) || jitter_exceeds(m, cfg.kill_jitter_ppm) {
        SentryDecision::Kill
    } else if mean_soft_breach(m, cfg) || jitter_exceeds(m, cfg.max_jitter_ppm) {
        SentryDecision::Throttle
    } else {
        SentryDecision::Keep
    }
}

/// Map a metrics snapshot and a configuration to a verdict. Pure and
/// deterministic: the verdict is a function of the two arguments alone,
/// evaluated with the warm-up gate first and `Kill` before `Throttle`.
pub fn decide(m: &EntropyMetrics, cfg: &EntropyConfig) -> (verdict: SentryDecision)
    requires
        m.wf(),
    ensures
        verdict == decide_spec(*m, *cfg),
{
    if m.sample_count < cfg.min_samples {
        return SentryDecision::Keep;
    }
    proof {
        lemma_policy_products_fit(*m, *cfg);
    }
    let scaled_mean: u128 = (PPM_SCALE as u128) * m.mean.num;
    let centered: u128 = (cfg.mean_center_ppm as u128) * m.mean.den;
    let delta: u128 = if scaled_mean >= centered {
        scaled_mean - centered
    } else {
        centered - scaled_mean
    };
    let tolerance_rhs: u128 = (cfg.mean_tolerance_ppm as u128) * m.mean.den;
    let scaled_jitter: u128 = (PPM_SCALE as u128) * m.jitter.num;
    if delta > tolerance_rhs || scaled_jitter > (cfg.kill_jitter_ppm as u128) * m.jitter.den {
        return SentryDecision::Kill;
    }
    if 2 * delta > tolerance_rhs || scaled_jitter > (cfg.max_jitter_ppm as u128) * m.jitter.den {
        return SentryDecision::Throttle;
    }
    SentryDecision::Keep
}

/// Every product the policy forms over a well-formed snapshot fits in 128
/// bits: factors are bounded by `u64::MAX` and `WORD_BITS * MAX_SAMPLES`.
proof fn lemma_policy_products_fit(m: EntropyMetrics, cfg: EntropyConfig)
    requires
        m.wf(),
    ensures
        PPM_SCALE * m.mean.num < u128::MAX / 4,
        cfg.mean_center_ppm * m.mean.den < u128::MAX / 4,
        cfg.mean_tolerance_ppm * m.mean.den < u128::MAX / 4,
        PPM_SCALE * m.jitter.num < u128::MAX / 4,
        cfg.kill_jitter_ppm * m.jitter.den < u128::MAX / 4,
        cfg.max_jitter_ppm * m.jitter.den < u128::MAX / 4,
{
    let b: int = WORD_BITS * MAX_SAMPLES;
    let u: int = u64::MAX as int;
    vstd::arithmetic::mul::lemma_mul_upper_bound(PPM_SCALE as int, u, m.mean.num as int, b);
    vstd::arithmetic::mul::lemma_mul_upper_bound(cfg.mean_center_ppm as int, u, m.mean.den as int, b);
    vstd::arithmetic::mul::lemma_mul_upper_bound(cfg.mean_tolerance_ppm as int, u, m.mean.den as int, b);
    vstd::arithmetic::mul::lemma_mul_upper_bound(PPM_SCALE as int, u, m.jitter.num as int, b);
    vstd::arithmetic::mul::lemma_mul_upper_bound(cfg.kill_jitter_ppm as int, u, m.jitter.den as int, b);
    vstd::arithmetic::mul::lemma_mul_upper_bound(cfg.max_jitter_ppm as int, u, m.jitter.den as int, b);
}

} // verus!
