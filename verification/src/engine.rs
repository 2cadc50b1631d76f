//! The entropy engine: configuration, sampling, and the verdict.
//!
//! The engine owns an immutable configuration and the append-only observation
//! history. `sample` draws one word from the operating system's entropy
//! source and records its bit count; `metrics` and `decision` are pure
//! projections of the history, recomputed on every call.

use vstd::prelude::*;

use rand::RngCore;

use crate::metrics::{metrics_of, obs_ok, spec_popcount, EntropyMetrics, MAX_SAMPLES, WORD_BITS};
use crate::sentry::{decide, decide_spec, SentryDecision};

verus! {

/// What can go wrong: the randomness source failing to supply a word, or a
/// configuration rejected at construction.
#[derive(Clone, Copy, Debug, PartialEq, Eq, Structural)]
pub enum EntropyError {
    /// The secure randomness source could not supply a value. The failure
    /// propagates; no synthetic or cached value is ever substituted.
    SourceUnavailable,
    /// The configuration was invalid: `min_samples` of zero, or a kill
    /// threshold below the throttle threshold (which would make `Throttle`
    /// unreachable before `Kill`).
    Misconfiguration,
}

/// Configuration of the engine and its decision policy, immutable once the
/// engine is built. Threshold fields are fractions in parts per million
/// (`PPM_SCALE`), so a field holding 50_000 stands for 0.05.
#[derive(Clone, Copy, Debug, PartialEq, Eq, Structural)]
pub struct EntropyConfig {
    /// Minimum observations before any verdict other than `Keep` may be
    /// issued.
    pub min_samples: u64,
    /// Expected center of the mean bit-density, in parts per million;
    /// 500_000 stands for the 0.5 of a healthy uniform source.
    pub mean_center_ppm: u64,
    /// Allowed absolute deviation of the mean from the center, in parts per
    /// million, before the hard failure rule fires.
    pub mean_tolerance_ppm: u64,
    /// Jitter level, in parts per million, above which consumers are
    /// throttled.
    pub max_jitter_ppm: u64,
    /// Jitter level, in parts per million, above which the source is killed.
    pub kill_jitter_ppm: u64,
}

impl EntropyConfig {
    /// A configuration is valid when the warm-up gate exists at all and the
    /// kill threshold is no lower than the throttle threshold.
    pub open spec fn valid(self) -> bool {
        &&& self.min_samples >= 1
        &&& self.max_jitter_ppm <= self.kill_jitter_ppm
    }

    /// The default profile: lenient tolerances with a long warm-up.
    pub open spec fn spec_default() -> EntropyConfig {
        EntropyConfig {
            min_samples: 256,
            mean_center_ppm: 500_000,
            mean_tolerance_ppm: 50_000,
            max_jitter_ppm: 100_000,
            kill_jitter_ppm: 180_000,
        }
    }

    /// The aggressive profile: shorter warm-up and tighter tolerances, so
    /// `Throttle` and `Kill` are easier to trigger.
    pub open spec fn spec_aggressive() -> EntropyConfig {
        EntropyConfig {
            min_samples: 128,
            mean_center_ppm: 500_000,
            mean_tolerance_ppm: 30_000,
            max_jitter_ppm: 70_000,
            kill_jitter_ppm: 140_000,
        }
    }

    /// More sensitive profile than the default.
    pub fn aggressive() -> (cfg: EntropyConfig)
        ensures
            cfg == EntropyConfig::spec_aggressive(),
            cfg.valid(),
    {
        EntropyConfig {
            min_samples: 128,
            mean_center_ppm: 500_000,
            mean_tolerance_ppm: 30_000,
            max_jitter_ppm: 70_000,
            kill_jitter_ppm: 140_000,
        }
    }
}

impl Default for EntropyConfig {
    /// The default profile, as `spec_default` states it.
    fn default() -> (cfg: EntropyConfig)
        ensures
            cfg == EntropyConfig::spec_default(),
            cfg.valid(),
    {
        EntropyConfig {
            min_samples: 256,
            mean_center_ppm: 500_000,
            mean_tolerance_ppm: 50_000,
            max_jitter_ppm: 100_000,
            kill_jitter_ppm: 180_000,
        }
    }
}

/// Relies on `rand::rngs::OsRng` (`RngCore::try_fill_bytes`, backed by the
/// `getrandom` system call): eight uniformly random bytes from the operating
/// system's secure entropy source, or `Err` when the source is unavailable.
/// Nothing can be promised of the value itself.
#[verifier::external_body]
fn draw_word() -> (r: Result<u64, ()>) {
    let mut buf = [0u8; 8];
    match rand::rngs::OsRng.try_fill_bytes(&mut buf) {
        Ok(()) => Ok(u64::from_le_bytes(buf)),
        Err(_) => Err(()),
    }
}

/// The entropy engine: the configuration it was built with and the
/// append-only history of bit-count observations.
#[derive(Debug)]
pub struct EntropyEngine {
    cfg: EntropyConfig,
    samples: Vec<u8>,
}

impl View for EntropyEngine {
    type V = Seq<u8>;

    /// The engine is abstractly its observation history.
    closed spec fn view(&self) -> Seq<u8> {
        self.samples@
    }
}

impl EntropyEngine {
    /// Invariant of every engine: a valid configuration, every observation a
    /// bit count of one word, and the history within capacity.
    pub open spec fn wf(self) -> bool {
        &&& self.spec_cfg().valid()
        &&& obs_ok(self@)
        &&& self@.len() <= MAX_SAMPLES
    }

    /// The configuration the engine was built with.
    pub closed spec fn spec_cfg(self) -> EntropyConfig {
        self.cfg
    }

    /// Create an engine with the given configuration and an empty history.
    /// An invalid configuration is rejected here, never deferred into
    /// nonsensical verdicts.
    pub fn with_config(cfg: EntropyConfig) -> (r: Result<EntropyEngine, EntropyError>)
        ensures
            cfg.valid() <==> r is Ok,
            match r {
                Ok(engine) => {
                    &&& engine.wf()
                    &&& engine.spec_cfg() == cfg
                    &&& engine@ === Seq::<u8>::empty()
                },
                Err(e) => e == EntropyError::Misconfiguration,
            },
    {
        if cfg.min_samples < 1 || cfg.kill_jitter_ppm < cfg.max_jitter_ppm {
            return Err(EntropyError::Misconfiguration);
        }
        let engine = EntropyEngine { cfg, samples: Vec::new() };
        assert(engine@ =~= Seq::<u8>::empty());
        Ok(engine)
    }

    /// Create an engine with the default configuration.
    pub fn new() -> (engine: EntropyEngine)
        ensures
            engine.wf(),
            engine.spec_cfg() == EntropyConfig::spec_default(),
            engine@ === Seq::<u8>::empty(),
    {
        let engine = EntropyEngine { cfg: EntropyConfig::default(), samples: Vec::new() };
        assert(engine@ =~= Seq::<u8>::empty());
        engine
    }

    /// Reduce one 64-bit word to its observation and append it to the
    /// history: the bit count returned is exactly the number of set bits of
    /// `word`. `sample` feeds this from the secure source; a caller with its
    /// own source of words (a replayed or crafted sequence) may feed it
    /// directly.
    pub fn record_word(&mut self, word: u64) -> (k: u8)
        requires
            old(self).wf(),
            old(self)@.len() < MAX_SAMPLES,
        ensures
            final(self).wf(),
            final(self).spec_cfg() == old(self).spec_cfg(),
            k == spec_popcount(word as int),
            k <= WORD_BITS,
            final(self)@ === old(self)@.push(k),
    {
        let k = crate::metrics::popcount64(word);
        self.samples.push(k);
        k
    }

    /// Draw one word from the secure source, record its bit count, and
    /// return that count (the observed bit-density is the count over
    /// `WORD_BITS`). When the source cannot supply a value the failure
    /// propagates as `SourceUnavailable` and the history is unchanged: no
    /// fallback value is ever recorded.
    pub fn sample(&mut self) -> (r: Result<u8, EntropyError>)
        requires
            old(self).wf(),
            old(self)@.len() < MAX_SAMPLES,
        ensures
            final(self).wf(),
            final(self).spec_cfg() == old(self).spec_cfg(),
            match r {
                Ok(k) => k <= WORD_BITS && final(self)@ === old(self)@.push(k),
                Err(e) => e == EntropyError::SourceUnavailable && final(self)@ === old(self)@,
            },
    {
        match draw_word() {
            Ok(word) => Ok(self.record_word(word)),
            Err(()) => Err(EntropyError::SourceUnavailable),
        }
    }

    /// Compute the metrics snapshot of the complete current history.
    pub fn metrics(&self) -> (m: EntropyMetrics)
        requires
            self.wf(),
        ensures
            m == metrics_of(self@),
            m.wf(),
    {
        crate::metrics::EntropyMetrics::from_samples(&self.samples)
    }

    /// Compute the verdict of the current history under the engine's
    /// configuration: the decision policy applied to the current metrics.
    pub fn decision(&self) -> (verdict: SentryDecision)
        requires
            self.wf(),
        ensures
            verdict == decide_spec(metrics_of(self@), self.spec_cfg()),
    {
        let m = self.metrics();
        decide(&m, &self.cfg)
    }
}

} // verus!
