use krypton_entropy_core::{
    EntropyConfig, EntropyEngine, EntropyError, EntropyMetrics, Ratio, SentryDecision,
};

/// Exact rational as a floating-point value, for range checks only.
fn ratio_f(r: Ratio) -> f64 {
    r.num as f64 / r.den as f64
}

#[test]
fn engine_stats_look_reasonable() {
    let cfg = EntropyConfig::default();
    let mut engine = EntropyEngine::with_config(cfg).unwrap();

    let samples = 10_000_u64;
    for _ in 0..samples {
        engine.sample().unwrap();
    }

    let m: EntropyMetrics = engine.metrics();

    // Mean should be near 0.5
    let mean = ratio_f(m.mean);
    assert!((mean - 0.5).abs() < 0.05, "mean out of range: {}", mean);

    // Variance should be in a sane band for bit-density of a random u64
    let variance = ratio_f(m.variance);
    assert!(
        variance > 0.001 && variance < 0.01,
        "variance out of range: {}",
        variance
    );

    // Jitter should be non-crazy and we should have all samples counted.
    let jitter = ratio_f(m.jitter);
    assert!(
        jitter > 0.0 && jitter < 0.2,
        "jitter out of range: {}",
        jitter
    );
    assert_eq!(m.sample_count, samples);
}

#[test]
fn default_config_decision_does_not_panic() {
    let cfg = EntropyConfig::default();
    let mut engine = EntropyEngine::with_config(cfg).unwrap();

    for _ in 0..(cfg.min_samples + 512) {
        engine.sample().unwrap();
    }

    let d: SentryDecision = engine.decision();
    match d {
        SentryDecision::Keep | SentryDecision::Throttle | SentryDecision::Kill => {} // ok
    }
}

#[test]
fn aggressive_config_can_kill_when_metrics_are_weird() {
    // Deliberately insane config to force Kill once we have enough samples.
    let cfg = EntropyConfig {
        min_samples: 64,
        mean_center_ppm: 0, // totally wrong on purpose
        mean_tolerance_ppm: 100,
        max_jitter_ppm: 0,
        kill_jitter_ppm: 0,
    };

    let mut engine = EntropyEngine::with_config(cfg).unwrap();

    for _ in 0..(cfg.min_samples + 512) {
        engine.sample().unwrap();
    }

    let d = engine.decision();
    assert_eq!(
        d,
        SentryDecision::Kill,
        "expected Kill under hostile config, got {:?}",
        d
    );
}

#[test]
fn fresh_engine_reports_zeros_and_keeps() {
    let engine = EntropyEngine::new();
    let m = engine.metrics();
    assert_eq!(m.sample_count, 0);
    assert_eq!(m.mean, Ratio { num: 0, den: 1 });
    assert_eq!(m.variance, Ratio { num: 0, den: 1 });
    assert_eq!(m.jitter, Ratio { num: 0, den: 1 });
    assert_eq!(engine.decision(), SentryDecision::Keep);
}

#[test]
fn single_observation_has_zero_variance_and_jitter() {
    let mut engine = EntropyEngine::new();
    let k = engine.record_word(0xFF); // eight set bits
    assert_eq!(k, 8);
    let m = engine.metrics();
    assert_eq!(m.sample_count, 1);
    assert_eq!(m.mean, Ratio { num: 8, den: 64 });
    assert_eq!(m.variance, Ratio { num: 0, den: 1 });
    assert_eq!(m.jitter, Ratio { num: 0, den: 1 });
}

#[test]
fn record_word_counts_bits_exactly() {
    let mut engine = EntropyEngine::new();
    assert_eq!(engine.record_word(0), 0);
    assert_eq!(engine.record_word(0b1011), 3);
    assert_eq!(engine.record_word(u64::MAX), 64);
    assert_eq!(engine.record_word(0x8000_0000_0000_0001), 2);
}

#[test]
fn two_extreme_observations_give_exact_statistics() {
    let mut engine = EntropyEngine::new();
    engine.record_word(0); // density 0
    engine.record_word(u64::MAX); // density 1

    let m = engine.metrics();
    assert_eq!(m.sample_count, 2);
    // mean = (0 + 64) / (64 * 2) = 1/2
    assert_eq!(m.mean, Ratio { num: 64, den: 128 });
    // sample variance of {0, 1} = 1/2: (2 * 64^2 - 64^2) / (64^2 * 2 * 1)
    assert_eq!(m.variance, Ratio { num: 4096, den: 8192 });
    // jitter = |1 - 0| = 1: 64 / (64 * 1)
    assert_eq!(m.jitter, Ratio { num: 64, den: 64 });
}

#[test]
fn warm_up_gate_keeps_before_min_samples() {
    let mut engine = EntropyEngine::new(); // min_samples = 256
    for _ in 0..100 {
        engine.sample().unwrap();
        assert_eq!(engine.decision(), SentryDecision::Keep);
    }
}

#[test]
fn projections_are_idempotent_between_samples() {
    let mut engine = EntropyEngine::new();
    for _ in 0..50 {
        engine.sample().unwrap();
    }
    let m1 = engine.metrics();
    let m2 = engine.metrics();
    assert_eq!(m1, m2);
    let d1 = engine.decision();
    let d2 = engine.decision();
    assert_eq!(d1, d2);
}

#[test]
fn stuck_source_has_zero_jitter_and_kills_on_mean() {
    let cfg = EntropyConfig {
        min_samples: 4,
        mean_center_ppm: 500_000,
        mean_tolerance_ppm: 10_000, // 0.01: tight around 0.5
        max_jitter_ppm: 0,
        kill_jitter_ppm: 0,
    };
    let mut engine = EntropyEngine::with_config(cfg).unwrap();

    let word = (1u64 << 33) - 1; // 33 set bits: density 33/64, off center by 1/64
    for _ in 0..100 {
        engine.record_word(word);
        let m = engine.metrics();
        assert_eq!(m.jitter.num, 0);
        assert_eq!(m.variance.num, 0);
    }
    assert_eq!(engine.decision(), SentryDecision::Kill);
}

#[test]
fn stuck_source_on_the_exact_center_is_kept() {
    let cfg = EntropyConfig {
        min_samples: 4,
        mean_center_ppm: 500_000,
        mean_tolerance_ppm: 0, // nothing but the exact center passes
        max_jitter_ppm: 100_000,
        kill_jitter_ppm: 180_000,
    };
    let mut engine = EntropyEngine::with_config(cfg).unwrap();

    for _ in 0..100 {
        engine.record_word(0xFFFF_FFFF); // exactly 32 set bits: density 1/2
    }
    assert_eq!(engine.decision(), SentryDecision::Keep);
}

#[test]
fn zero_min_samples_is_rejected() {
    let cfg = EntropyConfig {
        min_samples: 0,
        ..EntropyConfig::default()
    };
    assert_eq!(
        EntropyEngine::with_config(cfg).unwrap_err(),
        EntropyError::Misconfiguration
    );
}

#[test]
fn kill_threshold_below_throttle_threshold_is_rejected() {
    let cfg = EntropyConfig {
        max_jitter_ppm: 100_000,
        kill_jitter_ppm: 50_000,
        ..EntropyConfig::default()
    };
    assert_eq!(
        EntropyEngine::with_config(cfg).unwrap_err(),
        EntropyError::Misconfiguration
    );
}

#[test]
fn named_profiles_hold_their_documented_values() {
    let d = EntropyConfig::default();
    assert_eq!(
        (
            d.min_samples,
            d.mean_center_ppm,
            d.mean_tolerance_ppm,
            d.max_jitter_ppm,
            d.kill_jitter_ppm
        ),
        (256, 500_000, 50_000, 100_000, 180_000)
    );
    let a = EntropyConfig::aggressive();
    assert_eq!(
        (
            a.min_samples,
            a.mean_center_ppm,
            a.mean_tolerance_ppm,
            a.max_jitter_ppm,
            a.kill_jitter_ppm
        ),
        (128, 500_000, 30_000, 70_000, 140_000)
    );
}

#[test]
fn severity_orders_the_verdicts() {
    assert_eq!(SentryDecision::Keep.severity(), 0);
    assert_eq!(SentryDecision::Throttle.severity(), 1);
    assert_eq!(SentryDecision::Kill.severity(), 2);
    assert!(SentryDecision::Keep.severity() < SentryDecision::Throttle.severity());
    assert!(SentryDecision::Throttle.severity() < SentryDecision::Kill.severity());
}

#[test]
fn sample_grows_history_by_one() {
    let mut engine = EntropyEngine::new();
    for expected in 1..=20u64 {
        let k = engine.sample().unwrap();
        assert!(k <= 64);
        assert_eq!(engine.metrics().sample_count, expected);
    }
}
