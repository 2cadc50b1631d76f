//! Entropy-quality monitor: samples a secure randomness source, derives
//! rolling statistics (mean, variance, jitter of the bit-density of each
//! sampled word), and issues a three-tier verdict (Keep / Throttle / Kill)
//! telling consumers of the source whether to proceed, slow down, or stop.
//!
//! Every observation is the number of set bits in one 64-bit word, so all
//! statistics are exact rationals over integers; configuration thresholds are
//! fractions in parts per million. No floating point is involved anywhere,
//! which is what makes the statistics and the decision policy fully provable.

pub mod engine;
pub mod laws;
pub mod metrics;
pub mod sentry;

pub use crate::engine::{EntropyConfig, EntropyEngine, EntropyError};
pub use crate::metrics::{EntropyMetrics, Ratio};
pub use crate::sentry::SentryDecision;
