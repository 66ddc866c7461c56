//! Adaptive literal-cost evaluator for a byte-stream compressor.
//!
//! In a single forward pass over the literal bytes of an input, several
//! competing statistical prediction models are evaluated in parallel: every
//! model observes every literal, the bit cost each model would have spent is
//! accumulated per mixing bucket, and a post-pass selector turns the
//! accumulated costs into one model choice per bucket.
//!
//! All cost arithmetic is fixed point (1/256 bit units), so the whole pass is
//! deterministic and bit-exact.

pub mod cdf;
pub mod context_map;
pub mod eval;
pub mod fixed_log;
pub mod models;
pub mod select;
