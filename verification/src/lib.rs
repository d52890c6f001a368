//! A small, self-calibrating micro-benchmarking harness.
//!
//! Samples are elapsed times in whole nanoseconds. The statistics over a
//! series of samples are computed in exact integer arithmetic, so every
//! decision the harness takes (when an adaptive run stops, which of two runs
//! was slower) is a function of the recorded samples alone.

pub mod benching;
pub mod clock;
pub mod render;
pub mod stats;
pub mod style;
