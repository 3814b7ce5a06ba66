//! Incremental trail generator.
//!
//! Turns a sparse stream of pointer positions into a dense, smooth chain of
//! quadratic curve segments, computes a per-segment stroke weight from local
//! speed, and manages the retained history buffer under two retention
//! policies. Coordinates are exact fixed-point integers chosen by the caller;
//! stroke weights are exact rationals.

pub mod arith;
pub mod geom;
pub mod weight;
pub mod trail;
pub mod sched;
pub mod engine;
