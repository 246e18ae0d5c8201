//! An online classifier that decides, circuit by circuit, whether traffic to
//! a hidden service is forwarded or absorbed. It learns a bounded set of
//! regions, each with a classical centroid and a quantum-state center,
//! scores samples against them with a hybrid resonance, decides against an
//! adaptive threshold, and consolidates near-duplicate regions.
//!
//! All scores, probabilities, rates and thresholds are fixed-point integers
//! in parts per million (see `fixed`).
use vstd::prelude::*;

pub mod fixed;
pub mod quantum;
pub mod signature;
pub mod region;
pub mod config;
pub mod kernel;
pub mod decision;
pub mod threshold;
pub mod optimizer;
pub mod engine;
pub mod tor;

verus! {

/// Version string of the library.
pub const VERSION: &'static str = "0.1.0";

} // verus!
