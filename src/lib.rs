//! Guarded streaming sepsis-risk inference for ICU monitoring.
//!
//! Every real quantity (measured values, feature weights, thresholds, risk,
//! confidence, contributions) is a fixed-point number in millionths: `ONE`
//! (1_000_000) stands for 1.0.
use vstd::prelude::*;

pub mod keyed;
pub mod text;
pub mod ethos;
pub mod inference;

verus! {

} // verus!
