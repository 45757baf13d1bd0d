//! Core logic for a rotating queue of performers ("DJs") at a live event:
//! a weighted lottery draw over registered performers, a dense queue-position
//! ledger, and an event-session clock that signals when the next draw is due.
//!
//! Weights and probabilities are fixed-point numbers in micro-units
//! (`WEIGHT_SCALE` micro-units equal 1.0), and all timestamps are unix
//! seconds, so that every rule can be stated and proved exactly.

use vstd::prelude::*;

pub mod errors;
pub mod external;
pub mod laws;
pub mod models;
pub mod services;
pub mod utils;

verus! {

/// Fixed-point scale: one unit of weight is `WEIGHT_SCALE` micro-units, and
/// a probability of one is `WEIGHT_SCALE` parts per million.
pub const WEIGHT_SCALE: u64 = 1_000_000;

/// Largest admissible base weight in micro-units (a real weight of 1000.0).
pub const MAX_WEIGHT_MICROS: u64 = 1_000_000_000;

/// Smallest weight the lottery will ever assign (a real weight of 0.1):
/// the floor that keeps every candidate's probability above zero.
pub const MIN_WEIGHT_MICROS: u64 = 100_000;

/// Waiting bonus per full hour since registration, in micro-units (+10%).
pub const HOUR_BONUS_MICROS: u64 = 100_000;

/// Cap on the waiting bonus, in micro-units (+20%).
pub const MAX_BONUS_MICROS: u64 = 200_000;

/// Largest timestamp the model admits: 9999-12-31T23:59:59Z in unix seconds.
/// Keeping timestamps in `[0, MAX_TIMESTAMP]` rules out arithmetic overflow
/// and keeps formatted years at four digits.
pub const MAX_TIMESTAMP: i64 = 253_402_300_799;

/// Largest candidate pool a single draw admits; keeps the weight sum inside
/// `u64` no matter how the individual weights fall.
pub const MAX_POOL: usize = 1_000_000;

/// A unix-second timestamp inside the model's admissible range.
pub open spec fn valid_timestamp(t: i64) -> bool {
    0 <= t <= MAX_TIMESTAMP
}

} // verus!
