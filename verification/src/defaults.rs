//! Default values for the `Config` struct.
//!
//! Rates are fixed-point numbers counting millionths (see the `fixed`
//! module): `970_000` stands for `0.97`.

use vstd::prelude::*;

verus! {

/// The default discount factor, `0.97`.
pub const DISCOUNT_FACTOR: i64 = 970_000;

/// The default maximum number of steps per episode.
pub const MAX_NUM_STEPS: u32 = 1_000;

/// The default number of episodes.
pub const NUM_EPISODES: u32 = 500;

/// The default learning rate, `0.3`.
pub const LEARNING_RATE: i64 = 300_000;

/// The default exploration rate, `0.1`.
pub const EXPLORATION_RATE: i64 = 100_000;

} // verus!
