//! The bundle of algorithm hyperparameters consumed by every solver.

use vstd::prelude::*;
use crate::defaults::{
    DISCOUNT_FACTOR, EXPLORATION_RATE, LEARNING_RATE, MAX_NUM_STEPS, NUM_EPISODES,
};
use crate::fixed::SCALE;

verus! {

/// The configuration for the solving algorithms, immutable after
/// construction.
///
/// `discount_factor`, `learning_rate` and `exploration_rate` are
/// fixed-point rates counting millionths, each within `[0, SCALE]`.
/// `iterations_before_improvement` caps the policy-evaluation sweeps per
/// improvement round: `None` selects policy-iteration semantics, a
/// positive cap selects value-iteration semantics.
#[derive(Debug)]
pub struct Config {
    pub discount_factor: i64,
    pub max_num_steps: u32,
    pub num_episodes: u32,
    pub learning_rate: i64,
    pub exploration_rate: i64,
    pub iterations_before_improvement: Option<u32>,
}

impl Config {
    /// The rates lie in `[0, 1]`, the learning rate strictly above zero.
    pub open spec fn wf(&self) -> bool {
        &&& 0 <= self.discount_factor <= SCALE
        &&& 0 < self.learning_rate <= SCALE
        &&& 0 <= self.exploration_rate <= SCALE
    }

    /// Creates a configuration with the default values.
    pub fn new() -> (r: Config)
        ensures
            r.wf(),
            r.discount_factor == DISCOUNT_FACTOR,
            r.max_num_steps == MAX_NUM_STEPS,
            r.num_episodes == NUM_EPISODES,
            r.learning_rate == LEARNING_RATE,
            r.exploration_rate == EXPLORATION_RATE,
            r.iterations_before_improvement is None,
    {
        Config {
            discount_factor: DISCOUNT_FACTOR,
            max_num_steps: MAX_NUM_STEPS,
            num_episodes: NUM_EPISODES,
            learning_rate: LEARNING_RATE,
            exploration_rate: EXPLORATION_RATE,
            iterations_before_improvement: None,
        }
    }

    /// Sets the discount factor and returns the config.
    pub fn discount_factor(self, discount_factor: i64) -> (r: Config)
        requires
            0 <= discount_factor <= SCALE,
        ensures
            r.discount_factor == discount_factor,
            r.max_num_steps == self.max_num_steps,
            r.num_episodes == self.num_episodes,
            r.learning_rate == self.learning_rate,
            r.exploration_rate == self.exploration_rate,
            r.iterations_before_improvement == self.iterations_before_improvement,
    {
        Config { discount_factor, ..self }
    }

    /// Sets the maximum number of steps per episode and returns the config.
    pub fn max_num_steps(self, max_num_steps: u32) -> (r: Config)
        ensures
            r.max_num_steps == max_num_steps,
            r.discount_factor == self.discount_factor,
            r.num_episodes == self.num_episodes,
            r.learning_rate == self.learning_rate,
            r.exploration_rate == self.exploration_rate,
            r.iterations_before_improvement == self.iterations_before_improvement,
    {
        Config { max_num_steps, ..self }
    }

    /// Sets the number of episodes and returns the config.
    pub fn num_episodes(self, num_episodes: u32) -> (r: Config)
        ensures
            r.num_episodes == num_episodes,
            r.discount_factor == self.discount_factor,
            r.max_num_steps == self.max_num_steps,
            r.learning_rate == self.learning_rate,
            r.exploration_rate == self.exploration_rate,
            r.iterations_before_improvement == self.iterations_before_improvement,
    {
        Config { num_episodes, ..self }
    }

    /// Sets the learning rate and returns the config.
    pub fn learning_rate(self, learning_rate: i64) -> (r: Config)
        requires
            0 < learning_rate <= SCALE,
        ensures
            r.learning_rate == learning_rate,
            r.discount_factor == self.discount_factor,
            r.max_num_steps == self.max_num_steps,
            r.num_episodes == self.num_episodes,
            r.exploration_rate == self.exploration_rate,
            r.iterations_before_improvement == self.iterations_before_improvement,
    {
        Config { learning_rate, ..self }
    }

    /// Sets the exploration rate and returns the config.
    pub fn exploration_rate(self, exploration_rate: i64) -> (r: Config)
        requires
            0 <= exploration_rate <= SCALE,
        ensures
            r.exploration_rate == exploration_rate,
            r.discount_factor == self.discount_factor,
            r.max_num_steps == self.max_num_steps,
            r.num_episodes == self.num_episodes,
            r.learning_rate == self.learning_rate,
            r.iterations_before_improvement == self.iterations_before_improvement,
    {
        Config { exploration_rate, ..self }
    }

    /// Sets the cap on evaluation sweeps per improvement round and
    /// returns the config.
    pub fn iterations_before_improvement(self, iterations_before_improvement: Option<u32>) -> (r:
        Config)
        ensures
            r.iterations_before_improvement == iterations_before_improvement,
            r.discount_factor == self.discount_factor,
            r.max_num_steps == self.max_num_steps,
            r.num_episodes == self.num_episodes,
            r.learning_rate == self.learning_rate,
            r.exploration_rate == self.exploration_rate,
    {
        Config { iterations_before_improvement, ..self }
    }
}

impl Default for Config {
    /// The configuration with all default values.
    fn default() -> (r: Config)
        ensures
            r.wf(),
    {
        Config::new()
    }
}

} // verus!
