//! A toolkit for solving finite Markov decision processes with discrete,
//! enumerable state and action spaces.
//!
//! Scalar quantities (rewards, value estimates, rates) are fixed-point
//! numbers: an `i64` counting millionths. See the `fixed` module.

pub mod defaults;
pub mod environments;
pub mod errors;
pub mod fixed;
pub mod models;
mod random;
pub mod solvers;
