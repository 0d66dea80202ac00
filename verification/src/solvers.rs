//! The solving algorithms: dynamic programming and temporal difference.

pub mod dp;
pub mod td;
