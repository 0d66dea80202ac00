//! Concrete environments implementing the MDP interface.

pub mod gridworld;
