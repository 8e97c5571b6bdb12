//! A generational genetic-algorithm engine over fixed-length binary chromosomes.
//!
//! The stochastic operators are written as functions of the random draws they
//! consume, so every decision the engine makes is verified for every draw;
//! the draws themselves come from `rand`.
mod random;

pub mod operators;
pub mod population;
pub mod fitness;
