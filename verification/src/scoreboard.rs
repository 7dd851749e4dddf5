//! Lifetime statistics of the players, kept by name.

pub mod scoreboard;
pub mod stats;
