//! The participants of a match: humans and computer opponents.

pub mod ai;
pub mod ai_difficulty;
pub mod player;
pub mod prediction;
