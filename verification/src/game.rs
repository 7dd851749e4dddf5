//! The game itself: gestures and rulesets, match formats, match state,
//! round resolution and the course of a match.

pub mod game_loop;
pub mod game_state;
pub mod match_settings;
pub mod round;
pub mod rules;
pub mod summary;
