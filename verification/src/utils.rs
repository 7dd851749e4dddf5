//! Helpers on text: comparing names and reading a player's input.

pub mod input;
pub mod text;
