//! Rock-Paper-Scissors(-Lizard-Spock): the rules of the game, the state of a
//! match and how a round changes it, the course of a match, the computer
//! opponents, and the lifetime scoreboard.
//!
//! The functions of this library state what they do in contracts that
//! Verus proves. Three calls leave the library and are taken on trust, each
//! behind a small wrapper that says what is assumed of it: the random draw
//! and the random roll of the computer opponent, and the conversion of text
//! to lower case. Talking to a terminal and keeping files is not done here.

pub mod game;
pub mod menu;
pub mod players;
pub mod scoreboard;
pub mod utils;
