//! Difficulty tiers of the computer opponent.

use vstd::prelude::*;

verus! {

/// How the computer opponent picks its moves.
#[derive(Debug, Clone, Copy, PartialEq, Eq, Structural)]
pub enum AiDifficulty {
    /// Uniformly random legal moves.
    Easy,
    /// Counters the opponent's most frequent move.
    Normal,
    /// Counters the move that a recency-weighted window predicts.
    Hard,
}

} // verus!
