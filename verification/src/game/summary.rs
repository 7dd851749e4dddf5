//! Figures for the summaries shown after a round and after a match.

use vstd::prelude::*;
use crate::game::game_state::{lemma_histories_append_in_order, GameState, GameStateView};
use crate::game::round::{count_outcomes, lemma_scores_count_round_wins, RoundResult};
use crate::game::rules::Gesture;
use crate::players::prediction::{most_frequent, predicted_by_frequency};

verus! {

/// How many wins `score` is short of `required`; zero once it is reached.
pub open spec fn short_of(required: nat, score: nat) -> nat {
    if score >= required {
        0
    } else {
        (required - score) as nat
    }
}

/// The rounds of the match that nobody won: the rounds played less the
/// points given.
pub open spec fn tied_rounds(state: GameStateView) -> nat {
    short_of(state.rounds_played(), state.score_player1 + state.score_player2)
}

/// The gesture that occurs most often in `history`, if anything was
/// played.
pub open spec fn most_played(history: Seq<Gesture>) -> Option<Gesture> {
    if history.len() == 0 {
        None
    } else {
        Some(predicted_by_frequency(history))
    }
}

/// In a match played from a state without points and rounds, the tied
/// rounds of the summary are the rounds that ended in a tie.
pub proof fn lemma_tied_rounds_are_ties(start: GameStateView, rounds: Seq<(Gesture, Gesture)>)
    requires
        start.score_player1 == 0,
        start.score_player2 == 0,
        start.history_p1.len() == 0,
    ensures
        tied_rounds(start.after_rounds(rounds)) == count_outcomes(rounds, RoundResult::Tie),
{
    lemma_scores_count_round_wins(start, rounds);
    lemma_histories_append_in_order(start, rounds);
}

/// The figures of a finished match.
#[derive(Debug, Clone, Copy, PartialEq, Eq, Structural)]
pub struct MatchSummary {
    pub total_rounds: usize,
    pub ties: usize,
    pub most_played_p1: Option<Gesture>,
    pub most_played_p2: Option<Gesture>,
}

/// How many wins each player still needs to take the match.
pub fn wins_to_go(state: &GameState) -> (remaining: (u32, u32))
    ensures
        remaining.0 == short_of(state@.match_format.spec_required_wins(), state@.score_player1),
        remaining.1 == short_of(state@.match_format.spec_required_wins(), state@.score_player2),
{
    let required = state.match_format.required_wins();
    let remaining_p1 = if state.score_player1 >= required {
        0
    } else {
        required - state.score_player1
    };
    let remaining_p2 = if state.score_player2 >= required {
        0
    } else {
        required - state.score_player2
    };
    (remaining_p1, remaining_p2)
}

/// The figures of the match so far: rounds played, rounds tied, and each
/// player's most played gesture. `None` while no round has been played.
pub fn summarize_match(state: &GameState) -> (summary: Option<MatchSummary>)
    ensures
        state@.rounds_played() == 0 <==> summary is None,
        summary matches Some(figures) ==> {
            &&& figures.total_rounds == state@.rounds_played()
            &&& figures.ties == tied_rounds(state@)
            &&& figures.most_played_p1 == most_played(state@.history_p1)
            &&& figures.most_played_p2 == most_played(state@.history_p2)
        },
{
    let total_rounds = state.history_p1.len();
    if total_rounds == 0 {
        return None;
    }
    let after_p1 = if total_rounds >= state.score_player1 as usize {
        total_rounds - state.score_player1 as usize
    } else {
        0
    };
    let ties = if after_p1 >= state.score_player2 as usize {
        after_p1 - state.score_player2 as usize
    } else {
        0
    };
    Some(
        MatchSummary {
            total_rounds,
            ties,
            most_played_p1: most_frequent(state.history_p1.as_slice()),
            most_played_p2: most_frequent(state.history_p2.as_slice()),
        },
    )
}

} // verus!
