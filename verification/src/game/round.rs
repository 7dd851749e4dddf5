//! Resolving one round of a match.

use vstd::prelude::*;
use crate::game::game_state::{GameState, GameStateView};
use crate::game::rules::{beats, is_legal, spec_beats, Gesture};

verus! {

/// How a round ended.
#[derive(Debug, Clone, Copy, PartialEq, Eq, Structural)]
pub enum RoundResult {
    Player1Win,
    Player2Win,
    Tie,
}

/// The outcome of a round in which player 1 threw `gesture_p1` and player 2
/// threw `gesture_p2`. Two gestures neither of which beats the other tie.
pub open spec fn round_outcome(gesture_p1: Gesture, gesture_p2: Gesture) -> RoundResult {
    if gesture_p1 == gesture_p2 {
        RoundResult::Tie
    } else if spec_beats(gesture_p1, gesture_p2) {
        RoundResult::Player1Win
    } else if spec_beats(gesture_p2, gesture_p1) {
        RoundResult::Player2Win
    } else {
        RoundResult::Tie
    }
}

/// How many of `rounds` end with `result`.
pub open spec fn count_outcomes(rounds: Seq<(Gesture, Gesture)>, result: RoundResult) -> nat
    decreases rounds.len(),
{
    if rounds.len() == 0 {
        0
    } else {
        count_outcomes(rounds.drop_last(), result) + if round_outcome(
            rounds.last().0,
            rounds.last().1,
        ) == result {
            1nat
        } else {
            0nat
        }
    }
}

/// Over a series of rounds each player gains exactly one point for each
/// round won, tied rounds give nothing, and players, ruleset, format and
/// round number stay as they are.
pub proof fn lemma_scores_count_round_wins(start: GameStateView, rounds: Seq<(Gesture, Gesture)>)
    ensures
        start.after_rounds(rounds).score_player1 == start.score_player1 + count_outcomes(
            rounds,
            RoundResult::Player1Win,
        ),
        start.after_rounds(rounds).score_player2 == start.score_player2 + count_outcomes(
            rounds,
            RoundResult::Player2Win,
        ),
        count_outcomes(rounds, RoundResult::Player1Win) + count_outcomes(
            rounds,
            RoundResult::Player2Win,
        ) + count_outcomes(rounds, RoundResult::Tie) == rounds.len(),
        start.after_rounds(rounds).player1 == start.player1,
        start.after_rounds(rounds).player2 == start.player2,
        start.after_rounds(rounds).ruleset == start.ruleset,
        start.after_rounds(rounds).match_format == start.match_format,
        start.after_rounds(rounds).current_round == start.current_round,
    decreases rounds.len(),
{
    if rounds.len() > 0 {
        lemma_scores_count_round_wins(start, rounds.drop_last());
    }
}

/// A series of rounds with legal gestures keeps a well-formed state
/// well-formed.
pub proof fn lemma_rounds_preserve_wf(start: GameStateView, rounds: Seq<(Gesture, Gesture)>)
    requires
        start.wf(),
        forall|i: int|
            0 <= i < rounds.len() ==> is_legal(start.ruleset, (#[trigger] rounds[i]).0) && is_legal(
                start.ruleset,
                rounds[i].1,
            ),
    ensures
        start.after_rounds(rounds).wf(),
        start.after_rounds(rounds).ruleset == start.ruleset,
    decreases rounds.len(),
{
    if rounds.len() > 0 {
        let earlier = rounds.drop_last();
        assert forall|i: int| 0 <= i < earlier.len() implies is_legal(
            start.ruleset,
            (#[trigger] earlier[i]).0,
        ) && is_legal(start.ruleset, earlier[i].1) by {
            assert(earlier[i] == rounds[i]);
        }
        lemma_rounds_preserve_wf(start, earlier);
        assert(rounds.last() == rounds[rounds.len() - 1]);
    }
}

/// Process a single round: record both gestures as last moves and in the
/// histories, give the winner a point, and return the outcome.
pub fn resolve_round(state: &mut GameState, gesture_p1: Gesture, gesture_p2: Gesture) -> (result:
    RoundResult)
    requires
        spec_beats(gesture_p1, gesture_p2) ==> old(state).score_player1 < u32::MAX,
        spec_beats(gesture_p2, gesture_p1) ==> old(state).score_player2 < u32::MAX,
    ensures
        result == round_outcome(gesture_p1, gesture_p2),
        final(state)@ == old(state)@.after_round(gesture_p1, gesture_p2),
        final(state).player1 == old(state).player1,
        final(state).player2 == old(state).player2,
        result is Player1Win ==> final(state).score_player1 == old(state).score_player1 + 1
            && final(state).score_player2 == old(state).score_player2,
        result is Player2Win ==> final(state).score_player2 == old(state).score_player2 + 1
            && final(state).score_player1 == old(state).score_player1,
        result is Tie ==> final(state).score_player1 == old(state).score_player1
            && final(state).score_player2 == old(state).score_player2,
        old(state)@.wf() && is_legal(old(state).ruleset, gesture_p1) && is_legal(
            old(state).ruleset,
            gesture_p2,
        ) ==> final(state)@.wf(),
{
    state.last_move_p1 = Some(gesture_p1);
    state.last_move_p2 = Some(gesture_p2);

    state.history_p1.push(gesture_p1);
    state.history_p2.push(gesture_p2);

    let result = if gesture_p1 == gesture_p2 {
        RoundResult::Tie
    } else if beats(&gesture_p1, &gesture_p2) {
        RoundResult::Player1Win
    } else if beats(&gesture_p2, &gesture_p1) {
        RoundResult::Player2Win
    } else {
        RoundResult::Tie
    };

    match result {
        RoundResult::Player1Win => {
            state.score_player1 += 1;
        },
        RoundResult::Player2Win => {
            state.score_player2 += 1;
        },
        RoundResult::Tie => {},
    }
    result
}

} // verus!
