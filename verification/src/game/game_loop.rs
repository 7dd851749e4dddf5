//! The course of a match.
//!
//! A match alternates between waiting for something from outside (the
//! players' moves, the answer to "save and leave?", the choice after the
//! match) and deciding what follows from it. [`MatchDriver::advance`] makes
//! the decisions: it takes the event that arrived, changes the match and
//! the scoreboard, and says what to do next. Talking to the players and
//! storing files is left to the caller.

use vstd::prelude::*;
use crate::game::game_state::{GameState, GameStateView};
use crate::game::round::{resolve_round, round_outcome, RoundResult};
use crate::game::rules::{beats, is_legal, spec_beats, Gesture};
use crate::players::ai::{generate_ai_move, may_generate};
use crate::players::player::PlayerType;
use crate::scoreboard::scoreboard::{board_after_match, stats_or_new, Scoreboard};
use crate::scoreboard::stats::{MatchOutcome, PlayerStats};

verus! {

/// The choice after a match that starts a rematch.
pub const ACTION_REMATCH: u32 = 1;

/// The choice after a match that leaves it to change the settings.
pub const ACTION_CHANGE_SETTINGS: u32 = 2;

/// The choice after a match that returns to the main menu.
pub const ACTION_MAIN_MENU: u32 = 3;

/// A player has reached the number of wins that the format asks for.
pub open spec fn match_decided(state: GameStateView) -> bool {
    state.score_player1 >= state.match_format.spec_required_wins() || state.score_player2
        >= state.match_format.spec_required_wins()
}

/// Who is ahead: the player with the strictly higher score, or nobody.
pub open spec fn outcome_by_score(state: GameStateView) -> MatchOutcome {
    if state.score_player1 > state.score_player2 {
        MatchOutcome::Player1Win
    } else if state.score_player2 > state.score_player1 {
        MatchOutcome::Player2Win
    } else {
        MatchOutcome::Tie
    }
}

/// How the match ended, if it has: `Some` as soon as a player has the
/// wins that the format asks for, with the player of the higher score as
/// winner and a tie for equal scores.
pub fn match_verdict(state: &GameState) -> (verdict: Option<MatchOutcome>)
    ensures
        verdict == if match_decided(state@) {
            Some(outcome_by_score(state@))
        } else {
            None
        },
{
    let required_wins = state.match_format.required_wins();
    if state.score_player1 >= required_wins || state.score_player2 >= required_wins {
        if state.score_player1 > state.score_player2 {
            Some(MatchOutcome::Player1Win)
        } else if state.score_player2 > state.score_player1 {
            Some(MatchOutcome::Player2Win)
        } else {
            Some(MatchOutcome::Tie)
        }
    } else {
        None
    }
}

/// The name of the player who won with `outcome`, if somebody did.
pub fn winner_name(state: &GameState, outcome: MatchOutcome) -> (name: Option<&str>)
    ensures
        match outcome {
            MatchOutcome::Player1Win => name matches Some(n) && n@ == state@.player1.name,
            MatchOutcome::Player2Win => name matches Some(n) && n@ == state@.player2.name,
            MatchOutcome::Tie => name is None,
        },
{
    match outcome {
        MatchOutcome::Player1Win => Some(state.player1.name.as_str()),
        MatchOutcome::Player2Win => Some(state.player2.name.as_str()),
        MatchOutcome::Tie => None,
    }
}

/// In a format that asks for at least one win, the round that decides a
/// match leaves one player strictly ahead: such a match never ends in a
/// tie.
pub proof fn lemma_deciding_round_has_a_winner(
    state: GameStateView,
    gesture_p1: Gesture,
    gesture_p2: Gesture,
)
    requires
        state.match_format.spec_required_wins() >= 1,
        !match_decided(state),
        match_decided(state.after_round(gesture_p1, gesture_p2)),
    ensures
        !(outcome_by_score(state.after_round(gesture_p1, gesture_p2)) is Tie),
        spec_beats(gesture_p1, gesture_p2) <==> outcome_by_score(
            state.after_round(gesture_p1, gesture_p2),
        ) is Player1Win,
{
}

/// The moves of a round. A human's move is the one that was typed; a
/// computer's move is generated from the history of its opponent and is
/// legal. What was typed for a computer's seat is not looked at.
pub fn get_round_moves(state: &GameState, typed_p1: Option<Gesture>, typed_p2: Option<Gesture>) -> (moves:
    (Gesture, Gesture))
    requires
        state.player1.player_type is Human ==> typed_p1 is Some,
        state.player2.player_type is Human ==> typed_p2 is Some,
    ensures
        match state.player1.player_type {
            PlayerType::Human => Some(moves.0) == typed_p1,
            PlayerType::Computer(difficulty) => is_legal(state.ruleset, moves.0) && may_generate(
                difficulty,
                state.ruleset,
                state.history_p2@,
                moves.0,
            ),
        },
        match state.player2.player_type {
            PlayerType::Human => Some(moves.1) == typed_p2,
            PlayerType::Computer(difficulty) => is_legal(state.ruleset, moves.1) && may_generate(
                difficulty,
                state.ruleset,
                state.history_p1@,
                moves.1,
            ),
        },
{
    let gesture_p1 = match state.player1.player_type {
        PlayerType::Human => typed_p1.unwrap(),
        PlayerType::Computer(difficulty) => generate_ai_move(
            difficulty,
            &state.ruleset,
            state.history_p2.as_slice(),
        ),
    };
    let gesture_p2 = match state.player2.player_type {
        PlayerType::Human => typed_p2.unwrap(),
        PlayerType::Computer(difficulty) => generate_ai_move(
            difficulty,
            &state.ruleset,
            state.history_p1.as_slice(),
        ),
    };
    (gesture_p1, gesture_p2)
}

/// What a match is waiting for.
#[derive(Debug, Clone, Copy, PartialEq, Eq, Structural)]
pub enum MatchPhase {
    /// The moves of the next round.
    AwaitingMoves,
    /// The answer to "save and leave?" after an undecided round.
    AwaitingSaveAnswer,
    /// The choice of what to do after the match.
    AwaitingAction,
    /// Nothing: the match was left.
    Left,
}

/// What arrived from outside.
#[derive(Debug, Clone, Copy, PartialEq, Eq, Structural)]
pub enum MatchEvent {
    /// Both players have moved.
    Moves(Gesture, Gesture),
    /// The answer to "save and leave?".
    SaveAnswer(bool),
    /// The number chosen from the menu after the match.
    Action(u32),
}

/// What the caller is to do next.
#[derive(Debug, Clone, Copy, PartialEq, Eq, Structural)]
pub enum MatchStep {
    /// Show the round, then ask whether to save and leave.
    AskToSave { result: RoundResult },
    /// Show the round and the end of the match, store the scoreboard,
    /// then ask what to do next.
    AnnounceMatch { result: RoundResult, outcome: MatchOutcome },
    /// Collect the moves of the next round.
    CollectMoves,
    /// Store the match and the scoreboard, then leave with the match.
    SaveAndLeave,
    /// Leave, with or without the match.
    Leave { keep_state: bool },
    /// The event is not what the match is waiting for; nothing changed.
    Ignored,
}

/// A match under way together with the scoreboard it will be entered in.
pub struct MatchDriver {
    pub state: GameState,
    pub scoreboard: Scoreboard,
    pub phase: MatchPhase,
}

/// The mathematical content of a [`MatchDriver`].
pub struct MatchDriverView {
    pub state: GameStateView,
    pub board: Map<Seq<char>, PlayerStats>,
    pub phase: MatchPhase,
}

impl View for MatchDriver {
    type V = MatchDriverView;

    open spec fn view(&self) -> MatchDriverView {
        MatchDriverView { state: self.state@, board: self.scoreboard@, phase: self.phase }
    }
}

impl MatchDriverView {
    /// The board once the decided match `played` is entered in it.
    pub open spec fn board_with_match(self, played: GameStateView) -> Map<Seq<char>, PlayerStats> {
        board_after_match(
            self.board,
            played.player1.name,
            played.player2.name,
            played.score_player1 as u32,
            played.score_player2 as u32,
            outcome_by_score(played),
        )
    }

    /// The driver after `event`, and what the caller is to do next.
    ///
    /// * Moves while awaiting moves: the round is resolved. If that
    ///   decides the match, the match is entered in the scoreboard and the
    ///   driver awaits the choice of what to do next; else it awaits the
    ///   answer to "save and leave?".
    /// * A yes to "save and leave?" leaves with the match; a no starts
    ///   the next round.
    /// * After the match, the rematch choice resets the match and starts
    ///   round one; the main menu choice leaves with the match; any other
    ///   number leaves without it.
    /// * Any other event is ignored.
    pub open spec fn next(self, event: MatchEvent) -> (MatchDriverView, MatchStep) {
        match (self.phase, event) {
            (MatchPhase::AwaitingMoves, MatchEvent::Moves(gesture_p1, gesture_p2)) => {
                let played = self.state.after_round(gesture_p1, gesture_p2);
                let result = round_outcome(gesture_p1, gesture_p2);
                if match_decided(played) {
                    (
                        MatchDriverView {
                            state: played,
                            board: self.board_with_match(played),
                            phase: MatchPhase::AwaitingAction,
                        },
                        MatchStep::AnnounceMatch { result, outcome: outcome_by_score(played) },
                    )
                } else {
                    (
                        MatchDriverView {
                            state: played,
                            phase: MatchPhase::AwaitingSaveAnswer,
                            ..self
                        },
                        MatchStep::AskToSave { result },
                    )
                }
            },
            (MatchPhase::AwaitingSaveAnswer, MatchEvent::SaveAnswer(save)) => {
                if save {
                    (MatchDriverView { phase: MatchPhase::Left, ..self }, MatchStep::SaveAndLeave)
                } else {
                    (
                        MatchDriverView {
                            state: GameStateView {
                                current_round: self.state.current_round + 1,
                                ..self.state
                            },
                            phase: MatchPhase::AwaitingMoves,
                            ..self
                        },
                        MatchStep::CollectMoves,
                    )
                }
            },
            (MatchPhase::AwaitingAction, MatchEvent::Action(choice)) => {
                if choice == ACTION_REMATCH {
                    (
                        MatchDriverView {
                            state: self.state.rematch(),
                            phase: MatchPhase::AwaitingMoves,
                            ..self
                        },
                        MatchStep::CollectMoves,
                    )
                } else {
                    (
                        MatchDriverView { phase: MatchPhase::Left, ..self },
                        MatchStep::Leave { keep_state: choice == ACTION_MAIN_MENU },
                    )
                }
            },
            _ => (self, MatchStep::Ignored),
        }
    }

    /// Whether the counters have room for what `event` adds: a point for
    /// the winner of the round and, if the round decides the match, the
    /// match in both players' statistics; one more round after a no to
    /// "save and leave?".
    pub open spec fn has_room_for(self, event: MatchEvent) -> bool {
        match (self.phase, event) {
            (MatchPhase::AwaitingMoves, MatchEvent::Moves(gesture_p1, gesture_p2)) => {
                let played = self.state.after_round(gesture_p1, gesture_p2);
                &&& played.score_player1 <= u32::MAX
                &&& played.score_player2 <= u32::MAX
                &&& match_decided(played) ==> {
                    &&& stats_or_new(self.board, played.player1.name).can_register(
                        played.score_player1 as u32,
                        outcome_by_score(played) is Player1Win,
                    )
                    &&& stats_or_new(self.board, played.player2.name).can_register(
                        played.score_player2 as u32,
                        outcome_by_score(played) is Player2Win,
                    )
                }
            },
            (MatchPhase::AwaitingSaveAnswer, MatchEvent::SaveAnswer(save)) => save
                || self.state.current_round < u32::MAX,
            _ => true,
        }
    }
}

impl MatchDriver {
    /// A driver for `state`, new or resumed, that awaits the moves of the
    /// next round.
    pub fn new(state: GameState, scoreboard: Scoreboard) -> (driver: MatchDriver)
        ensures
            driver.state == state,
            driver.scoreboard == scoreboard,
            driver.phase == MatchPhase::AwaitingMoves,
    {
        MatchDriver { state, scoreboard, phase: MatchPhase::AwaitingMoves }
    }

    /// Whether [`advance`](MatchDriver::advance) may be called with
    /// `event`: the counters have room for what it adds.
    pub fn can_advance(&self, event: MatchEvent) -> (ok: bool)
        requires
            self.scoreboard.wf(),
        ensures
            ok == self@.has_room_for(event),
    {
        match (self.phase, event) {
            (MatchPhase::AwaitingMoves, MatchEvent::Moves(gesture_p1, gesture_p2)) => {
                let p1_scores = beats(&gesture_p1, &gesture_p2);
                let p2_scores = beats(&gesture_p2, &gesture_p1);
                if (p1_scores && self.state.score_player1 == u32::MAX) || (p2_scores
                    && self.state.score_player2 == u32::MAX) {
                    return false;
                }
                let score_p1 = if p1_scores {
                    self.state.score_player1 + 1
                } else {
                    self.state.score_player1
                };
                let score_p2 = if p2_scores {
                    self.state.score_player2 + 1
                } else {
                    self.state.score_player2
                };
                let required_wins = self.state.match_format.required_wins();
                if score_p1 >= required_wins || score_p2 >= required_wins {
                    let stats_p1 = match self.scoreboard.stats_of(self.state.player1.name.as_str()) {
                        Some(stats) => stats,
                        None => PlayerStats::new(),
                    };
                    let stats_p2 = match self.scoreboard.stats_of(self.state.player2.name.as_str()) {
                        Some(stats) => stats,
                        None => PlayerStats::new(),
                    };
                    stats_p1.has_room(score_p1, score_p1 > score_p2) && stats_p2.has_room(
                        score_p2,
                        score_p2 > score_p1,
                    )
                } else {
                    true
                }
            },
            (MatchPhase::AwaitingSaveAnswer, MatchEvent::SaveAnswer(save)) => save
                || self.state.current_round < u32::MAX,
            _ => true,
        }
    }

    /// Take `event`, change the match and the scoreboard as it asks, and
    /// say what to do next.
    pub fn advance(&mut self, event: MatchEvent) -> (step: MatchStep)
        requires
            old(self).scoreboard.wf(),
            old(self)@.has_room_for(event),
        ensures
            final(self).scoreboard.wf(),
            (final(self)@, step) == old(self)@.next(event),
            old(self).state@.wf() && (event matches MatchEvent::Moves(gesture_p1, gesture_p2)
                ==> is_legal(old(self).state.ruleset, gesture_p1) && is_legal(
                old(self).state.ruleset,
                gesture_p2,
            )) ==> final(self).state@.wf(),
    {
        match (self.phase, event) {
            (MatchPhase::AwaitingMoves, MatchEvent::Moves(gesture_p1, gesture_p2)) => {
                let result = resolve_round(&mut self.state, gesture_p1, gesture_p2);
                match match_verdict(&self.state) {
                    Some(outcome) => {
                        self.scoreboard.update_after_match(
                            self.state.player1.name.as_str(),
                            self.state.player2.name.as_str(),
                            self.state.score_player1,
                            self.state.score_player2,
                            outcome,
                        );
                        self.phase = MatchPhase::AwaitingAction;
                        MatchStep::AnnounceMatch { result, outcome }
                    },
                    None => {
                        self.phase = MatchPhase::AwaitingSaveAnswer;
                        MatchStep::AskToSave { result }
                    },
                }
            },
            (MatchPhase::AwaitingSaveAnswer, MatchEvent::SaveAnswer(save)) => {
                if save {
                    self.phase = MatchPhase::Left;
                    MatchStep::SaveAndLeave
                } else {
                    self.state.current_round += 1;
                    self.phase = MatchPhase::AwaitingMoves;
                    MatchStep::CollectMoves
                }
            },
            (MatchPhase::AwaitingAction, MatchEvent::Action(choice)) => {
                if choice == ACTION_REMATCH {
                    self.state.reset_for_rematch();
                    self.phase = MatchPhase::AwaitingMoves;
                    MatchStep::CollectMoves
                } else {
                    self.phase = MatchPhase::Left;
                    MatchStep::Leave { keep_state: choice == ACTION_MAIN_MENU }
                }
            },
            _ => MatchStep::Ignored,
        }
    }

    /// [`advance`](MatchDriver::advance) where the counters have room for
    /// what `event` adds; else nothing changes and `None` is returned.
    pub fn try_advance(&mut self, event: MatchEvent) -> (step: Option<MatchStep>)
        requires
            old(self).scoreboard.wf(),
        ensures
            final(self).scoreboard.wf(),
            old(self)@.has_room_for(event) ==> step is Some && (final(self)@, step->0)
                == old(self)@.next(event),
            !old(self)@.has_room_for(event) ==> step is None && final(self)@ == old(self)@,
    {
        if self.can_advance(event) {
            Some(self.advance(event))
        } else {
            None
        }
    }

    /// Give the match and the scoreboard back.
    pub fn into_parts(self) -> (parts: (Scoreboard, GameState))
        ensures
            parts.0 == self.scoreboard,
            parts.1 == self.state,
    {
        (self.scoreboard, self.state)
    }
}

} // verus!
