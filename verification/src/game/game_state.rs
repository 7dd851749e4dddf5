//! The state of a match in progress.

use vstd::prelude::*;
use crate::game::match_settings::MatchFormat;
use crate::game::rules::{is_legal, spec_beats, Gesture, Ruleset};
use crate::players::player::{Player, PlayerView};

verus! {

/// The whole state of a match: who plays, under which rules, the running
/// score, and every move made so far.
#[derive(Debug, Clone)]
pub struct GameState {
    pub player1: Player,
    pub player2: Player,
    pub ruleset: Ruleset,
    pub match_format: MatchFormat,
    pub score_player1: u32,
    pub score_player2: u32,
    pub current_round: u32,
    pub last_move_p1: Option<Gesture>,
    pub last_move_p2: Option<Gesture>,
    /// Every gesture player 1 has played in this match, oldest first.
    pub history_p1: Vec<Gesture>,
    /// Every gesture player 2 has played in this match, oldest first.
    pub history_p2: Vec<Gesture>,
}

/// The mathematical content of a [`GameState`].
pub struct GameStateView {
    pub player1: PlayerView,
    pub player2: PlayerView,
    pub ruleset: Ruleset,
    pub match_format: MatchFormat,
    pub score_player1: nat,
    pub score_player2: nat,
    pub current_round: nat,
    pub last_move_p1: Option<Gesture>,
    pub last_move_p2: Option<Gesture>,
    pub history_p1: Seq<Gesture>,
    pub history_p2: Seq<Gesture>,
}

impl View for GameState {
    type V = GameStateView;

    open spec fn view(&self) -> GameStateView {
        GameStateView {
            player1: self.player1@,
            player2: self.player2@,
            ruleset: self.ruleset,
            match_format: self.match_format,
            score_player1: self.score_player1 as nat,
            score_player2: self.score_player2 as nat,
            current_round: self.current_round as nat,
            last_move_p1: self.last_move_p1,
            last_move_p2: self.last_move_p2,
            history_p1: self.history_p1@,
            history_p2: self.history_p2@,
        }
    }
}

/// The last element of a history, if there is one.
pub open spec fn latest(history: Seq<Gesture>) -> Option<Gesture> {
    if history.len() == 0 {
        None
    } else {
        Some(history.last())
    }
}

impl GameStateView {
    /// The state at the start of a match: no score, round one, nothing
    /// played.
    pub open spec fn fresh(
        player1: PlayerView,
        player2: PlayerView,
        ruleset: Ruleset,
        match_format: MatchFormat,
    ) -> GameStateView {
        GameStateView {
            player1,
            player2,
            ruleset,
            match_format,
            score_player1: 0,
            score_player2: 0,
            current_round: 1,
            last_move_p1: None,
            last_move_p2: None,
            history_p1: Seq::empty(),
            history_p2: Seq::empty(),
        }
    }

    /// The state after the players threw `gesture_p1` and `gesture_p2`:
    /// both moves are recorded, and the winner of the round, if any, gains
    /// one point.
    pub open spec fn after_round(self, gesture_p1: Gesture, gesture_p2: Gesture) -> GameStateView {
        GameStateView {
            score_player1: if spec_beats(gesture_p1, gesture_p2) {
                self.score_player1 + 1
            } else {
                self.score_player1
            },
            score_player2: if spec_beats(gesture_p2, gesture_p1) {
                self.score_player2 + 1
            } else {
                self.score_player2
            },
            last_move_p1: Some(gesture_p1),
            last_move_p2: Some(gesture_p2),
            history_p1: self.history_p1.push(gesture_p1),
            history_p2: self.history_p2.push(gesture_p2),
            ..self
        }
    }

    /// The state after a whole series of rounds, played in order.
    pub open spec fn after_rounds(self, rounds: Seq<(Gesture, Gesture)>) -> GameStateView
        decreases rounds.len(),
    {
        if rounds.len() == 0 {
            self
        } else {
            self.after_rounds(rounds.drop_last()).after_round(rounds.last().0, rounds.last().1)
        }
    }

    /// The state a rematch starts from: the same players, ruleset and
    /// format, everything else as in a fresh match.
    pub open spec fn rematch(self) -> GameStateView {
        GameStateView::fresh(self.player1, self.player2, self.ruleset, self.match_format)
    }

    /// The number of rounds played so far in this match.
    pub open spec fn rounds_played(self) -> nat {
        self.history_p1.len()
    }

    /// What holds of every state that match play produces: both histories
    /// have one entry per round played and hold legal gestures only, the
    /// last moves are the ends of the histories, and no more points were
    /// given than rounds were played.
    pub open spec fn wf(self) -> bool {
        &&& self.history_p1.len() == self.history_p2.len()
        &&& self.score_player1 + self.score_player2 <= self.history_p1.len()
        &&& self.last_move_p1 == latest(self.history_p1)
        &&& self.last_move_p2 == latest(self.history_p2)
        &&& forall|i: int|
            0 <= i < self.history_p1.len() ==> is_legal(self.ruleset, #[trigger] self.history_p1[i])
        &&& forall|i: int|
            0 <= i < self.history_p2.len() ==> is_legal(self.ruleset, #[trigger] self.history_p2[i])
    }
}

impl GameState {
    /// A match about to begin.
    pub fn new(player1: Player, player2: Player, ruleset: Ruleset, match_format: MatchFormat) -> (state:
        GameState)
        ensures
            state@ == GameStateView::fresh(player1@, player2@, ruleset, match_format),
            state@.wf(),
    {
        GameState {
            player1,
            player2,
            ruleset,
            match_format,
            score_player1: 0,
            score_player2: 0,
            current_round: 1,
            last_move_p1: None,
            last_move_p2: None,
            history_p1: Vec::new(),
            history_p2: Vec::new(),
        }
    }

    /// Reset score, round, last moves and histories for a rematch; players,
    /// ruleset and format stay.
    pub fn reset_for_rematch(&mut self)
        ensures
            final(self)@ == old(self)@.rematch(),
            final(self)@.wf(),
            final(self).player1 == old(self).player1,
            final(self).player2 == old(self).player2,
    {
        self.score_player1 = 0;
        self.score_player2 = 0;
        self.current_round = 1;
        self.last_move_p1 = None;
        self.last_move_p2 = None;
        self.history_p1.clear();
        self.history_p2.clear();
    }
}

/// A series of rounds appends exactly its moves to the two histories, in
/// the order played, and nothing else: after N rounds both histories are N
/// entries longer.
pub proof fn lemma_histories_append_in_order(start: GameStateView, rounds: Seq<(Gesture, Gesture)>)
    ensures
        start.after_rounds(rounds).history_p1 == start.history_p1 + rounds.map_values(
            |r: (Gesture, Gesture)| r.0,
        ),
        start.after_rounds(rounds).history_p2 == start.history_p2 + rounds.map_values(
            |r: (Gesture, Gesture)| r.1,
        ),
        start.after_rounds(rounds).history_p1.len() == start.history_p1.len() + rounds.len(),
        start.after_rounds(rounds).history_p2.len() == start.history_p2.len() + rounds.len(),
    decreases rounds.len(),
{
    let firsts = rounds.map_values(|r: (Gesture, Gesture)| r.0);
    let seconds = rounds.map_values(|r: (Gesture, Gesture)| r.1);
    if rounds.len() == 0 {
        assert(start.history_p1 + firsts =~= start.history_p1);
        assert(start.history_p2 + seconds =~= start.history_p2);
    } else {
        let earlier = rounds.drop_last();
        lemma_histories_append_in_order(start, earlier);
        assert(start.history_p1 + firsts =~= (start.history_p1 + earlier.map_values(
            |r: (Gesture, Gesture)| r.0,
        )).push(rounds.last().0));
        assert(start.history_p2 + seconds =~= (start.history_p2 + earlier.map_values(
            |r: (Gesture, Gesture)| r.1,
        )).push(rounds.last().1));
    }
}

/// Playing legal gestures keeps a well-formed state well-formed.
pub proof fn lemma_round_preserves_wf(state: GameStateView, gesture_p1: Gesture, gesture_p2: Gesture)
    requires
        state.wf(),
        is_legal(state.ruleset, gesture_p1),
        is_legal(state.ruleset, gesture_p2),
    ensures
        state.after_round(gesture_p1, gesture_p2).wf(),
{
}

} // verus!
