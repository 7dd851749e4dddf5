use rpsls::game::game_state::GameState;
use rpsls::game::match_settings::MatchFormat;
use rpsls::game::round::{resolve_round, RoundResult};
use rpsls::game::rules::{Gesture, Ruleset};
use rpsls::players::ai_difficulty::AiDifficulty;
use rpsls::players::player::{Player, PlayerType};

fn classic_match() -> GameState {
    GameState::new(
        Player::new_human("Ann"),
        Player::new_ai("Computer", AiDifficulty::Normal),
        Ruleset::Classic,
        MatchFormat::BestOf(3),
    )
}

#[test]
fn required_wins_of_each_format() {
    assert_eq!(MatchFormat::SingleRound.required_wins(), 1);
    assert_eq!(MatchFormat::BestOf(5).required_wins(), 3);
    assert_eq!(MatchFormat::BestOf(3).required_wins(), 2);
    assert_eq!(MatchFormat::FirstTo(4).required_wins(), 4);
}

#[test]
fn required_wins_at_the_edges() {
    assert_eq!(MatchFormat::BestOf(1).required_wins(), 1);
    assert_eq!(MatchFormat::BestOf(0).required_wins(), 1);
    assert_eq!(MatchFormat::BestOf(4).required_wins(), 3);
    assert_eq!(MatchFormat::BestOf(u32::MAX).required_wins(), 2_147_483_648);
    assert_eq!(MatchFormat::FirstTo(0).required_wins(), 0);
    assert_eq!(MatchFormat::FirstTo(u32::MAX).required_wins(), u32::MAX);
}

#[test]
fn players_are_built_with_name_and_type() {
    let human = Player::new_human("Ann");
    assert_eq!(human.name, "Ann");
    assert_eq!(human.player_type, PlayerType::Human);
    let computer = Player::new_ai("Computer", AiDifficulty::Hard);
    assert_eq!(computer.name, "Computer");
    assert_eq!(computer.player_type, PlayerType::Computer(AiDifficulty::Hard));
}

#[test]
fn a_new_match_starts_at_round_one_with_nothing_played() {
    let state = classic_match();
    assert_eq!(state.player1.name, "Ann");
    assert_eq!(state.player2.name, "Computer");
    assert_eq!(state.ruleset, Ruleset::Classic);
    assert_eq!(state.match_format, MatchFormat::BestOf(3));
    assert_eq!((state.score_player1, state.score_player2), (0, 0));
    assert_eq!(state.current_round, 1);
    assert_eq!((state.last_move_p1, state.last_move_p2), (None, None));
    assert!(state.history_p1.is_empty());
    assert!(state.history_p2.is_empty());
}

#[test]
fn rock_against_scissors_is_a_win_for_player_one() {
    let mut state = classic_match();
    let result = resolve_round(&mut state, Gesture::Rock, Gesture::Scissors);
    assert_eq!(result, RoundResult::Player1Win);
    assert_eq!((state.score_player1, state.score_player2), (1, 0));
    assert_eq!(state.last_move_p1, Some(Gesture::Rock));
    assert_eq!(state.last_move_p2, Some(Gesture::Scissors));
}

#[test]
fn scissors_against_rock_is_a_win_for_player_two() {
    let mut state = classic_match();
    let result = resolve_round(&mut state, Gesture::Scissors, Gesture::Rock);
    assert_eq!(result, RoundResult::Player2Win);
    assert_eq!((state.score_player1, state.score_player2), (0, 1));
}

#[test]
fn equal_gestures_tie_and_leave_the_score() {
    let mut state = classic_match();
    let result = resolve_round(&mut state, Gesture::Paper, Gesture::Paper);
    assert_eq!(result, RoundResult::Tie);
    assert_eq!((state.score_player1, state.score_player2), (0, 0));
    assert_eq!(state.history_p1, vec![Gesture::Paper]);
    assert_eq!(state.history_p2, vec![Gesture::Paper]);
}

#[test]
fn resolve_round_does_not_touch_the_round_counter() {
    let mut state = classic_match();
    resolve_round(&mut state, Gesture::Rock, Gesture::Paper);
    assert_eq!(state.current_round, 1);
}

#[test]
fn histories_grow_by_one_per_round_in_call_order() {
    let mut state = GameState::new(
        Player::new_human("Ann"),
        Player::new_human("Bob"),
        Ruleset::Extended,
        MatchFormat::FirstTo(10),
    );
    let rounds = [
        (Gesture::Rock, Gesture::Spock),
        (Gesture::Lizard, Gesture::Lizard),
        (Gesture::Paper, Gesture::Rock),
        (Gesture::Scissors, Gesture::Spock),
        (Gesture::Spock, Gesture::Paper),
    ];
    for (n, (g1, g2)) in rounds.iter().enumerate() {
        resolve_round(&mut state, *g1, *g2);
        assert_eq!(state.history_p1.len(), n + 1);
        assert_eq!(state.history_p2.len(), n + 1);
    }
    assert_eq!(state.history_p1, rounds.iter().map(|r| r.0).collect::<Vec<_>>());
    assert_eq!(state.history_p2, rounds.iter().map(|r| r.1).collect::<Vec<_>>());
    assert_eq!((state.score_player1, state.score_player2), (1, 3));
}

#[test]
fn every_pair_of_gestures_scores_as_its_outcome_says() {
    let all = [Gesture::Rock, Gesture::Paper, Gesture::Scissors, Gesture::Lizard, Gesture::Spock];
    for g1 in all {
        for g2 in all {
            let mut state = GameState::new(
                Player::new_human("Ann"),
                Player::new_human("Bob"),
                Ruleset::Extended,
                MatchFormat::SingleRound,
            );
            state.score_player1 = 7;
            state.score_player2 = 9;
            let expected = match resolve_round(&mut state, g1, g2) {
                RoundResult::Player1Win => (8, 9),
                RoundResult::Player2Win => (7, 10),
                RoundResult::Tie => (7, 9),
            };
            assert_eq!((state.score_player1, state.score_player2), expected);
        }
    }
}

#[test]
fn rematch_resets_everything_but_players_and_settings() {
    let mut state = classic_match();
    resolve_round(&mut state, Gesture::Rock, Gesture::Scissors);
    resolve_round(&mut state, Gesture::Paper, Gesture::Scissors);
    state.current_round = 3;
    state.reset_for_rematch();
    assert_eq!((state.score_player1, state.score_player2), (0, 0));
    assert_eq!(state.current_round, 1);
    assert_eq!((state.last_move_p1, state.last_move_p2), (None, None));
    assert!(state.history_p1.is_empty());
    assert!(state.history_p2.is_empty());
    assert_eq!(state.player1.name, "Ann");
    assert_eq!(state.player1.player_type, PlayerType::Human);
    assert_eq!(state.player2.name, "Computer");
    assert_eq!(state.player2.player_type, PlayerType::Computer(AiDifficulty::Normal));
    assert_eq!(state.ruleset, Ruleset::Classic);
    assert_eq!(state.match_format, MatchFormat::BestOf(3));
}
