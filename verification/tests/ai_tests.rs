use rpsls::game::rules::{beats, Gesture, Ruleset};
use rpsls::players::ai::{
    candidate_moves, counter_moves, generate_ai_move, generate_easy_move, generate_hard_move,
    generate_normal_move,
};
use rpsls::players::ai_difficulty::AiDifficulty;
use rpsls::players::prediction::{most_frequent, most_recent_weighted, Tally};

use Gesture::{Lizard, Paper, Rock, Scissors, Spock};

#[test]
fn easy_never_leaves_the_classic_set() {
    for _ in 0..10_000 {
        let g = generate_ai_move(AiDifficulty::Easy, &Ruleset::Classic, &[]);
        assert!(matches!(g, Rock | Paper | Scissors));
    }
}

#[test]
fn easy_reaches_every_legal_gesture() {
    let mut seen = Vec::new();
    for _ in 0..2_000 {
        let g = generate_easy_move(&Ruleset::Extended);
        if !seen.contains(&g) {
            seen.push(g);
        }
    }
    assert_eq!(seen.len(), 5);
}

#[test]
fn easy_ignores_the_history() {
    let history = [Lizard, Lizard, Spock];
    for _ in 0..1_000 {
        let g = generate_ai_move(AiDifficulty::Easy, &Ruleset::Classic, &history);
        assert!(matches!(g, Rock | Paper | Scissors));
    }
}

#[test]
fn normal_counters_three_rocks_with_paper() {
    for _ in 0..200 {
        let g = generate_ai_move(AiDifficulty::Normal, &Ruleset::Classic, &[Rock, Rock, Rock]);
        assert!(beats(&g, &Rock));
        assert_eq!(g, Paper);
    }
}

#[test]
fn normal_counters_the_most_frequent_gesture_under_the_extended_rules() {
    let history = [Scissors, Rock, Scissors, Paper, Scissors];
    let mut seen = Vec::new();
    for _ in 0..500 {
        let g = generate_normal_move(&Ruleset::Extended, &history);
        assert!(beats(&g, &Scissors));
        if !seen.contains(&g) {
            seen.push(g);
        }
    }
    seen.sort_by_key(|g| g.as_str());
    assert_eq!(seen, vec![Rock, Spock]);
}

#[test]
fn normal_without_history_plays_any_legal_gesture() {
    for _ in 0..1_000 {
        let g = generate_normal_move(&Ruleset::Classic, &[]);
        assert!(matches!(g, Rock | Paper | Scissors));
    }
}

#[test]
fn hard_always_plays_a_legal_gesture() {
    let history = [Rock, Paper, Scissors, Rock, Rock, Paper];
    for _ in 0..5_000 {
        let g = generate_hard_move(&Ruleset::Classic, &history);
        assert!(matches!(g, Rock | Paper | Scissors));
    }
    for _ in 0..1_000 {
        let g = generate_ai_move(AiDifficulty::Hard, &Ruleset::Classic, &[]);
        assert!(matches!(g, Rock | Paper | Scissors));
    }
}

#[test]
fn hard_mostly_counters_the_weighted_prediction() {
    // Paper weighs 4 + 5 = 9 against 1 + 2 + 3 = 6 for Rock.
    let history = [Rock, Rock, Rock, Paper, Paper];
    let mut counters = 0;
    let samples = 4_000;
    for _ in 0..samples {
        if generate_hard_move(&Ruleset::Classic, &history) == Scissors {
            counters += 1;
        }
    }
    // Four times in five the counter is played for sure, one time in five
    // with one chance in three: about 87% in all.
    assert!(counters > samples * 3 / 4, "{counters} of {samples}");
    assert!(counters < samples, "the wild roll never came up");
}

#[test]
fn recency_flips_the_prediction_against_the_plain_count() {
    let history = [Rock, Rock, Rock, Paper, Paper];
    assert_eq!(most_frequent(&history), Some(Rock));
    assert_eq!(most_recent_weighted(&history), Some(Paper));
}

#[test]
fn the_window_holds_the_last_five_moves_only() {
    // Window: Paper(1) Paper(2) Rock(3) Scissors(4) Scissors(5).
    let history = [Lizard, Lizard, Lizard, Lizard, Paper, Paper, Rock, Scissors, Scissors];
    assert_eq!(most_frequent(&history), Some(Lizard));
    assert_eq!(most_recent_weighted(&history), Some(Scissors));
}

#[test]
fn the_newest_move_outweighs_any_single_older_move() {
    assert_eq!(most_recent_weighted(&[Rock, Paper]), Some(Paper));
    assert_eq!(most_recent_weighted(&[Spock, Lizard, Rock]), Some(Rock));
    assert_eq!(most_recent_weighted(&[Rock, Paper, Scissors, Lizard, Spock]), Some(Spock));
    assert_eq!(most_recent_weighted(&[Paper]), Some(Paper));
}

#[test]
fn weighted_prediction_sums_weights_per_gesture() {
    // Rock 1 + 2 + 3 = 6 against Paper 4: the older moves win together.
    assert_eq!(most_recent_weighted(&[Rock, Rock, Rock, Paper]), Some(Rock));
    // Rock 1 + 4 = 5, Paper 2 + 3 = 5: a tie, which goes to Rock.
    assert_eq!(most_recent_weighted(&[Rock, Paper, Paper, Rock]), Some(Rock));
    // Spock 1 + 4 = 5, Lizard 2 + 3 = 5: a tie, which goes to Lizard.
    assert_eq!(most_recent_weighted(&[Spock, Lizard, Lizard, Spock]), Some(Lizard));
}

#[test]
fn predictions_of_an_empty_history_are_none() {
    assert_eq!(most_frequent(&[]), None);
    assert_eq!(most_recent_weighted(&[]), None);
}

#[test]
fn most_frequent_breaks_ties_by_the_order_of_gestures() {
    assert_eq!(most_frequent(&[Spock, Rock]), Some(Rock));
    assert_eq!(most_frequent(&[Spock, Lizard, Lizard, Spock]), Some(Lizard));
    assert_eq!(most_frequent(&[Scissors, Paper, Scissors, Paper, Spock]), Some(Paper));
    assert_eq!(most_frequent(&[Spock, Spock, Rock]), Some(Spock));
}

#[test]
fn tally_credits_and_leads() {
    let mut tally = Tally::new();
    assert_eq!(tally.leader(), Rock);
    tally.credit(Lizard, 3);
    tally.credit(Paper, 2);
    tally.credit(Paper, 1);
    assert_eq!(tally.get(Lizard), 3);
    assert_eq!(tally.get(Paper), 3);
    assert_eq!(tally.get(Rock), 0);
    assert_eq!(tally.leader(), Paper);
    tally.credit(Spock, 4);
    assert_eq!(tally.leader(), Spock);
}

#[test]
fn counter_moves_are_the_legal_gestures_that_win() {
    assert_eq!(counter_moves(&Ruleset::Classic, Rock), vec![Paper]);
    assert_eq!(counter_moves(&Ruleset::Classic, Paper), vec![Scissors]);
    assert_eq!(counter_moves(&Ruleset::Classic, Scissors), vec![Rock]);
    assert_eq!(counter_moves(&Ruleset::Classic, Lizard), vec![Rock, Scissors]);
    assert_eq!(counter_moves(&Ruleset::Classic, Spock), vec![Paper]);
    assert_eq!(counter_moves(&Ruleset::Extended, Rock), vec![Paper, Spock]);
    assert_eq!(counter_moves(&Ruleset::Extended, Paper), vec![Scissors, Lizard]);
    assert_eq!(counter_moves(&Ruleset::Extended, Scissors), vec![Rock, Spock]);
    assert_eq!(counter_moves(&Ruleset::Extended, Lizard), vec![Rock, Scissors]);
    assert_eq!(counter_moves(&Ruleset::Extended, Spock), vec![Paper, Lizard]);
}

#[test]
fn candidates_of_each_tier() {
    let classic = vec![Rock, Paper, Scissors];
    let history = [Rock, Rock, Rock, Paper, Paper];
    for wild in [false, true] {
        assert_eq!(candidate_moves(AiDifficulty::Easy, &Ruleset::Classic, &history, wild), classic);
        assert_eq!(
            candidate_moves(AiDifficulty::Normal, &Ruleset::Classic, &history, wild),
            vec![Paper]
        );
        assert_eq!(candidate_moves(AiDifficulty::Normal, &Ruleset::Classic, &[], wild), classic);
        assert_eq!(candidate_moves(AiDifficulty::Hard, &Ruleset::Classic, &[], wild), classic);
    }
    assert_eq!(
        candidate_moves(AiDifficulty::Hard, &Ruleset::Classic, &history, false),
        vec![Scissors]
    );
    assert_eq!(candidate_moves(AiDifficulty::Hard, &Ruleset::Classic, &history, true), classic);
    assert_eq!(
        candidate_moves(AiDifficulty::Hard, &Ruleset::Extended, &history, false),
        vec![Scissors, Lizard]
    );
}
