use rpsls::scoreboard::scoreboard::{ranks_ahead, Scoreboard, SortKey};
use rpsls::scoreboard::stats::{MatchOutcome, PlayerStats, RateOrder};

fn stats(matches_played: u32, matches_won: u32, rounds_won: u32) -> PlayerStats {
    PlayerStats { matches_played, matches_won, rounds_won }
}

fn board(lines: &[(&str, PlayerStats)]) -> Scoreboard {
    Scoreboard::from_entries(lines.iter().map(|(n, s)| (n.to_string(), *s)).collect())
}

fn names(listing: &[(&str, &PlayerStats)]) -> Vec<String> {
    listing.iter().map(|(n, _)| n.to_string()).collect()
}

#[test]
fn new_stats_are_all_zero() {
    assert_eq!(PlayerStats::new(), stats(0, 0, 0));
}

#[test]
fn register_match_counts_a_win() {
    let mut s = stats(4, 1, 9);
    s.register_match(3, true);
    assert_eq!(s, stats(5, 2, 12));
}

#[test]
fn register_match_counts_a_loss() {
    let mut s = stats(4, 1, 9);
    s.register_match(2, false);
    assert_eq!(s, stats(5, 1, 11));
}

#[test]
fn has_room_tells_when_a_counter_is_full() {
    assert!(stats(0, 0, 0).has_room(u32::MAX, true));
    assert!(!stats(u32::MAX, 0, 0).has_room(0, false));
    assert!(!stats(0, 0, 1).has_room(u32::MAX, false));
    assert!(stats(0, 0, 1).has_room(u32::MAX - 1, false));
    assert!(!stats(0, u32::MAX, 0).has_room(0, true));
    assert!(stats(0, u32::MAX, 0).has_room(0, false));
}

#[test]
fn rates_compare_as_exact_fractions() {
    assert_eq!(stats(4, 3, 0).compare_rate(&stats(2, 1, 0)), RateOrder::Higher);
    assert_eq!(stats(2, 1, 0).compare_rate(&stats(4, 3, 0)), RateOrder::Lower);
    assert_eq!(stats(4, 2, 0).compare_rate(&stats(2, 1, 0)), RateOrder::Level);
    assert_eq!(stats(3, 1, 0).compare_rate(&stats(300, 100, 0)), RateOrder::Level);
    // Two rates so close that they are the same 64-bit float.
    let a = stats(u32::MAX, u32::MAX - 1, 0);
    let b = stats(u32::MAX - 1, u32::MAX - 2, 0);
    assert_eq!(a.compare_rate(&b), RateOrder::Higher);
    assert_eq!(b.compare_rate(&a), RateOrder::Lower);
}

#[test]
fn a_player_without_matches_has_rate_zero() {
    assert_eq!(stats(0, 0, 0).compare_rate(&stats(5, 0, 2)), RateOrder::Level);
    assert_eq!(stats(0, 7, 0).compare_rate(&stats(5, 0, 2)), RateOrder::Level);
    assert_eq!(stats(0, 0, 0).compare_rate(&stats(5, 1, 2)), RateOrder::Lower);
    assert_eq!(stats(9, 1, 0).compare_rate(&stats(0, 0, 0)), RateOrder::Higher);
}

#[test]
fn a_new_board_is_empty() {
    let sb = Scoreboard::new();
    assert_eq!(sb.len(), 0);
    assert_eq!(sb.stats_of("Ann"), None);
    assert!(sb.entries().is_empty());
    assert!(sb.sorted_by_wins().is_empty());
    assert!(sb.sorted_by_win_rate().is_empty());
}

#[test]
fn ensure_player_enters_a_name_once() {
    let mut sb = Scoreboard::new();
    sb.ensure_player("Ann");
    assert_eq!(sb.stats_of("Ann"), Some(stats(0, 0, 0)));
    sb.update_after_match("Ann", "Bob", 2, 1, MatchOutcome::Player1Win);
    sb.ensure_player("Ann");
    assert_eq!(sb.len(), 2);
    assert_eq!(sb.stats_of("Ann"), Some(stats(1, 1, 2)));
}

#[test]
fn update_after_match_enters_both_players() {
    let mut sb = Scoreboard::new();
    sb.update_after_match("Ann", "Bob", 2, 1, MatchOutcome::Player1Win);
    assert_eq!(sb.len(), 2);
    assert_eq!(sb.stats_of("Ann"), Some(stats(1, 1, 2)));
    assert_eq!(sb.stats_of("Bob"), Some(stats(1, 0, 1)));
    assert_eq!(sb.stats_of("ann"), None);
}

#[test]
fn update_after_match_adds_to_what_is_there() {
    let mut sb = Scoreboard::new();
    sb.update_after_match("Ann", "Bob", 2, 1, MatchOutcome::Player1Win);
    sb.update_after_match("Bob", "Ann", 3, 0, MatchOutcome::Player1Win);
    sb.update_after_match("Ann", "Cy", 1, 1, MatchOutcome::Tie);
    sb.update_after_match("Cy", "Bob", 0, 2, MatchOutcome::Player2Win);
    assert_eq!(sb.len(), 3);
    assert_eq!(sb.stats_of("Ann"), Some(stats(3, 1, 3)));
    assert_eq!(sb.stats_of("Bob"), Some(stats(3, 2, 6)));
    assert_eq!(sb.stats_of("Cy"), Some(stats(2, 0, 1)));
}

#[test]
fn a_match_against_oneself_keeps_the_second_update() {
    let mut sb = board(&[("Ann", stats(5, 2, 8))]);
    sb.update_after_match("Ann", "Ann", 3, 1, MatchOutcome::Player1Win);
    assert_eq!(sb.len(), 1);
    assert_eq!(sb.stats_of("Ann"), Some(stats(6, 2, 9)));
    sb.update_after_match("Ann", "Ann", 0, 2, MatchOutcome::Player2Win);
    assert_eq!(sb.stats_of("Ann"), Some(stats(7, 3, 11)));
}

#[test]
fn sorted_by_wins_lists_most_wins_first() {
    let sb = board(&[
        ("Ann", stats(10, 3, 0)),
        ("Bob", stats(10, 7, 0)),
        ("Cy", stats(10, 0, 0)),
        ("Dee", stats(20, 5, 0)),
    ]);
    let listing = sb.sorted_by_wins();
    assert_eq!(names(&listing), vec!["Bob", "Dee", "Ann", "Cy"]);
    assert_eq!(*listing[0].1, stats(10, 7, 0));
    assert_eq!(*listing[3].1, stats(10, 0, 0));
}

#[test]
fn sorted_by_wins_breaks_ties_by_name() {
    let sb = board(&[
        ("bob", stats(4, 2, 0)),
        ("Zed", stats(3, 2, 0)),
        ("Ann", stats(9, 2, 0)),
        ("Anna", stats(2, 2, 0)),
        ("Top", stats(3, 3, 0)),
    ]);
    assert_eq!(names(&sb.sorted_by_wins()), vec!["Top", "Ann", "Anna", "Zed", "bob"]);
}

#[test]
fn sorted_by_win_rate_puts_three_quarters_before_a_half() {
    let sb = board(&[("Half", stats(4, 2, 0)), ("Most", stats(4, 3, 0))]);
    assert_eq!(names(&sb.sorted_by_win_rate()), vec!["Most", "Half"]);
    let sb = board(&[("Most", stats(4, 3, 0)), ("Half", stats(4, 2, 0))]);
    assert_eq!(names(&sb.sorted_by_win_rate()), vec!["Most", "Half"]);
}

#[test]
fn sorted_by_win_rate_goes_by_rate_not_by_wins() {
    let sb = board(&[
        ("Ann", stats(100, 40, 0)),
        ("Bob", stats(2, 1, 0)),
        ("Cy", stats(0, 0, 0)),
        ("Dee", stats(3, 3, 0)),
        ("Eve", stats(10, 5, 0)),
        ("Fay", stats(7, 0, 0)),
    ]);
    assert_eq!(names(&sb.sorted_by_win_rate()), vec!["Dee", "Bob", "Eve", "Ann", "Cy", "Fay"]);
    assert_eq!(names(&sb.sorted_by_wins()), vec!["Ann", "Eve", "Dee", "Bob", "Cy", "Fay"]);
}

#[test]
fn the_order_of_entry_does_not_change_a_ranking() {
    let lines = [
        ("Ann", stats(4, 2, 1)),
        ("Bob", stats(2, 1, 5)),
        ("Cy", stats(8, 4, 0)),
        ("Dee", stats(1, 1, 0)),
    ];
    let mut reversed = lines;
    reversed.reverse();
    let forward = board(&lines);
    let backward = board(&reversed);
    for key in [SortKey::Wins, SortKey::WinRate] {
        assert_eq!(names(&forward.sorted_by(key)), names(&backward.sorted_by(key)));
    }
    assert_eq!(names(&forward.sorted_by(SortKey::WinRate)), vec!["Dee", "Ann", "Bob", "Cy"]);
    assert_eq!(names(&forward.sorted_by(SortKey::Wins)), vec!["Cy", "Ann", "Bob", "Dee"]);
}

#[test]
fn ranks_ahead_compares_key_then_name() {
    let low = stats(4, 1, 0);
    let high = stats(8, 3, 0);
    assert!(ranks_ahead(SortKey::Wins, "Zed", &high, "Ann", &low));
    assert!(!ranks_ahead(SortKey::Wins, "Ann", &low, "Zed", &high));
    assert!(ranks_ahead(SortKey::Wins, "Ann", &low, "Bob", &low));
    assert!(!ranks_ahead(SortKey::Wins, "Bob", &low, "Ann", &low));
    assert!(!ranks_ahead(SortKey::Wins, "Ann", &low, "Ann", &low));
    assert!(ranks_ahead(SortKey::WinRate, "Zed", &high, "Ann", &low));
    assert!(ranks_ahead(SortKey::WinRate, "Ann", &stats(2, 1, 0), "Bob", &stats(6, 3, 0)));
    assert!(!ranks_ahead(SortKey::WinRate, "Bob", &stats(6, 3, 0), "Ann", &stats(2, 1, 0)));
}

#[test]
fn entries_and_from_entries_round_trip() {
    let mut sb = Scoreboard::new();
    sb.update_after_match("Ann", "Bob", 2, 1, MatchOutcome::Player1Win);
    sb.update_after_match("Cy", "Ann", 0, 3, MatchOutcome::Player2Win);
    let again = Scoreboard::from_entries(sb.entries());
    assert_eq!(again.len(), 3);
    for name in ["Ann", "Bob", "Cy", "Dee"] {
        assert_eq!(again.stats_of(name), sb.stats_of(name));
    }
    assert_eq!(again.stats_of("Ann"), Some(stats(2, 2, 5)));
}

#[test]
fn from_entries_lets_a_later_entry_replace_an_earlier_one() {
    let sb = board(&[("Ann", stats(1, 1, 1)), ("Bob", stats(2, 2, 2)), ("Ann", stats(3, 0, 3))]);
    assert_eq!(sb.len(), 2);
    assert_eq!(sb.stats_of("Ann"), Some(stats(3, 0, 3)));
    assert_eq!(sb.stats_of("Bob"), Some(stats(2, 2, 2)));
}

#[test]
fn load_falls_back_to_an_empty_board() {
    let sb = Scoreboard::load(None);
    assert_eq!(sb.len(), 0);
    let sb = Scoreboard::load(Some(vec![("Ann".to_string(), stats(2, 1, 3))]));
    assert_eq!(sb.len(), 1);
    assert_eq!(sb.stats_of("Ann"), Some(stats(2, 1, 3)));
}

#[test]
fn a_board_survives_a_trip_through_json() {
    let mut sb = Scoreboard::new();
    sb.update_after_match("Ann", "Bob", 2, 1, MatchOutcome::Player1Win);
    sb.update_after_match("Zoë", "Ann", 0, 3, MatchOutcome::Player2Win);

    let mut players = serde_json::Map::new();
    for (name, s) in sb.entries() {
        let mut fields = serde_json::Map::new();
        fields.insert("matches_played".to_string(), serde_json::Value::from(s.matches_played));
        fields.insert("matches_won".to_string(), serde_json::Value::from(s.matches_won));
        fields.insert("rounds_won".to_string(), serde_json::Value::from(s.rounds_won));
        players.insert(name, serde_json::Value::Object(fields));
    }
    let text = serde_json::to_string_pretty(&serde_json::Value::Object(players)).unwrap();

    let parsed: serde_json::Value = serde_json::from_str(&text).unwrap();
    let field = |v: &serde_json::Value, key: &str| v[key].as_u64().unwrap() as u32;
    let entries = parsed
        .as_object()
        .unwrap()
        .iter()
        .map(|(name, v)| {
            let s = stats(field(v, "matches_played"), field(v, "matches_won"), field(v, "rounds_won"));
            (name.clone(), s)
        })
        .collect();
    let again = Scoreboard::load(Some(entries));

    assert_eq!(again.len(), sb.len());
    for name in ["Ann", "Bob", "Zoë"] {
        assert_eq!(again.stats_of(name), sb.stats_of(name));
    }
    assert_eq!(names(&again.sorted_by_wins()), names(&sb.sorted_by_wins()));
}
