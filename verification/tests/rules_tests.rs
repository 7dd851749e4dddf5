use rpsls::game::rules::{beats, is_legal_gesture, Gesture, Ruleset};

const ALL: [Gesture; 5] =
    [Gesture::Rock, Gesture::Paper, Gesture::Scissors, Gesture::Lizard, Gesture::Spock];

#[test]
fn beats_follows_the_table() {
    let wins = [
        (Gesture::Rock, Gesture::Scissors),
        (Gesture::Rock, Gesture::Lizard),
        (Gesture::Paper, Gesture::Rock),
        (Gesture::Paper, Gesture::Spock),
        (Gesture::Scissors, Gesture::Paper),
        (Gesture::Scissors, Gesture::Lizard),
        (Gesture::Lizard, Gesture::Spock),
        (Gesture::Lizard, Gesture::Paper),
        (Gesture::Spock, Gesture::Scissors),
        (Gesture::Spock, Gesture::Rock),
    ];
    for a in ALL {
        for b in ALL {
            assert_eq!(beats(&a, &b), wins.contains(&(a, b)), "{:?} against {:?}", a, b);
        }
    }
}

#[test]
fn beats_is_irreflexive() {
    for g in ALL {
        assert!(!beats(&g, &g));
    }
}

#[test]
fn beats_decides_each_of_the_twenty_ordered_pairs() {
    let mut pairs = 0;
    for a in ALL {
        for b in ALL {
            if a != b {
                pairs += 1;
                assert!(beats(&a, &b) ^ beats(&b, &a), "{:?} against {:?}", a, b);
            }
        }
    }
    assert_eq!(pairs, 20);
}

#[test]
fn each_gesture_beats_two_and_loses_to_two() {
    for a in ALL {
        assert_eq!(ALL.iter().filter(|b| beats(&a, b)).count(), 2);
        assert_eq!(ALL.iter().filter(|b| beats(b, &a)).count(), 2);
    }
}

#[test]
fn classic_ruleset_has_three_gestures() {
    assert_eq!(
        Gesture::gestures_for_ruleset(&Ruleset::Classic),
        vec![Gesture::Rock, Gesture::Paper, Gesture::Scissors]
    );
}

#[test]
fn extended_ruleset_has_five_gestures() {
    assert_eq!(Gesture::gestures_for_ruleset(&Ruleset::Extended), ALL.to_vec());
}

#[test]
fn legality_matches_the_ruleset_lists() {
    for ruleset in [Ruleset::Classic, Ruleset::Extended] {
        let listed = Gesture::gestures_for_ruleset(&ruleset);
        for g in ALL {
            assert_eq!(is_legal_gesture(&ruleset, &g), listed.contains(&g));
        }
    }
    assert!(!is_legal_gesture(&Ruleset::Classic, &Gesture::Lizard));
    assert!(!is_legal_gesture(&Ruleset::Classic, &Gesture::Spock));
}

#[test]
fn gestures_have_display_names() {
    assert_eq!(Gesture::Rock.as_str(), "Rock");
    assert_eq!(Gesture::Paper.as_str(), "Paper");
    assert_eq!(Gesture::Scissors.as_str(), "Scissors");
    assert_eq!(Gesture::Lizard.as_str(), "Lizard");
    assert_eq!(Gesture::Spock.as_str(), "Spock");
}

#[test]
fn gestures_parse_from_names_and_letters() {
    assert_eq!("rock".parse::<Gesture>(), Ok(Gesture::Rock));
    assert_eq!("r".parse::<Gesture>(), Ok(Gesture::Rock));
    assert_eq!("Paper".parse::<Gesture>(), Ok(Gesture::Paper));
    assert_eq!("P".parse::<Gesture>(), Ok(Gesture::Paper));
    assert_eq!("SCISSORS".parse::<Gesture>(), Ok(Gesture::Scissors));
    assert_eq!("s".parse::<Gesture>(), Ok(Gesture::Scissors));
    assert_eq!("lizard".parse::<Gesture>(), Ok(Gesture::Lizard));
    assert_eq!("L".parse::<Gesture>(), Ok(Gesture::Lizard));
    assert_eq!("spock".parse::<Gesture>(), Ok(Gesture::Spock));
    assert_eq!("k".parse::<Gesture>(), Ok(Gesture::Spock));
}

#[test]
fn unknown_text_does_not_parse_as_a_gesture() {
    assert_eq!("".parse::<Gesture>(), Err(()));
    assert_eq!("rocks".parse::<Gesture>(), Err(()));
    assert_eq!(" rock".parse::<Gesture>(), Err(()));
    assert_eq!("1".parse::<Gesture>(), Err(()));
}
