//! Gestures, rulesets and the win relation between gestures.

use vstd::prelude::*;
use crate::utils::input::{gesture_for_token, lowercase_of, parse_gesture};

verus! {

/// A hand shape a player can throw.
#[derive(Debug, Clone, Copy, PartialEq, Eq, Hash, Structural)]
pub enum Gesture {
    Rock,
    Paper,
    Scissors,
    Lizard,
    Spock,
}

/// Which gestures a match admits: the classic three, or all five.
#[derive(Debug, Clone, Copy, PartialEq, Eq, Structural)]
pub enum Ruleset {
    Classic,
    Extended,
}

/// The win relation: `a` defeats `b`. It does not depend on the ruleset.
pub open spec fn spec_beats(a: Gesture, b: Gesture) -> bool {
    match (a, b) {
        (Gesture::Rock, Gesture::Scissors) => true,
        (Gesture::Rock, Gesture::Lizard) => true,
        (Gesture::Paper, Gesture::Rock) => true,
        (Gesture::Paper, Gesture::Spock) => true,
        (Gesture::Scissors, Gesture::Paper) => true,
        (Gesture::Scissors, Gesture::Lizard) => true,
        (Gesture::Lizard, Gesture::Spock) => true,
        (Gesture::Lizard, Gesture::Paper) => true,
        (Gesture::Spock, Gesture::Scissors) => true,
        (Gesture::Spock, Gesture::Rock) => true,
        _ => false,
    }
}

/// The gestures of a ruleset, in their fixed order.
pub open spec fn legal_gestures(ruleset: Ruleset) -> Seq<Gesture> {
    match ruleset {
        Ruleset::Classic => seq![Gesture::Rock, Gesture::Paper, Gesture::Scissors],
        Ruleset::Extended => seq![
            Gesture::Rock,
            Gesture::Paper,
            Gesture::Scissors,
            Gesture::Lizard,
            Gesture::Spock,
        ],
    }
}

/// Whether `gesture` may be played under `ruleset`.
pub open spec fn is_legal(ruleset: Ruleset, gesture: Gesture) -> bool {
    ruleset is Extended || gesture is Rock || gesture is Paper || gesture is Scissors
}

/// What parsing `text` as a gesture gives: the gesture that the text in
/// lower case names under the extended ruleset, or an error if it names
/// none.
pub open spec fn spec_from_str(text: Seq<char>) -> Result<Gesture, ()> {
    match gesture_for_token(lowercase_of(text), Ruleset::Extended) {
        Some(gesture) => Ok(gesture),
        None => Err(()),
    }
}

impl core::str::FromStr for Gesture {
    type Err = ();

    /// Reads a gesture as [`parse_gesture`] reads it under the extended
    /// ruleset: any of the five, by name or letter, in any case. Text that
    /// names no gesture is an error.
    fn from_str(s: &str) -> (parsed: Result<Gesture, ()>)
        ensures
            parsed == spec_from_str(s@),
    {
        match parse_gesture(s, &Ruleset::Extended) {
            Some(gesture) => Ok(gesture),
            None => Err(()),
        }
    }
}

impl Gesture {
    /// Position of the gesture in the fixed order Rock, Paper, Scissors,
    /// Lizard, Spock.
    pub open spec fn rank(self) -> nat {
        match self {
            Gesture::Rock => 0,
            Gesture::Paper => 1,
            Gesture::Scissors => 2,
            Gesture::Lizard => 3,
            Gesture::Spock => 4,
        }
    }

    /// The display name of the gesture.
    pub open spec fn name(self) -> Seq<char> {
        match self {
            Gesture::Rock => "Rock"@,
            Gesture::Paper => "Paper"@,
            Gesture::Scissors => "Scissors"@,
            Gesture::Lizard => "Lizard"@,
            Gesture::Spock => "Spock"@,
        }
    }

    /// All valid gestures for a given ruleset.
    pub fn gestures_for_ruleset(ruleset: &Ruleset) -> (gestures: Vec<Gesture>)
        ensures
            gestures@ == legal_gestures(*ruleset),
    {
        let mut gestures: Vec<Gesture> = Vec::new();
        gestures.push(Gesture::Rock);
        gestures.push(Gesture::Paper);
        gestures.push(Gesture::Scissors);
        match ruleset {
            Ruleset::Classic => {},
            Ruleset::Extended => {
                gestures.push(Gesture::Lizard);
                gestures.push(Gesture::Spock);
            },
        }
        assert(gestures@ =~= legal_gestures(*ruleset));
        gestures
    }

    /// Friendly string for display.
    pub fn as_str(&self) -> (text: &'static str)
        ensures
            text@ == self.name(),
    {
        match self {
            Gesture::Rock => "Rock",
            Gesture::Paper => "Paper",
            Gesture::Scissors => "Scissors",
            Gesture::Lizard => "Lizard",
            Gesture::Spock => "Spock",
        }
    }
}

/// Returns true if `a` beats `b`.
pub fn beats(a: &Gesture, b: &Gesture) -> (wins: bool)
    ensures
        wins == spec_beats(*a, *b),
{
    match *a {
        Gesture::Rock => matches!(*b, Gesture::Scissors | Gesture::Lizard),
        Gesture::Paper => matches!(*b, Gesture::Rock | Gesture::Spock),
        Gesture::Scissors => matches!(*b, Gesture::Paper | Gesture::Lizard),
        Gesture::Lizard => matches!(*b, Gesture::Spock | Gesture::Paper),
        Gesture::Spock => matches!(*b, Gesture::Scissors | Gesture::Rock),
    }
}

/// Whether `gesture` belongs to the legal set of `ruleset`.
pub fn is_legal_gesture(ruleset: &Ruleset, gesture: &Gesture) -> (legal: bool)
    ensures
        legal == is_legal(*ruleset, *gesture),
{
    match ruleset {
        Ruleset::Extended => true,
        Ruleset::Classic => matches!(*gesture, Gesture::Rock | Gesture::Paper | Gesture::Scissors),
    }
}

/// No gesture beats itself.
pub proof fn lemma_beats_irreflexive(g: Gesture)
    ensures
        !spec_beats(g, g),
{
}

/// Of two different gestures exactly one beats the other: never both, and
/// never neither.
pub proof fn lemma_beats_decides_distinct(a: Gesture, b: Gesture)
    requires
        a != b,
    ensures
        spec_beats(a, b) != spec_beats(b, a),
{
}

/// A gesture is legal exactly when it occurs in the ruleset's list.
pub proof fn lemma_legal_iff_listed(ruleset: Ruleset, gesture: Gesture)
    ensures
        is_legal(ruleset, gesture) <==> legal_gestures(ruleset).contains(gesture),
{
    let listed = legal_gestures(ruleset);
    if is_legal(ruleset, gesture) {
        assert(listed[gesture.rank() as int] == gesture);
    }
}

/// Whatever the ruleset, every gesture of the five is beaten by some legal
/// gesture: the set of counters to a predicted move is never empty.
pub proof fn lemma_every_gesture_has_a_legal_counter(ruleset: Ruleset, target: Gesture)
    ensures
        exists|g: Gesture| is_legal(ruleset, g) && #[trigger] spec_beats(g, target),
{
    match target {
        Gesture::Rock => assert(spec_beats(Gesture::Paper, target)),
        Gesture::Paper => assert(spec_beats(Gesture::Scissors, target)),
        Gesture::Scissors => assert(spec_beats(Gesture::Rock, target)),
        Gesture::Lizard => assert(spec_beats(Gesture::Rock, target)),
        Gesture::Spock => assert(spec_beats(Gesture::Paper, target)),
    }
}

} // verus!
