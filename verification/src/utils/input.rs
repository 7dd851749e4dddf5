//! Reading what a player typed: gestures, move choices and yes-or-no
//! answers. Input is matched without regard to case.

use vstd::prelude::*;
use crate::game::rules::{is_legal, Gesture, Ruleset};
use crate::utils::text::same_text;

verus! {

/// The text that `str::to_lowercase` returns for `text`.
pub uninterp spec fn lowercase_of(text: Seq<char>) -> Seq<char>;

/// `str::to_lowercase`: the lowercase equivalent of `text` as a new
/// string. What the conversion yields is not spelled out here; it is
/// only given a name.
#[verifier::external_body]
fn to_lowercase(text: &str) -> (lowered: String)
    ensures
        lowered@ == lowercase_of(text@),
{
    text.to_lowercase()
}

/// The gesture that a lowercase token names under `ruleset`: the full
/// name of a gesture or its one-letter form, `k` standing for Spock.
/// Lizard and Spock are named only under the extended ruleset.
pub open spec fn gesture_for_token(token: Seq<char>, ruleset: Ruleset) -> Option<Gesture> {
    if token == "r"@ || token == "rock"@ {
        Some(Gesture::Rock)
    } else if token == "p"@ || token == "paper"@ {
        Some(Gesture::Paper)
    } else if token == "s"@ || token == "scissors"@ {
        Some(Gesture::Scissors)
    } else if (token == "l"@ || token == "lizard"@) && ruleset is Extended {
        Some(Gesture::Lizard)
    } else if (token == "k"@ || token == "spock"@) && ruleset is Extended {
        Some(Gesture::Spock)
    } else {
        None
    }
}

/// The gesture that a lowercase entry of the move menu picks under
/// `ruleset`: the number of a menu line, `1` to `3`, under the extended
/// ruleset also `4` and `5`, or a token that names a gesture.
pub open spec fn gesture_for_choice(token: Seq<char>, ruleset: Ruleset) -> Option<Gesture> {
    if token == "1"@ {
        Some(Gesture::Rock)
    } else if token == "2"@ {
        Some(Gesture::Paper)
    } else if token == "3"@ {
        Some(Gesture::Scissors)
    } else if token == "4"@ && ruleset is Extended {
        Some(Gesture::Lizard)
    } else if token == "5"@ && ruleset is Extended {
        Some(Gesture::Spock)
    } else {
        gesture_for_token(token, ruleset)
    }
}

/// Whether a lowercase token says yes.
pub open spec fn is_yes(token: Seq<char>) -> bool {
    token == "y"@ || token == "yes"@
}

/// The gesture that the lowercase `token` names under `ruleset`, if any.
pub fn parse_token(token: &str, ruleset: &Ruleset) -> (gesture: Option<Gesture>)
    ensures
        gesture == gesture_for_token(token@, *ruleset),
        gesture matches Some(g) ==> is_legal(*ruleset, g),
{
    let extended = matches!(*ruleset, Ruleset::Extended);
    if same_text(token, "r") || same_text(token, "rock") {
        Some(Gesture::Rock)
    } else if same_text(token, "p") || same_text(token, "paper") {
        Some(Gesture::Paper)
    } else if same_text(token, "s") || same_text(token, "scissors") {
        Some(Gesture::Scissors)
    } else if (same_text(token, "l") || same_text(token, "lizard")) && extended {
        Some(Gesture::Lizard)
    } else if (same_text(token, "k") || same_text(token, "spock")) && extended {
        Some(Gesture::Spock)
    } else {
        None
    }
}

/// The gesture that the lowercase `token` picks from the move menu under
/// `ruleset`, if any.
pub fn parse_choice_token(token: &str, ruleset: &Ruleset) -> (gesture: Option<Gesture>)
    ensures
        gesture == gesture_for_choice(token@, *ruleset),
        gesture matches Some(g) ==> is_legal(*ruleset, g),
{
    let extended = matches!(*ruleset, Ruleset::Extended);
    if same_text(token, "1") {
        Some(Gesture::Rock)
    } else if same_text(token, "2") {
        Some(Gesture::Paper)
    } else if same_text(token, "3") {
        Some(Gesture::Scissors)
    } else if same_text(token, "4") && extended {
        Some(Gesture::Lizard)
    } else if same_text(token, "5") && extended {
        Some(Gesture::Spock)
    } else {
        parse_token(token, ruleset)
    }
}

/// Whether the lowercase `token` says yes.
pub fn is_yes_token(token: &str) -> (yes: bool)
    ensures
        yes == is_yes(token@),
{
    same_text(token, "y") || same_text(token, "yes")
}

/// The gesture that `input` names under `ruleset`, in any mix of upper
/// and lower case; `None` for anything else, Lizard and Spock under the
/// classic ruleset included.
pub fn parse_gesture(input: &str, ruleset: &Ruleset) -> (gesture: Option<Gesture>)
    ensures
        gesture == gesture_for_token(lowercase_of(input@), *ruleset),
        gesture matches Some(g) ==> is_legal(*ruleset, g),
{
    let lowered = to_lowercase(input);
    parse_token(lowered.as_str(), ruleset)
}

/// The gesture that `input` picks from the move menu under `ruleset`, by
/// number or by name, in any mix of upper and lower case.
pub fn parse_move_choice(input: &str, ruleset: &Ruleset) -> (gesture: Option<Gesture>)
    ensures
        gesture == gesture_for_choice(lowercase_of(input@), *ruleset),
        gesture matches Some(g) ==> is_legal(*ruleset, g),
{
    let lowered = to_lowercase(input);
    parse_choice_token(lowered.as_str(), ruleset)
}

/// Whether `input` is a yes, in any mix of upper and lower case.
pub fn is_affirmative(input: &str) -> (yes: bool)
    ensures
        yes == is_yes(lowercase_of(input@)),
{
    let lowered = to_lowercase(input);
    is_yes_token(lowered.as_str())
}

/// A token that names a gesture under the classic ruleset names the same
/// gesture under the extended one, and the extended ruleset has a token
/// pair for each of the five gestures.
pub proof fn lemma_extended_reads_more(token: Seq<char>)
    ensures
        gesture_for_token(token, Ruleset::Classic) matches Some(g) ==> gesture_for_token(
            token,
            Ruleset::Extended,
        ) == Some(g),
        gesture_for_token(token, Ruleset::Classic) is None ==> (gesture_for_token(
            token,
            Ruleset::Extended,
        ) matches Some(g) ==> !is_legal(Ruleset::Classic, g)),
{
}

} // verus!
