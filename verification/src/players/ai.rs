//! The computer opponent.
//!
//! Every tier first settles on a list of candidate gestures and then draws
//! one of them at random. The list is a function of the ruleset, the
//! opponent's history and, for the hard tier, one random roll; it is
//! computed by verified code. Only the draw and the roll are left to the
//! random number generator.

use vstd::prelude::*;
use rand::seq::SliceRandom;
use rand::Rng;
use crate::game::rules::{
    beats,
    is_legal,
    legal_gestures,
    lemma_every_gesture_has_a_legal_counter,
    lemma_legal_iff_listed,
    spec_beats,
    Gesture,
    Ruleset,
};
use crate::players::ai_difficulty::AiDifficulty;
use crate::players::prediction::{
    most_frequent,
    most_recent_weighted,
    predicted_by_frequency,
    predicted_by_recency,
};

verus! {

/// Out of how many rolls the hard tier plays one move at random.
pub const WILD_ROLL_ODDS: u32 = 5;

/// The thread-local random number generator of `rand`. Nothing is known of
/// its state.
#[verifier::external_type_specification]
#[verifier::external_body]
pub struct ExThreadRng(rand::rngs::ThreadRng);

/// `rand::thread_rng` hands out the generator of the current thread.
/// Nothing is claimed of it.
pub assume_specification[ rand::thread_rng ]() -> (rng: rand::rngs::ThreadRng);

/// `SliceRandom::choose` on a slice of gestures: `None` for an empty
/// slice, else one of its elements. Which element is left open.
#[verifier::external_body]
fn choose_gesture(options: &[Gesture], rng: &mut rand::rngs::ThreadRng) -> (pick: Option<Gesture>)
    ensures
        options@.len() == 0 ==> pick is None,
        options@.len() > 0 ==> pick is Some && options@.contains(pick->0),
{
    options.choose(rng).copied()
}

/// `Rng::gen_ratio`: a boolean that is true with probability
/// `numerator / denominator`. Only the two certain cases are claimed: never
/// true for a zero numerator, always true when both numbers are equal. The
/// call panics for a zero denominator or a numerator above it, so those
/// are excluded.
#[verifier::external_body]
fn roll_ratio(rng: &mut rand::rngs::ThreadRng, numerator: u32, denominator: u32) -> (hit: bool)
    requires
        0 < denominator,
        numerator <= denominator,
    ensures
        numerator == 0 ==> !hit,
        numerator == denominator ==> hit,
{
    rng.gen_ratio(numerator, denominator)
}

/// The legal gestures that beat `target`, in the ruleset's order.
pub open spec fn counters(ruleset: Ruleset, target: Gesture) -> Seq<Gesture> {
    legal_gestures(ruleset).filter(|g: Gesture| spec_beats(g, target))
}

/// The counters of `target`, or every legal gesture should there be none.
pub open spec fn counters_or_any(ruleset: Ruleset, target: Gesture) -> Seq<Gesture> {
    if counters(ruleset, target).len() == 0 {
        legal_gestures(ruleset)
    } else {
        counters(ruleset, target)
    }
}

/// The gestures among which a tier draws its move. `wild` is the outcome
/// of the hard tier's roll; the other tiers ignore it.
///
/// * Easy: every legal gesture.
/// * Normal: the counters of the opponent's most frequent gesture.
/// * Hard: the counters of the gesture that the recency-weighted window
///   predicts, unless the roll came up wild.
///
/// With an empty history there is nothing to predict, and every legal
/// gesture is a candidate.
pub open spec fn spec_candidate_moves(
    difficulty: AiDifficulty,
    ruleset: Ruleset,
    history: Seq<Gesture>,
    wild: bool,
) -> Seq<Gesture> {
    match difficulty {
        AiDifficulty::Easy => legal_gestures(ruleset),
        AiDifficulty::Normal => if history.len() == 0 {
            legal_gestures(ruleset)
        } else {
            counters_or_any(ruleset, predicted_by_frequency(history))
        },
        AiDifficulty::Hard => if history.len() == 0 || wild {
            legal_gestures(ruleset)
        } else {
            counters_or_any(ruleset, predicted_by_recency(history))
        },
    }
}

/// Whether the computer at `difficulty` can answer `history` with
/// `gesture`: the gesture is a candidate of the tier, for the hard tier
/// with either outcome of its roll.
pub open spec fn may_generate(
    difficulty: AiDifficulty,
    ruleset: Ruleset,
    history: Seq<Gesture>,
    gesture: Gesture,
) -> bool {
    spec_candidate_moves(difficulty, ruleset, history, false).contains(gesture) || (difficulty is Hard
        && spec_candidate_moves(difficulty, ruleset, history, true).contains(gesture))
}

/// A gesture is among the counters of `target` exactly when it is legal
/// and beats `target`; every gesture has at least one counter.
pub proof fn lemma_counters(ruleset: Ruleset, target: Gesture)
    ensures
        counters(ruleset, target).len() > 0,
        counters_or_any(ruleset, target) == counters(ruleset, target),
        forall|g: Gesture|
            counters(ruleset, target).contains(g) <==> is_legal(ruleset, g) && spec_beats(
                g,
                target,
            ),
{
    let beats_target = |g: Gesture| spec_beats(g, target);
    let listed = legal_gestures(ruleset);
    assert forall|g: Gesture|
        counters(ruleset, target).contains(g) <==> is_legal(ruleset, g) && spec_beats(
            g,
            target,
        ) by {
        lemma_legal_iff_listed(ruleset, g);
        lemma_filter_members(listed, beats_target, g);
    }
    lemma_every_gesture_has_a_legal_counter(ruleset, target);
    let witness = choose|g: Gesture| is_legal(ruleset, g) && #[trigger] spec_beats(g, target);
    assert(counters(ruleset, target).contains(witness));
}

/// What a filtered sequence holds: the elements of the sequence that meet
/// the predicate.
proof fn lemma_filter_members(items: Seq<Gesture>, keep: spec_fn(Gesture) -> bool, g: Gesture)
    ensures
        items.filter(keep).contains(g) <==> items.contains(g) && keep(g),
    decreases items.len(),
{
    reveal(Seq::filter);
    if items.len() > 0 {
        let front = items.drop_last();
        let last = items.last();
        lemma_filter_members(front, keep, g);
        let kept = front.filter(keep);
        if items.contains(g) {
            let i = choose|i: int| 0 <= i < items.len() && items[i] == g;
            if i < front.len() {
                assert(front[i] == g);
            }
        }
        if front.contains(g) {
            let i = choose|i: int| 0 <= i < front.len() && front[i] == g;
            assert(items[i] == g);
        }
        assert(items[items.len() - 1] == last);
        if keep(last) {
            assert(items.filter(keep) == kept.push(last));
            assert(kept.push(last)[kept.len() as int] == last);
            if kept.contains(g) {
                let i = choose|i: int| 0 <= i < kept.len() && kept[i] == g;
                assert(kept.push(last)[i] == g);
            }
        }
    }
}

/// Every candidate of every tier is legal, there is always a candidate,
/// and once the opponent has played, the candidates of the normal tier
/// and of a hard tier that did not roll wild all beat the predicted
/// gesture.
pub proof fn lemma_candidates(
    difficulty: AiDifficulty,
    ruleset: Ruleset,
    history: Seq<Gesture>,
    wild: bool,
)
    ensures
        spec_candidate_moves(difficulty, ruleset, history, wild).len() > 0,
        forall|g: Gesture|
            spec_candidate_moves(difficulty, ruleset, history, wild).contains(g) ==> is_legal(
                ruleset,
                g,
            ),
        difficulty is Normal && history.len() > 0 ==> forall|g: Gesture|
            spec_candidate_moves(difficulty, ruleset, history, wild).contains(g) ==> spec_beats(
                g,
                predicted_by_frequency(history),
            ),
        difficulty is Hard && history.len() > 0 && !wild ==> forall|g: Gesture|
            spec_candidate_moves(difficulty, ruleset, history, wild).contains(g) ==> spec_beats(
                g,
                predicted_by_recency(history),
            ),
{
    lemma_counters(ruleset, predicted_by_frequency(history));
    lemma_counters(ruleset, predicted_by_recency(history));
    assert forall|g: Gesture| legal_gestures(ruleset).contains(g) implies is_legal(ruleset, g) by {
        lemma_legal_iff_listed(ruleset, g);
    }
}

/// The legal gestures that beat `target`, in the ruleset's order.
pub fn counter_moves(ruleset: &Ruleset, target: Gesture) -> (found: Vec<Gesture>)
    ensures
        found@ == counters(*ruleset, target),
{
    let allowed = Gesture::gestures_for_ruleset(ruleset);
    let mut found: Vec<Gesture> = Vec::new();
    let ghost beats_target = |g: Gesture| spec_beats(g, target);
    let mut i: usize = 0;
    while i < allowed.len()
        invariant
            i <= allowed.len(),
            allowed@ == legal_gestures(*ruleset),
            beats_target == (|g: Gesture| spec_beats(g, target)),
            found@ == allowed@.take(i as int).filter(beats_target),
        decreases allowed.len() - i,
    {
        let candidate = allowed[i];
        proof {
            let before = allowed@.take(i as int);
            let after = allowed@.take(i + 1);
            assert(after.drop_last() =~= before);
            assert(after.last() == candidate);
            reveal(Seq::filter);
        }
        if beats(&candidate, &target) {
            found.push(candidate);
        }
        i = i + 1;
    }
    assert(allowed@.take(i as int) =~= allowed@);
    found
}

/// The gestures among which a tier draws its move, given the opponent's
/// history and the outcome of the hard tier's roll.
pub fn candidate_moves(
    difficulty: AiDifficulty,
    ruleset: &Ruleset,
    history: &[Gesture],
    wild: bool,
) -> (candidates: Vec<Gesture>)
    ensures
        candidates@ == spec_candidate_moves(difficulty, *ruleset, history@, wild),
        candidates@.len() > 0,
        forall|g: Gesture| candidates@.contains(g) ==> is_legal(*ruleset, g),
{
    proof {
        lemma_candidates(difficulty, *ruleset, history@, wild);
    }
    let predicted = match difficulty {
        AiDifficulty::Easy => None,
        AiDifficulty::Normal => most_frequent(history),
        AiDifficulty::Hard => if wild {
            None
        } else {
            most_recent_weighted(history)
        },
    };
    match predicted {
        None => Gesture::gestures_for_ruleset(ruleset),
        Some(target) => {
            let found = counter_moves(ruleset, target);
            if found.len() == 0 {
                Gesture::gestures_for_ruleset(ruleset)
            } else {
                found
            }
        },
    }
}

/// A uniformly random legal gesture.
pub fn generate_easy_move(ruleset: &Ruleset) -> (gesture: Gesture)
    ensures
        is_legal(*ruleset, gesture),
        may_generate(AiDifficulty::Easy, *ruleset, Seq::empty(), gesture),
{
    let empty: Vec<Gesture> = Vec::new();
    let allowed = candidate_moves(AiDifficulty::Easy, ruleset, empty.as_slice(), false);
    let mut rng = rand::thread_rng();
    let pick = choose_gesture(allowed.as_slice(), &mut rng);
    pick.unwrap()
}

/// A random counter to the gesture the opponent has played most often; a
/// random legal gesture while the opponent has not played yet.
pub fn generate_normal_move(ruleset: &Ruleset, history: &[Gesture]) -> (gesture: Gesture)
    ensures
        is_legal(*ruleset, gesture),
        may_generate(AiDifficulty::Normal, *ruleset, history@, gesture),
        history@.len() > 0 ==> spec_beats(gesture, predicted_by_frequency(history@)),
{
    proof {
        lemma_candidates(AiDifficulty::Normal, *ruleset, history@, false);
    }
    let candidates = candidate_moves(AiDifficulty::Normal, ruleset, history, false);
    let mut rng = rand::thread_rng();
    let pick = choose_gesture(candidates.as_slice(), &mut rng);
    pick.unwrap()
}

/// One time in five, and while the opponent has not played yet, a random
/// legal gesture; else a random counter to the gesture that weighs most
/// among the opponent's latest moves.
pub fn generate_hard_move(ruleset: &Ruleset, history: &[Gesture]) -> (gesture: Gesture)
    ensures
        is_legal(*ruleset, gesture),
        may_generate(AiDifficulty::Hard, *ruleset, history@, gesture),
{
    let mut rng = rand::thread_rng();
    let wild = if history.len() == 0 {
        true
    } else {
        roll_ratio(&mut rng, 1, WILD_ROLL_ODDS)
    };
    let candidates = candidate_moves(AiDifficulty::Hard, ruleset, history, wild);
    let pick = choose_gesture(candidates.as_slice(), &mut rng);
    pick.unwrap()
}

/// The computer's next move at `difficulty`, given the gestures its
/// opponent has played so far.
///
/// Whatever the random draws, the move is legal and is one of the tier's
/// candidates; at the normal tier, once the opponent has played, it beats
/// the opponent's most frequent gesture.
pub fn generate_ai_move(difficulty: AiDifficulty, ruleset: &Ruleset, player_history: &[Gesture]) -> (gesture:
    Gesture)
    ensures
        is_legal(*ruleset, gesture),
        may_generate(difficulty, *ruleset, player_history@, gesture),
        difficulty is Normal && player_history@.len() > 0 ==> spec_beats(
            gesture,
            predicted_by_frequency(player_history@),
        ),
{
    match difficulty {
        AiDifficulty::Easy => generate_easy_move(ruleset),
        AiDifficulty::Normal => generate_normal_move(ruleset, player_history),
        AiDifficulty::Hard => generate_hard_move(ruleset, player_history),
    }
}

} // verus!
