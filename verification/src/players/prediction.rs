//! Predicting an opponent's next gesture from the gestures played so far.
//!
//! Two predictors are defined: the gesture played most often in the whole
//! history, and the gesture that weighs most in a window of the latest
//! moves, where a move counts the more the later it was played. Ties go to
//! the gesture that comes first in the order Rock, Paper, Scissors, Lizard,
//! Spock, so a prediction depends on the history alone.

use vstd::prelude::*;
use crate::game::rules::Gesture;

verus! {

/// The longest window of recent moves that the weighted predictor looks at.
pub const RECENCY_WINDOW: usize = 5;

/// How often `gesture` occurs in `history`.
pub open spec fn occurrences(history: Seq<Gesture>, gesture: Gesture) -> nat
    decreases history.len(),
{
    if history.len() == 0 {
        0
    } else {
        occurrences(history.drop_last(), gesture) + if history.last() == gesture {
            1nat
        } else {
            0nat
        }
    }
}

/// The weight of the move at position `index` of a window: 1 for the
/// oldest move, one more for each move after it, so the newest move of a
/// window of length n weighs n.
pub open spec fn recency_weight(index: int) -> nat {
    (index + 1) as nat
}

/// The sum of the weights of the positions of `window` that hold `gesture`.
pub open spec fn weighted_occurrences(window: Seq<Gesture>, gesture: Gesture) -> nat
    decreases window.len(),
{
    if window.len() == 0 {
        0
    } else {
        weighted_occurrences(window.drop_last(), gesture) + if window.last() == gesture {
            recency_weight(window.len() - 1)
        } else {
            0nat
        }
    }
}

/// The latest moves of `history`, oldest first: all of them if there are at
/// most five, else the last five.
pub open spec fn recent_window(history: Seq<Gesture>) -> Seq<Gesture> {
    if history.len() <= RECENCY_WINDOW {
        history
    } else {
        history.subrange(history.len() - RECENCY_WINDOW, history.len() as int)
    }
}

/// `gesture` has the highest score, and a strictly higher one than every
/// gesture that comes before it in the fixed order.
pub open spec fn leads(score: spec_fn(Gesture) -> nat, gesture: Gesture) -> bool {
    forall|other: Gesture|
        #![trigger score(other)]
        score(other) <= score(gesture) && (other.rank() < gesture.rank() ==> score(other) < score(
            gesture,
        ))
}

/// The gesture with the highest score; among several, the first in the
/// fixed order.
pub open spec fn front_runner(score: spec_fn(Gesture) -> nat) -> Gesture {
    let upto_paper = if score(Gesture::Paper) > score(Gesture::Rock) {
        Gesture::Paper
    } else {
        Gesture::Rock
    };
    let upto_scissors = if score(Gesture::Scissors) > score(upto_paper) {
        Gesture::Scissors
    } else {
        upto_paper
    };
    let upto_lizard = if score(Gesture::Lizard) > score(upto_scissors) {
        Gesture::Lizard
    } else {
        upto_scissors
    };
    if score(Gesture::Spock) > score(upto_lizard) {
        Gesture::Spock
    } else {
        upto_lizard
    }
}

/// The gesture that occurs most often in `history`.
pub open spec fn predicted_by_frequency(history: Seq<Gesture>) -> Gesture {
    front_runner(|g: Gesture| occurrences(history, g))
}

/// The gesture with the greatest total weight in the window of recent
/// moves.
pub open spec fn predicted_by_recency(history: Seq<Gesture>) -> Gesture {
    front_runner(|g: Gesture| weighted_occurrences(recent_window(history), g))
}

/// Scores of the five gestures, as counted while walking a history.
pub struct Tally {
    pub rock: usize,
    pub paper: usize,
    pub scissors: usize,
    pub lizard: usize,
    pub spock: usize,
}

impl Tally {
    /// The score of `gesture`.
    pub open spec fn score(self, gesture: Gesture) -> nat {
        match gesture {
            Gesture::Rock => self.rock as nat,
            Gesture::Paper => self.paper as nat,
            Gesture::Scissors => self.scissors as nat,
            Gesture::Lizard => self.lizard as nat,
            Gesture::Spock => self.spock as nat,
        }
    }

    /// A tally in which every gesture scores zero.
    pub fn new() -> (tally: Tally)
        ensures
            forall|g: Gesture| tally.score(g) == 0,
    {
        Tally { rock: 0, paper: 0, scissors: 0, lizard: 0, spock: 0 }
    }

    /// The score of `gesture`.
    pub fn get(&self, gesture: Gesture) -> (points: usize)
        ensures
            points == self.score(gesture),
    {
        match gesture {
            Gesture::Rock => self.rock,
            Gesture::Paper => self.paper,
            Gesture::Scissors => self.scissors,
            Gesture::Lizard => self.lizard,
            Gesture::Spock => self.spock,
        }
    }

    /// Add `points` to the score of `gesture` and leave the others alone.
    pub fn credit(&mut self, gesture: Gesture, points: usize)
        requires
            old(self).score(gesture) + points <= usize::MAX,
        ensures
            final(self).score(gesture) == old(self).score(gesture) + points,
            forall|other: Gesture| other != gesture ==> final(self).score(other) == old(self).score(other),
    {
        match gesture {
            Gesture::Rock => {
                self.rock = self.rock + points;
            },
            Gesture::Paper => {
                self.paper = self.paper + points;
            },
            Gesture::Scissors => {
                self.scissors = self.scissors + points;
            },
            Gesture::Lizard => {
                self.lizard = self.lizard + points;
            },
            Gesture::Spock => {
                self.spock = self.spock + points;
            },
        }
    }

    /// The gesture with the highest score; among several, the first in the
    /// fixed order.
    pub fn leader(&self) -> (gesture: Gesture)
        ensures
            gesture == front_runner(|g: Gesture| self.score(g)),
            leads(|g: Gesture| self.score(g), gesture),
    {
        let mut best = Gesture::Rock;
        let mut top = self.rock;
        if self.paper > top {
            best = Gesture::Paper;
            top = self.paper;
        }
        if self.scissors > top {
            best = Gesture::Scissors;
            top = self.scissors;
        }
        if self.lizard > top {
            best = Gesture::Lizard;
            top = self.lizard;
        }
        if self.spock > top {
            best = Gesture::Spock;
        }
        proof {
            lemma_front_runner_leads(|g: Gesture| self.score(g));
        }
        best
    }
}

/// The front runner leads, and nothing else does: the prediction is the one
/// gesture that scores highest and comes first among those that do.
pub proof fn lemma_front_runner_leads(score: spec_fn(Gesture) -> nat)
    ensures
        leads(score, front_runner(score)),
        forall|g: Gesture| leads(score, g) ==> g == front_runner(score),
{
    let winner = front_runner(score);
    assert forall|other: Gesture|
        #![trigger score(other)]
        score(other) <= score(winner) && (other.rank() < winner.rank() ==> score(other) < score(
            winner,
        )) by {
        match other {
            Gesture::Rock => {},
            Gesture::Paper => {},
            Gesture::Scissors => {},
            Gesture::Lizard => {},
            Gesture::Spock => {},
        }
    }
    assert forall|g: Gesture| leads(score, g) implies g == winner by {
        let a = score(g);
        let b = score(winner);
        if g.rank() < winner.rank() {
            assert(score(g) < score(winner));
        } else if winner.rank() < g.rank() {
            assert(score(winner) < score(g));
        } else {
            assert(g.rank() == winner.rank());
        }
    }
}

/// A gesture occurs in a history at most as often as the history is long.
pub proof fn lemma_occurrences_bounded(history: Seq<Gesture>, gesture: Gesture)
    ensures
        occurrences(history, gesture) <= history.len(),
    decreases history.len(),
{
    if history.len() > 0 {
        lemma_occurrences_bounded(history.drop_last(), gesture);
    }
}

/// The counts of the five gestures add up to the length of the history.
pub proof fn lemma_occurrences_total(history: Seq<Gesture>)
    ensures
        occurrences(history, Gesture::Rock) + occurrences(history, Gesture::Paper) + occurrences(
            history,
            Gesture::Scissors,
        ) + occurrences(history, Gesture::Lizard) + occurrences(history, Gesture::Spock)
            == history.len(),
    decreases history.len(),
{
    if history.len() > 0 {
        lemma_occurrences_total(history.drop_last());
    }
}

/// In a window, each position weighs at most as much as the window is long.
pub proof fn lemma_weighted_occurrences_bounded(window: Seq<Gesture>, gesture: Gesture)
    ensures
        weighted_occurrences(window, gesture) <= window.len() * window.len(),
    decreases window.len(),
{
    if window.len() > 0 {
        let shorter = window.drop_last();
        lemma_weighted_occurrences_bounded(shorter, gesture);
        assert(shorter.len() * shorter.len() + window.len() <= window.len() * window.len())
            by (nonlinear_arith)
            requires
                shorter.len() + 1 == window.len(),
        ;
    }
}

/// A later move of a window never weighs less than an earlier one, the
/// newest move weighs as much as the window is long, and so the gesture
/// played last scores at least that much.
pub proof fn lemma_recent_moves_weigh_more(window: Seq<Gesture>, earlier: int, later: int)
    requires
        0 <= earlier <= later < window.len(),
    ensures
        recency_weight(earlier) <= recency_weight(later),
        earlier < later ==> recency_weight(earlier) < recency_weight(later),
        recency_weight(later) <= recency_weight(window.len() - 1),
        recency_weight(window.len() - 1) == window.len(),
        recency_weight(0) == 1,
        weighted_occurrences(window, window.last()) >= window.len(),
{
}

/// The gesture predicted from a history that is not empty occurs in it:
/// the most frequent gesture was played at least once.
pub proof fn lemma_prediction_was_played(history: Seq<Gesture>)
    requires
        history.len() > 0,
    ensures
        occurrences(history, predicted_by_frequency(history)) > 0,
{
    lemma_occurrences_total(history);
    lemma_front_runner_leads(|g: Gesture| occurrences(history, g));
    let score = |g: Gesture| occurrences(history, g);
    let winner = predicted_by_frequency(history);
    assert(score(Gesture::Rock) <= score(winner));
    assert(score(Gesture::Paper) <= score(winner));
    assert(score(Gesture::Scissors) <= score(winner));
    assert(score(Gesture::Lizard) <= score(winner));
    assert(score(Gesture::Spock) <= score(winner));
}

/// The gesture played most often in `history`, or `None` if nothing was
/// played. Among gestures played equally often, the first in the order
/// Rock, Paper, Scissors, Lizard, Spock is returned.
pub fn most_frequent(history: &[Gesture]) -> (top: Option<Gesture>)
    ensures
        history@.len() == 0 <==> top is None,
        top matches Some(g) ==> g == predicted_by_frequency(history@) && leads(
            |x: Gesture| occurrences(history@, x),
            g,
        ),
{
    if history.len() == 0 {
        return None;
    }
    let mut tally = Tally::new();
    let mut i: usize = 0;
    while i < history.len()
        invariant
            i <= history.len(),
            forall|g: Gesture| tally.score(g) == occurrences(history@.take(i as int), g),
        decreases history.len() - i,
    {
        let played = history[i];
        proof {
            let before = history@.take(i as int);
            let after = history@.take(i + 1);
            assert(after.drop_last() =~= before);
            assert(after.last() == played);
            lemma_occurrences_bounded(before, played);
        }
        tally.credit(played, 1);
        i = i + 1;
    }
    let top = tally.leader();
    proof {
        assert(history@.take(i as int) =~= history@);
        lemma_front_runner_leads(|x: Gesture| occurrences(history@, x));
        let counted = |x: Gesture| tally.score(x);
        let exact = |x: Gesture| occurrences(history@, x);
        assert(forall|g: Gesture| #[trigger] counted(g) == exact(g));
        assert(front_runner(counted) == front_runner(exact));
    }
    Some(top)
}

/// The gesture that weighs most in the window of the latest moves of
/// `history`, or `None` if nothing was played. The newest move of a window
/// of n moves weighs n, the one before it n - 1, down to 1 for the oldest;
/// ties go to the first gesture in the fixed order.
pub fn most_recent_weighted(history: &[Gesture]) -> (top: Option<Gesture>)
    ensures
        history@.len() == 0 <==> top is None,
        top matches Some(g) ==> g == predicted_by_recency(history@) && leads(
            |x: Gesture| weighted_occurrences(recent_window(history@), x),
            g,
        ),
{
    let len = history.len();
    if len == 0 {
        return None;
    }
    let n = if len < RECENCY_WINDOW {
        len
    } else {
        RECENCY_WINDOW
    };
    let start = len - n;
    let ghost window = recent_window(history@);
    assert(window =~= history@.subrange(start as int, len as int));
    let mut tally = Tally::new();
    let mut offset: usize = 0;
    while offset < n
        invariant
            offset <= n <= RECENCY_WINDOW,
            start + n == len,
            len == history@.len(),
            window == history@.subrange(start as int, len as int),
            forall|g: Gesture| tally.score(g) == weighted_occurrences(window.take(offset as int), g),
        decreases n - offset,
    {
        let played = history[start + offset];
        proof {
            let before = window.take(offset as int);
            let after = window.take(offset + 1);
            assert(after.drop_last() =~= before);
            assert(after.last() == played);
            lemma_weighted_occurrences_bounded(before, played);
            assert(before.len() * before.len() <= 25) by (nonlinear_arith)
                requires
                    before.len() <= 5,
            ;
        }
        tally.credit(played, offset + 1);
        offset = offset + 1;
    }
    let top = tally.leader();
    proof {
        assert(window.take(offset as int) =~= window);
        lemma_front_runner_leads(|x: Gesture| weighted_occurrences(window, x));
        let counted = |x: Gesture| tally.score(x);
        let exact = |x: Gesture| weighted_occurrences(recent_window(history@), x);
        assert(forall|g: Gesture| #[trigger] counted(g) == exact(g));
        assert(front_runner(counted) == front_runner(exact));
    }
    Some(top)
}

} // verus!
