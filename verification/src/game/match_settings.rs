//! Match formats and the number of round wins each one asks for.

use vstd::prelude::*;

verus! {

/// How long a match lasts.
#[derive(Debug, Clone, Copy, PartialEq, Eq, Structural)]
pub enum MatchFormat {
    /// The first round that somebody wins ends the match.
    SingleRound,
    /// Best of N rounds; N is expected to be odd.
    BestOf(u32),
    /// The first player to reach K wins takes the match.
    FirstTo(u32),
}

impl MatchFormat {
    /// The number of round wins that ends a match of this format.
    pub open spec fn spec_required_wins(self) -> nat {
        match self {
            MatchFormat::SingleRound => 1,
            MatchFormat::BestOf(n) => (n as nat) / 2 + 1,
            MatchFormat::FirstTo(k) => k as nat,
        }
    }

    /// How many wins are required to win the match.
    pub fn required_wins(&self) -> (wins: u32)
        ensures
            wins == self.spec_required_wins(),
    {
        match *self {
            MatchFormat::SingleRound => 1,
            MatchFormat::BestOf(n) => (n / 2) + 1,
            MatchFormat::FirstTo(k) => k,
        }
    }
}

/// In a best-of-N match with odd N, two players cannot both reach the
/// required number of wins within N decided rounds, and one of them must.
pub proof fn lemma_best_of_majority(n: u32, wins_p1: nat, wins_p2: nat)
    requires
        n % 2 == 1,
        wins_p1 + wins_p2 == n,
    ensures
        (wins_p1 >= MatchFormat::BestOf(n).spec_required_wins()) != (wins_p2
            >= MatchFormat::BestOf(n).spec_required_wins()),
{
}

} // verus!
