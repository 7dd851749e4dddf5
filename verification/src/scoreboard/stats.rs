//! What the scoreboard remembers of one player.

use vstd::prelude::*;

verus! {

/// Lifetime statistics of one player.
#[derive(Debug, Clone, Copy, PartialEq, Eq, Structural)]
pub struct PlayerStats {
    pub matches_played: u32,
    pub matches_won: u32,
    pub rounds_won: u32,
}

/// How a match ended.
#[derive(Debug, Clone, Copy, PartialEq, Eq, Structural)]
pub enum MatchOutcome {
    Player1Win,
    Player2Win,
    Tie,
}

/// How one player's win rate stands against another's.
#[derive(Debug, Clone, Copy, PartialEq, Eq, Structural)]
pub enum RateOrder {
    Higher,
    Level,
    Lower,
}

impl PlayerStats {
    /// The statistics of a player who has not played yet.
    pub open spec fn zero() -> PlayerStats {
        PlayerStats { matches_played: 0, matches_won: 0, rounds_won: 0 }
    }

    /// Whether one more match with `rounds_won_in_match` round wins still
    /// fits into the counters.
    pub open spec fn can_register(self, rounds_won_in_match: u32, win: bool) -> bool {
        &&& self.matches_played < u32::MAX
        &&& self.rounds_won + rounds_won_in_match <= u32::MAX
        &&& win ==> self.matches_won < u32::MAX
    }

    /// The statistics after one more match: one more match played,
    /// `rounds_won_in_match` more rounds won, and one more match won if
    /// `win`.
    pub open spec fn registered(self, rounds_won_in_match: u32, win: bool) -> PlayerStats {
        PlayerStats {
            matches_played: (self.matches_played + 1) as u32,
            matches_won: if win {
                (self.matches_won + 1) as u32
            } else {
                self.matches_won
            },
            rounds_won: (self.rounds_won + rounds_won_in_match) as u32,
        }
    }

    /// Numerator of the win rate: the matches won, or 0 for a player
    /// without matches.
    pub open spec fn rate_numerator(self) -> nat {
        if self.matches_played > 0 {
            self.matches_won as nat
        } else {
            0
        }
    }

    /// Denominator of the win rate: the matches played, or 1 for a player
    /// without matches, whose rate is 0.
    pub open spec fn rate_denominator(self) -> nat {
        if self.matches_played > 0 {
            self.matches_played as nat
        } else {
            1
        }
    }

    /// The win rate of `self` is strictly above that of `other`. Rates
    /// are compared as fractions, exactly.
    pub open spec fn rate_above(self, other: PlayerStats) -> bool {
        self.rate_numerator() * other.rate_denominator() > other.rate_numerator()
            * self.rate_denominator()
    }

    /// The two win rates are the same fraction.
    pub open spec fn rate_level(self, other: PlayerStats) -> bool {
        self.rate_numerator() * other.rate_denominator() == other.rate_numerator()
            * self.rate_denominator()
    }

    /// Statistics of a player who has not played yet.
    pub fn new() -> (stats: PlayerStats)
        ensures
            stats == PlayerStats::zero(),
    {
        PlayerStats { matches_played: 0, matches_won: 0, rounds_won: 0 }
    }

    /// Whether one more match with `rounds_won_in_match` round wins still
    /// fits into the counters.
    pub fn has_room(&self, rounds_won_in_match: u32, win: bool) -> (fits: bool)
        ensures
            fits == self.can_register(rounds_won_in_match, win),
    {
        self.matches_played < u32::MAX && rounds_won_in_match <= u32::MAX - self.rounds_won && (!win
            || self.matches_won < u32::MAX)
    }

    /// Count one more match, the rounds won in it, and the win if it was
    /// one.
    pub fn register_match(&mut self, rounds_won_in_match: u32, win: bool)
        requires
            old(self).can_register(rounds_won_in_match, win),
        ensures
            *final(self) == old(self).registered(rounds_won_in_match, win),
            final(self).matches_played == old(self).matches_played + 1,
            final(self).rounds_won == old(self).rounds_won + rounds_won_in_match,
            final(self).matches_won == old(self).matches_won + if win {
                1int
            } else {
                0int
            },
    {
        self.matches_played += 1;
        self.rounds_won += rounds_won_in_match;
        if win {
            self.matches_won += 1;
        }
    }

    /// How the win rate of `self` stands against that of `other`.
    pub fn compare_rate(&self, other: &PlayerStats) -> (order: RateOrder)
        ensures
            order is Higher <==> self.rate_above(*other),
            order is Level <==> self.rate_level(*other),
            order is Lower <==> other.rate_above(*self),
    {
        let (own_num, own_den): (u64, u64) = if self.matches_played > 0 {
            (self.matches_won as u64, self.matches_played as u64)
        } else {
            (0, 1)
        };
        let (other_num, other_den): (u64, u64) = if other.matches_played > 0 {
            (other.matches_won as u64, other.matches_played as u64)
        } else {
            (0, 1)
        };
        proof {
            lemma_product_fits(own_num as nat, other_den as nat);
            lemma_product_fits(other_num as nat, own_den as nat);
        }
        let left = own_num * other_den;
        let right = other_num * own_den;
        if left > right {
            RateOrder::Higher
        } else if left == right {
            RateOrder::Level
        } else {
            RateOrder::Lower
        }
    }
}

/// The product of two 32-bit numbers fits into 64 bits.
proof fn lemma_product_fits(a: nat, b: nat)
    requires
        a <= u32::MAX,
        b <= u32::MAX,
    ensures
        a * b <= u64::MAX,
{
    assert(a * b <= 0xffff_ffff * 0xffff_ffff) by (nonlinear_arith)
        requires
            a <= 0xffff_ffff,
            b <= 0xffff_ffff,
    ;
}

/// Comparing fractions with positive denominators by cross-multiplication
/// is transitive, and strict as soon as one of the two steps is.
pub proof fn lemma_fractions_transitive(n1: nat, d1: nat, n2: nat, d2: nat, n3: nat, d3: nat)
    requires
        d1 > 0,
        d2 > 0,
        d3 > 0,
        n1 * d2 >= n2 * d1,
        n2 * d3 >= n3 * d2,
    ensures
        n1 * d3 >= n3 * d1,
        n1 * d2 > n2 * d1 || n2 * d3 > n3 * d2 ==> n1 * d3 > n3 * d1,
{
    assert((n1 * d2) * d3 >= (n2 * d1) * d3) by (nonlinear_arith)
        requires
            n1 * d2 >= n2 * d1,
    ;
    assert((n2 * d3) * d1 >= (n3 * d2) * d1) by (nonlinear_arith)
        requires
            n2 * d3 >= n3 * d2,
    ;
    assert((n2 * d1) * d3 == (n2 * d3) * d1) by (nonlinear_arith);
    assert((n1 * d2) * d3 == d2 * (n1 * d3)) by (nonlinear_arith);
    assert((n3 * d2) * d1 == d2 * (n3 * d1)) by (nonlinear_arith);
    assert(d2 * (n1 * d3) >= d2 * (n3 * d1));
    assert(n1 * d3 >= n3 * d1) by (nonlinear_arith)
        requires
            d2 > 0,
            d2 * (n1 * d3) >= d2 * (n3 * d1),
    ;
    if n1 * d2 > n2 * d1 {
        assert((n1 * d2) * d3 > (n2 * d1) * d3) by (nonlinear_arith)
            requires
                n1 * d2 > n2 * d1,
                d3 > 0,
        ;
        assert(n1 * d3 > n3 * d1) by (nonlinear_arith)
            requires
                d2 > 0,
                d2 * (n1 * d3) > d2 * (n3 * d1),
        ;
    }
    if n2 * d3 > n3 * d2 {
        assert((n2 * d3) * d1 > (n3 * d2) * d1) by (nonlinear_arith)
            requires
                n2 * d3 > n3 * d2,
                d1 > 0,
        ;
        assert(n1 * d3 > n3 * d1) by (nonlinear_arith)
            requires
                d2 > 0,
                d2 * (n1 * d3) > d2 * (n3 * d1),
        ;
    }
}

/// A win rate that is not below a second one, which is not below a third,
/// is not below the third; and it is strictly above it if either step is
/// strict.
pub proof fn lemma_rates_transitive(a: PlayerStats, b: PlayerStats, c: PlayerStats)
    requires
        a.rate_above(b) || a.rate_level(b),
        b.rate_above(c) || b.rate_level(c),
    ensures
        a.rate_above(c) || a.rate_level(c),
        a.rate_above(b) || b.rate_above(c) ==> a.rate_above(c),
        a.rate_level(b) && b.rate_level(c) ==> a.rate_level(c),
{
    lemma_fractions_transitive(
        a.rate_numerator(),
        a.rate_denominator(),
        b.rate_numerator(),
        b.rate_denominator(),
        c.rate_numerator(),
        c.rate_denominator(),
    );
    if a.rate_level(b) && b.rate_level(c) {
        lemma_fractions_transitive(
            c.rate_numerator(),
            c.rate_denominator(),
            b.rate_numerator(),
            b.rate_denominator(),
            a.rate_numerator(),
            a.rate_denominator(),
        );
    }
}

} // verus!
