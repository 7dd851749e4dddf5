//! The scoreboard: lifetime statistics of every player, kept by name.
//!
//! A board is a finite map from names to statistics. It is stored as two
//! vectors of equal length, names and statistics side by side, in which no
//! name occurs twice.

use vstd::prelude::*;
use crate::scoreboard::stats::{lemma_rates_transitive, MatchOutcome, PlayerStats, RateOrder};
use crate::utils::text::{
    compare_text,
    lemma_text_before_transitive,
    lemma_text_order_total,
    same_text,
    text_before,
    TextOrder,
};

verus! {

/// One line of a board: a name and the statistics kept under it.
pub type Line = (Seq<char>, PlayerStats);

/// The map that a list of lines describes: each line sets the statistics
/// of its name, a later line replacing an earlier one of the same name.
pub open spec fn board_of(lines: Seq<Line>) -> Map<Seq<char>, PlayerStats>
    decreases lines.len(),
{
    if lines.len() == 0 {
        Map::empty()
    } else {
        board_of(lines.drop_last()).insert(lines.last().0, lines.last().1)
    }
}

/// No name occurs in two lines.
pub open spec fn distinct_names(lines: Seq<Line>) -> bool {
    forall|i: int, j: int|
        0 <= i < j < lines.len() ==> (#[trigger] lines[i]).0 != (#[trigger] lines[j]).0
}

/// The statistics kept under `name`, or those of a new player if the
/// board does not know the name.
pub open spec fn stats_or_new(board: Map<Seq<char>, PlayerStats>, name: Seq<char>) -> PlayerStats {
    if board.contains_key(name) {
        board[name]
    } else {
        PlayerStats::zero()
    }
}

/// The board after a match between `name_p1` and `name_p2`: both players
/// have one more match, the rounds they won in it, and the winner one
/// more win. Both updates start from the statistics before the match; if
/// the two names are the same, the second player's update is the one
/// that stays.
pub open spec fn board_after_match(
    board: Map<Seq<char>, PlayerStats>,
    name_p1: Seq<char>,
    name_p2: Seq<char>,
    rounds_won_p1: u32,
    rounds_won_p2: u32,
    outcome: MatchOutcome,
) -> Map<Seq<char>, PlayerStats> {
    board.insert(
        name_p1,
        stats_or_new(board, name_p1).registered(rounds_won_p1, outcome is Player1Win),
    ).insert(
        name_p2,
        stats_or_new(board, name_p2).registered(rounds_won_p2, outcome is Player2Win),
    )
}

/// What a list of lines without repeated names says of its board: the
/// board knows exactly the names of the lines, each with the statistics
/// of its line, and has as many names as there are lines.
pub proof fn lemma_board_of_distinct(lines: Seq<Line>)
    requires
        distinct_names(lines),
    ensures
        forall|i: int|
            0 <= i < lines.len() ==> board_of(lines).contains_key((#[trigger] lines[i]).0)
                && board_of(lines)[lines[i].0] == lines[i].1,
        forall|name: Seq<char>| #[trigger]
            board_of(lines).contains_key(name) ==> exists|i: int|
                0 <= i < lines.len() && (#[trigger] lines[i]).0 == name,
        board_of(lines).dom().finite(),
        board_of(lines).dom().len() == lines.len(),
    decreases lines.len(),
{
    if lines.len() > 0 {
        let front = lines.drop_last();
        let last = lines.last();
        assert forall|i: int, j: int| 0 <= i < j < front.len() implies (#[trigger] front[i]).0 != (
        #[trigger] front[j]).0 by {
            assert(front[i] == lines[i]);
            assert(front[j] == lines[j]);
        }
        lemma_board_of_distinct(front);
        assert forall|i: int| 0 <= i < lines.len() implies board_of(lines).contains_key(
            (#[trigger] lines[i]).0,
        ) && board_of(lines)[lines[i].0] == lines[i].1 by {
            if i < front.len() {
                assert(front[i] == lines[i]);
                assert(lines[i].0 != lines[lines.len() - 1].0);
            }
        }
        assert forall|name: Seq<char>| #[trigger]
            board_of(lines).contains_key(name) implies exists|i: int|
            0 <= i < lines.len() && (#[trigger] lines[i]).0 == name by {
            if name == last.0 {
                assert(lines[lines.len() - 1].0 == name);
            } else {
                assert(board_of(front).contains_key(name));
                let i = choose|i: int| 0 <= i < front.len() && (#[trigger] front[i]).0 == name;
                assert(lines[i] == front[i]);
            }
        }
        if board_of(front).contains_key(last.0) {
            let i = choose|i: int| 0 <= i < front.len() && (#[trigger] front[i]).0 == last.0;
            assert(lines[i] == front[i]);
            assert(lines[i].0 != lines[lines.len() - 1].0);
        }
        assert(board_of(lines).dom() =~= board_of(front).dom().insert(last.0));
    }
}

/// By what a listing of the board is ordered.
#[derive(Debug, Clone, Copy, PartialEq, Eq, Structural)]
pub enum SortKey {
    /// Matches won, most first.
    Wins,
    /// Share of matches won among matches played, highest first.
    WinRate,
}

/// Line `a` stands before line `b` in a listing ordered by `key`: it has
/// the greater key, or the same key and the name that comes first.
pub open spec fn ranks_before(key: SortKey, a: Line, b: Line) -> bool {
    match key {
        SortKey::Wins => a.1.matches_won > b.1.matches_won || (a.1.matches_won == b.1.matches_won
            && text_before(a.0, b.0)),
        SortKey::WinRate => a.1.rate_above(b.1) || (a.1.rate_level(b.1) && text_before(a.0, b.0)),
    }
}

/// `listing` is the board in the order of `key`: every line of the listing
/// is an entry of the board, every name of the board is listed, and each
/// line ranks before all lines after it, so no name is listed twice.
pub open spec fn is_ranking(key: SortKey, listing: Seq<Line>, board: Map<Seq<char>, PlayerStats>) -> bool {
    &&& forall|i: int|
        0 <= i < listing.len() ==> board.contains_key((#[trigger] listing[i]).0)
            && board[listing[i].0] == listing[i].1
    &&& forall|name: Seq<char>| #[trigger]
        board.contains_key(name) ==> exists|i: int|
            0 <= i < listing.len() && (#[trigger] listing[i]).0 == name
    &&& forall|i: int, j: int|
        0 <= i < j < listing.len() ==> ranks_before(key, #[trigger] listing[i], #[trigger] listing[j])
}

/// A borrowed line of the board as a plain value.
pub open spec fn line_of(entry: (&str, &PlayerStats)) -> Line {
    (entry.0@, *entry.1)
}

/// A borrowed listing of the board as plain values.
pub open spec fn lines_of(listing: Seq<(&str, &PlayerStats)>) -> Seq<Line> {
    Seq::new(listing.len(), |i: int| line_of(listing[i]))
}

/// An owned listing of the board as plain values.
pub open spec fn owned_lines(listing: Seq<(String, PlayerStats)>) -> Seq<Line> {
    Seq::new(listing.len(), |i: int| (listing[i].0@, listing[i].1))
}

/// The board that stored lines are loaded into: the board they describe,
/// or an empty board where nothing could be read.
pub open spec fn loaded_board(stored: Option<Seq<Line>>) -> Map<Seq<char>, PlayerStats> {
    match stored {
        Some(lines) => board_of(lines),
        None => Map::empty(),
    }
}

/// Of two lines with different names exactly one ranks before the other.
pub proof fn lemma_ranks_total(key: SortKey, a: Line, b: Line)
    requires
        a.0 != b.0,
    ensures
        ranks_before(key, a, b) != ranks_before(key, b, a),
{
    lemma_text_order_total(a.0, b.0);
    lemma_text_order_total(b.0, a.0);
}

/// No line ranks before itself.
pub proof fn lemma_ranks_irreflexive(key: SortKey, a: Line)
    ensures
        !ranks_before(key, a, a),
{
    lemma_text_order_total(a.0, a.0);
}

/// Ranking is transitive.
pub proof fn lemma_ranks_transitive(key: SortKey, a: Line, b: Line, c: Line)
    requires
        ranks_before(key, a, b),
        ranks_before(key, b, c),
    ensures
        ranks_before(key, a, c),
{
    match key {
        SortKey::Wins => {
            if a.1.matches_won == b.1.matches_won && b.1.matches_won == c.1.matches_won {
                lemma_text_before_transitive(a.0, b.0, c.0);
            }
        },
        SortKey::WinRate => {
            lemma_rates_transitive(a.1, b.1, c.1);
            if a.1.rate_level(b.1) && b.1.rate_level(c.1) {
                lemma_text_before_transitive(a.0, b.0, c.0);
            }
        },
    }
}

/// A board has one ranking by each key: two listings that both rank the
/// same board are the same listing.
pub proof fn lemma_ranking_unique(
    key: SortKey,
    first: Seq<Line>,
    second: Seq<Line>,
    board: Map<Seq<char>, PlayerStats>,
)
    requires
        is_ranking(key, first, board),
        is_ranking(key, second, board),
    ensures
        first == second,
    decreases first.len(),
{
    if first.len() == 0 {
        if second.len() > 0 {
            assert(board.contains_key(second[0].0));
        }
        assert(first =~= second);
    } else if second.len() == 0 {
        assert(board.contains_key(first[0].0));
    } else {
        // The last line of either listing ranks after every other line of
        // the board, so the two last lines are the same.
        let a = first.last();
        let b = second.last();
        assert(board.contains_key(a.0));
        assert(board.contains_key(b.0));
        let ia = choose|i: int| 0 <= i < second.len() && (#[trigger] second[i]).0 == a.0;
        let ib = choose|i: int| 0 <= i < first.len() && (#[trigger] first[i]).0 == b.0;
        assert(second[ia] == a);
        assert(first[ib] == b);
        if a != b {
            assert(ia < second.len() - 1);
            assert(ib < first.len() - 1);
            assert(ranks_before(key, second[ia], second[second.len() - 1]));
            assert(ranks_before(key, first[ib], first[first.len() - 1]));
            lemma_ranks_transitive(key, a, b, a);
            lemma_ranks_irreflexive(key, a);
        }
        let rest = board.remove(a.0);
        let f = first.drop_last();
        let g = second.drop_last();
        assert forall|i: int| 0 <= i < f.len() implies (#[trigger] f[i]).0 != a.0 by {
            assert(ranks_before(key, first[i], first[first.len() - 1]));
            lemma_ranks_irreflexive(key, a);
            if f[i].0 == a.0 {
                assert(first[i] == a);
            }
        }
        assert forall|i: int| 0 <= i < g.len() implies (#[trigger] g[i]).0 != a.0 by {
            assert(ranks_before(key, second[i], second[second.len() - 1]));
            lemma_ranks_irreflexive(key, a);
            if g[i].0 == a.0 {
                assert(second[i] == a);
            }
        }
        assert(is_ranking(key, f, rest)) by {
            assert forall|name: Seq<char>| #[trigger] rest.contains_key(name) implies exists|i: int|
                0 <= i < f.len() && (#[trigger] f[i]).0 == name by {
                assert(board.contains_key(name));
                let i = choose|i: int| 0 <= i < first.len() && (#[trigger] first[i]).0 == name;
                assert(f[i] == first[i]);
            }
            assert forall|i: int| 0 <= i < f.len() implies rest.contains_key((#[trigger] f[i]).0)
                && rest[f[i].0] == f[i].1 by {
                assert(f[i] == first[i]);
            }
            assert forall|i: int, j: int| 0 <= i < j < f.len() implies ranks_before(
                key,
                #[trigger] f[i],
                #[trigger] f[j],
            ) by {
                assert(f[i] == first[i]);
                assert(f[j] == first[j]);
            }
        }
        assert(is_ranking(key, g, rest)) by {
            assert forall|name: Seq<char>| #[trigger] rest.contains_key(name) implies exists|i: int|
                0 <= i < g.len() && (#[trigger] g[i]).0 == name by {
                assert(board.contains_key(name));
                let i = choose|i: int| 0 <= i < second.len() && (#[trigger] second[i]).0 == name;
                assert(g[i] == second[i]);
            }
            assert forall|i: int| 0 <= i < g.len() implies rest.contains_key((#[trigger] g[i]).0)
                && rest[g[i].0] == g[i].1 by {
                assert(g[i] == second[i]);
            }
            assert forall|i: int, j: int| 0 <= i < j < g.len() implies ranks_before(
                key,
                #[trigger] g[i],
                #[trigger] g[j],
            ) by {
                assert(g[i] == second[i]);
                assert(g[j] == second[j]);
            }
        }
        lemma_ranking_unique(key, f, g, rest);
        assert(first =~= f.push(a));
        assert(second =~= g.push(b));
    }
}

/// Storing a board as lines and loading those lines gives the board back.
pub proof fn lemma_store_then_load(board: Map<Seq<char>, PlayerStats>, stored: Seq<Line>)
    requires
        board_of(stored) == board,
    ensures
        loaded_board(Some(stored)) == board,
{
}

/// Whether the line (`name_a`, `stats_a`) ranks before (`name_b`,
/// `stats_b`) by `key`.
pub fn ranks_ahead(
    key: SortKey,
    name_a: &str,
    stats_a: &PlayerStats,
    name_b: &str,
    stats_b: &PlayerStats,
) -> (ahead: bool)
    ensures
        ahead == ranks_before(key, (name_a@, *stats_a), (name_b@, *stats_b)),
{
    match key {
        SortKey::Wins => {
            if stats_a.matches_won > stats_b.matches_won {
                true
            } else if stats_a.matches_won == stats_b.matches_won {
                matches!(compare_text(name_a, name_b), TextOrder::Before)
            } else {
                false
            }
        },
        SortKey::WinRate => {
            match stats_a.compare_rate(stats_b) {
                RateOrder::Higher => true,
                RateOrder::Level => matches!(compare_text(name_a, name_b), TextOrder::Before),
                RateOrder::Lower => false,
            }
        },
    }
}

/// Lifetime statistics of all players, by name.
#[derive(Debug, Clone)]
pub struct Scoreboard {
    names: Vec<String>,
    stats: Vec<PlayerStats>,
}

impl View for Scoreboard {
    type V = Map<Seq<char>, PlayerStats>;

    /// The board as a map from names to statistics.
    closed spec fn view(&self) -> Map<Seq<char>, PlayerStats> {
        board_of(self.lines())
    }
}

impl Scoreboard {
    /// The lines of the board in the order in which the names were first
    /// entered.
    pub closed spec fn lines(self) -> Seq<Line> {
        Seq::new(self.names@.len(), |i: int| (self.names@[i]@, self.stats@[i]))
    }

    /// The two vectors are equally long and no name occurs twice. Every
    /// board that this module hands out is well-formed.
    pub closed spec fn wf(self) -> bool {
        &&& self.names@.len() == self.stats@.len()
        &&& forall|i: int, j: int|
            0 <= i < j < self.names@.len() ==> (#[trigger] self.names@[i])@ != (
            #[trigger] self.names@[j])@
    }

    /// The lines of a board never repeat a name, and they describe the
    /// board.
    proof fn lemma_lines(self)
        requires
            self.wf(),
        ensures
            distinct_names(self.lines()),
            self@ == board_of(self.lines()),
            self@.dom().finite(),
            self@.dom().len() == self.lines().len(),
    {
        let lines = self.lines();
        assert forall|i: int, j: int| 0 <= i < j < lines.len() implies (#[trigger] lines[i]).0 != (
        #[trigger] lines[j]).0 by {
            assert(self.names@[i]@ != self.names@[j]@);
        }
        lemma_board_of_distinct(lines);
    }

    /// An empty scoreboard.
    pub fn new() -> (board: Scoreboard)
        ensures
            board.wf(),
            board@ == Map::<Seq<char>, PlayerStats>::empty(),
    {
        let board = Scoreboard { names: Vec::new(), stats: Vec::new() };
        assert(board.lines() =~= Seq::<Line>::empty());
        board
    }

    /// The number of players on the board.
    pub fn len(&self) -> (count: usize)
        requires
            self.wf(),
        ensures
            count == self@.dom().len(),
            self@.dom().finite(),
    {
        proof {
            self.lemma_lines();
        }
        self.names.len()
    }

    /// Where `name` stands in the vectors, if the board knows it.
    fn position(&self, name: &str) -> (found: Option<usize>)
        requires
            self.wf(),
        ensures
            match found {
                Some(i) => i < self.names@.len() && self.names@[i as int]@ == name@,
                None => forall|i: int| 0 <= i < self.names@.len() ==> self.names@[i]@ != name@,
            },
            self@.contains_key(name@) <==> found is Some,
            found matches Some(i) ==> self@[name@] == self.stats@[i as int],
    {
        proof {
            self.lemma_lines();
            lemma_board_of_distinct(self.lines());
        }
        let mut i: usize = 0;
        while i < self.names.len()
            invariant
                self.wf(),
                i <= self.names@.len(),
                forall|k: int| 0 <= k < i ==> self.names@[k]@ != name@,
            decreases self.names@.len() - i,
        {
            if same_text(self.names[i].as_str(), name) {
                proof {
                    self.lemma_lines();
                    lemma_board_of_distinct(self.lines());
                    assert(self.lines()[i as int].0 == name@);
                }
                return Some(i);
            }
            i = i + 1;
        }
        proof {
            if self@.contains_key(name@) {
                let k = choose|k: int|
                    0 <= k < self.lines().len() && (#[trigger] self.lines()[k]).0 == name@;
                assert(self.names@[k]@ == name@);
            }
        }
        None
    }

    /// The statistics kept under `name`, if the board knows the name.
    pub fn stats_of(&self, name: &str) -> (found: Option<PlayerStats>)
        requires
            self.wf(),
        ensures
            found == if self@.contains_key(name@) {
                Some(self@[name@])
            } else {
                None
            },
    {
        match self.position(name) {
            Some(i) => Some(self.stats[i]),
            None => None,
        }
    }

    /// Enter `name` with the statistics of a new player, unless the board
    /// knows the name already.
    pub fn ensure_player(&mut self, name: &str)
        requires
            old(self).wf(),
        ensures
            final(self).wf(),
            final(self)@ == if old(self)@.contains_key(name@) {
                old(self)@
            } else {
                old(self)@.insert(name@, PlayerStats::zero())
            },
    {
        if self.position(name).is_none() {
            let ghost before = self.lines();
            self.names.push(name.to_owned());
            self.stats.push(PlayerStats::new());
            proof {
                assert(self.lines().drop_last() =~= before);
                assert(self.lines().last() == (name@, PlayerStats::zero()));
            }
        }
    }

    /// Replace the statistics kept under the name at position `i`.
    fn set_stats(&mut self, i: usize, stats: PlayerStats)
        requires
            old(self).wf(),
            i < old(self).names@.len(),
        ensures
            final(self).wf(),
            final(self)@ == old(self)@.insert(old(self).names@[i as int]@, stats),
            final(self).names@ == old(self).names@,
    {
        proof {
            self.lemma_lines();
            lemma_board_of_distinct(self.lines());
        }
        let ghost before = self.lines();
        self.stats.set(i, stats);
        proof {
            let after = self.lines();
            assert forall|a: int, b: int| 0 <= a < b < after.len() implies (#[trigger] after[a]).0
                != (#[trigger] after[b]).0 by {
                assert(before[a].0 != before[b].0);
            }
            lemma_board_of_distinct(after);
            let name = before[i as int].0;
            let expected = board_of(before).insert(name, stats);
            assert forall|n: Seq<char>| board_of(after).contains_key(n) <==> expected.contains_key(
                n,
            ) by {
                if board_of(after).contains_key(n) {
                    let k = choose|k: int| 0 <= k < after.len() && (#[trigger] after[k]).0 == n;
                    assert(before[k].0 == n);
                }
                if board_of(before).contains_key(n) {
                    let k = choose|k: int| 0 <= k < before.len() && (#[trigger] before[k]).0 == n;
                    assert(after[k].0 == n);
                }
                if n == name {
                    assert(after[i as int].0 == n);
                }
            }
            assert forall|n: Seq<char>| board_of(after).contains_key(n) implies board_of(after)[n]
                == expected[n] by {
                let k = choose|k: int| 0 <= k < after.len() && (#[trigger] after[k]).0 == n;
                assert(before[k].0 == n);
                if k != i {
                    // Names are distinct, so another line has another name.
                    assert(after[k].1 == before[k].1);
                    assert(before[k].0 != before[i as int].0);
                }
            }
            assert(board_of(after) =~= expected);
        }
    }

    /// Keep `stats` under `name`, whether or not the board knows the name.
    fn put(&mut self, name: &str, stats: PlayerStats)
        requires
            old(self).wf(),
        ensures
            final(self).wf(),
            final(self)@ == old(self)@.insert(name@, stats),
    {
        self.ensure_player(name);
        let at = self.position(name).unwrap();
        self.set_stats(at, stats);
        assert(self@ =~= old(self)@.insert(name@, stats));
    }

    /// Record a finished match between `player1_name` and `player2_name`:
    /// enter unknown names, then give each player one more match, the
    /// rounds won in it, and the winner one more win.
    pub fn update_after_match(
        &mut self,
        player1_name: &str,
        player2_name: &str,
        rounds_won_p1: u32,
        rounds_won_p2: u32,
        outcome: MatchOutcome,
    )
        requires
            old(self).wf(),
            stats_or_new(old(self)@, player1_name@).can_register(
                rounds_won_p1,
                outcome is Player1Win,
            ),
            stats_or_new(old(self)@, player2_name@).can_register(
                rounds_won_p2,
                outcome is Player2Win,
            ),
        ensures
            final(self).wf(),
            final(self)@ == board_after_match(
                old(self)@,
                player1_name@,
                player2_name@,
                rounds_won_p1,
                rounds_won_p2,
                outcome,
            ),
    {
        self.ensure_player(player1_name);
        self.ensure_player(player2_name);
        let ghost entered = self@;

        let at_p1 = self.position(player1_name).unwrap();
        let at_p2 = self.position(player2_name).unwrap();
        let mut stats1 = self.stats[at_p1];
        let mut stats2 = self.stats[at_p2];

        match outcome {
            MatchOutcome::Player1Win => {
                stats1.register_match(rounds_won_p1, true);
                stats2.register_match(rounds_won_p2, false);
            },
            MatchOutcome::Player2Win => {
                stats1.register_match(rounds_won_p1, false);
                stats2.register_match(rounds_won_p2, true);
            },
            MatchOutcome::Tie => {
                stats1.register_match(rounds_won_p1, false);
                stats2.register_match(rounds_won_p2, false);
            },
        }

        self.set_stats(at_p1, stats1);
        self.set_stats(at_p2, stats2);
        proof {
            assert(self@ =~= board_after_match(
                old(self)@,
                player1_name@,
                player2_name@,
                rounds_won_p1,
                rounds_won_p2,
                outcome,
            ));
        }
    }

    /// The board as a list of owned lines, one for each player, in no
    /// particular order.
    pub fn entries(&self) -> (listing: Vec<(String, PlayerStats)>)
        requires
            self.wf(),
        ensures
            distinct_names(owned_lines(listing@)),
            board_of(owned_lines(listing@)) == self@,
            listing@.len() == self@.dom().len(),
    {
        proof {
            self.lemma_lines();
        }
        let mut listing: Vec<(String, PlayerStats)> = Vec::new();
        let mut i: usize = 0;
        while i < self.names.len()
            invariant
                self.wf(),
                i <= self.names@.len(),
                listing@.len() == i,
                owned_lines(listing@) == self.lines().take(i as int),
            decreases self.names@.len() - i,
        {
            let name = self.names[i].clone();
            let stats = self.stats[i];
            let ghost before = listing@;
            listing.push((name, stats));
            proof {
                let copied = owned_lines(listing@);
                let wanted = self.lines().take(i + 1);
                assert forall|k: int| 0 <= k < i + 1 implies copied[k] == wanted[k] by {
                    if k < i {
                        assert(listing@[k] == before[k]);
                        assert(owned_lines(before)[k] == self.lines().take(i as int)[k]);
                    }
                }
                assert(copied =~= wanted);
            }
            i = i + 1;
        }
        assert(self.lines().take(i as int) =~= self.lines());
        listing
    }

    /// The board that `entries` describe: each entry sets the statistics
    /// of its name, a later entry replacing an earlier one of the same
    /// name.
    pub fn from_entries(entries: Vec<(String, PlayerStats)>) -> (board: Scoreboard)
        ensures
            board.wf(),
            board@ == board_of(owned_lines(entries@)),
    {
        let mut board = Scoreboard::new();
        let mut i: usize = 0;
        assert(owned_lines(entries@).take(0) =~= Seq::<Line>::empty());
        while i < entries.len()
            invariant
                board.wf(),
                i <= entries@.len(),
                board@ == board_of(owned_lines(entries@).take(i as int)),
            decreases entries@.len() - i,
        {
            let name = entries[i].0.as_str();
            let stats = entries[i].1;
            proof {
                let upto = owned_lines(entries@).take(i + 1);
                assert(upto.drop_last() =~= owned_lines(entries@).take(i as int));
                assert(upto.last() == (name@, stats));
            }
            board.put(name, stats);
            i = i + 1;
        }
        assert(owned_lines(entries@).take(i as int) =~= owned_lines(entries@));
        board
    }

    /// The board to start from, given what was stored of an earlier one:
    /// the stored entries, or an empty board where nothing could be read.
    pub fn load(stored: Option<Vec<(String, PlayerStats)>>) -> (board: Scoreboard)
        ensures
            board.wf(),
            board@ == loaded_board(
                match stored {
                    Some(entries) => Some(owned_lines(entries@)),
                    None => None,
                },
            ),
    {
        match stored {
            Some(entries) => Scoreboard::from_entries(entries),
            None => Scoreboard::new(),
        }
    }

    /// The players of the board in the order of `key`, the best first;
    /// players with the same key are listed by name.
    pub fn sorted_by(&self, key: SortKey) -> (listing: Vec<(&str, &PlayerStats)>)
        requires
            self.wf(),
        ensures
            is_ranking(key, lines_of(listing@), self@),
            listing@.len() == self@.dom().len(),
    {
        proof {
            self.lemma_lines();
            lemma_board_of_distinct(self.lines());
        }
        let ghost lines = self.lines();
        let mut listing: Vec<(&str, &PlayerStats)> = Vec::new();
        // Where each listed line comes from, and where each line went.
        let ghost mut origin: Seq<int> = Seq::empty();
        let ghost mut place: Seq<int> = Seq::empty();
        let mut i: usize = 0;
        while i < self.names.len()
            invariant
                self.wf(),
                lines == self.lines(),
                distinct_names(lines),
                i <= self.names@.len(),
                listing@.len() == i,
                origin.len() == i,
                place.len() == i,
                forall|k: int|
                    0 <= k < i ==> 0 <= #[trigger] origin[k] < i && line_of(listing@[k])
                        == lines[origin[k]],
                forall|m: int|
                    0 <= m < i ==> 0 <= #[trigger] place[m] < i && origin[place[m]] == m,
                forall|a: int, b: int|
                    0 <= a < b < i ==> ranks_before(
                        key,
                        #[trigger] line_of(listing@[a]),
                        #[trigger] line_of(listing@[b]),
                    ),
            decreases self.names@.len() - i,
        {
            let name: &str = self.names[i].as_str();
            let stats: &PlayerStats = &self.stats[i];
            let ghost line: Line = (name@, *stats);
            assert(line == lines[i as int]);
            let mut at: usize = 0;
            while at < listing.len() && !ranks_ahead(
                key,
                name,
                stats,
                listing[at].0,
                listing[at].1,
            )
                invariant
                    at <= listing@.len(),
                    line == (name@, *stats),
                    forall|q: int|
                        0 <= q < at ==> !ranks_before(key, line, #[trigger] line_of(listing@[q])),
                decreases listing@.len() - at,
            {
                at = at + 1;
            }
            let ghost before = listing@;
            listing.insert(at, (name, stats));
            proof {
                let after = listing@;
                let old_origin = origin;
                let old_place = place;
                origin = old_origin.insert(at as int, i as int);
                place = Seq::new(
                    (i + 1) as nat,
                    |m: int|
                        if m == i {
                            at as int
                        } else if old_place[m] >= at {
                            old_place[m] + 1
                        } else {
                            old_place[m]
                        },
                );
                assert forall|k: int| 0 <= k < i + 1 implies 0 <= #[trigger] origin[k] < i + 1
                    && line_of(after[k]) == lines[origin[k]] by {
                    if k < at {
                        assert(after[k] == before[k]);
                        assert(origin[k] == old_origin[k]);
                    } else if k > at {
                        assert(after[k] == before[k - 1]);
                        assert(origin[k] == old_origin[k - 1]);
                    }
                }
                assert forall|m: int| 0 <= m < i + 1 implies 0 <= #[trigger] place[m] < i + 1
                    && origin[place[m]] == m by {
                    if m < i {
                        if old_place[m] >= at {
                            assert(origin[old_place[m] + 1] == old_origin[old_place[m]]);
                        } else {
                            assert(origin[old_place[m]] == old_origin[old_place[m]]);
                        }
                    }
                }
                assert forall|a: int, b: int| 0 <= a < b < i + 1 implies ranks_before(
                    key,
                    #[trigger] line_of(after[a]),
                    #[trigger] line_of(after[b]),
                ) by {
                    let la = line_of(after[a]);
                    let lb = line_of(after[b]);
                    if b < at {
                        assert(after[a] == before[a] && after[b] == before[b]);
                    } else if b == at {
                        assert(after[a] == before[a]);
                        assert(!ranks_before(key, line, line_of(before[a])));
                        assert(line_of(before[a]) == lines[old_origin[a]]);
                        assert(lines[old_origin[a]].0 != lines[i as int].0);
                        lemma_ranks_total(key, la, line);
                    } else if a < at {
                        assert(after[a] == before[a] && after[b] == before[b - 1]);
                    } else if a == at {
                        assert(after[b] == before[b - 1]);
                        assert(ranks_before(key, line, line_of(before[at as int])));
                        if b - 1 > at {
                            assert(ranks_before(
                                key,
                                line_of(before[at as int]),
                                line_of(before[b - 1]),
                            ));
                            lemma_ranks_transitive(key, line, line_of(before[at as int]), lb);
                        }
                    } else {
                        assert(after[a] == before[a - 1] && after[b] == before[b - 1]);
                    }
                }
            }
            i = i + 1;
        }
        proof {
            let ranked = lines_of(listing@);
            assert forall|k: int| 0 <= k < ranked.len() implies self@.contains_key(
                (#[trigger] ranked[k]).0,
            ) && self@[ranked[k].0] == ranked[k].1 by {
                assert(ranked[k] == lines[origin[k]]);
            }
            assert forall|name: Seq<char>| #[trigger] self@.contains_key(name) implies exists|k: int|
                0 <= k < ranked.len() && (#[trigger] ranked[k]).0 == name by {
                let m = choose|m: int| 0 <= m < lines.len() && (#[trigger] lines[m]).0 == name;
                assert(ranked[place[m]] == lines[origin[place[m]]]);
            }
            assert forall|a: int, b: int| 0 <= a < b < ranked.len() implies ranks_before(
                key,
                #[trigger] ranked[a],
                #[trigger] ranked[b],
            ) by {
                assert(ranks_before(key, line_of(listing@[a]), line_of(listing@[b])));
            }
        }
        listing
    }

    /// Returns players sorted by matches won (descending).
    pub fn sorted_by_wins(&self) -> (listing: Vec<(&str, &PlayerStats)>)
        requires
            self.wf(),
        ensures
            is_ranking(SortKey::Wins, lines_of(listing@), self@),
            listing@.len() == self@.dom().len(),
            forall|i: int, j: int|
                0 <= i < j < listing@.len() ==> (#[trigger] listing@[i]).1.matches_won >= (
                #[trigger] listing@[j]).1.matches_won,
    {
        let listing = self.sorted_by(SortKey::Wins);
        proof {
            assert forall|i: int, j: int| 0 <= i < j < listing@.len() implies (
            #[trigger] listing@[i]).1.matches_won >= (#[trigger] listing@[j]).1.matches_won by {
                assert(ranks_before(SortKey::Wins, lines_of(listing@)[i], lines_of(listing@)[j]));
            }
        }
        listing
    }

    /// Returns players sorted by win rate (descending).
    pub fn sorted_by_win_rate(&self) -> (listing: Vec<(&str, &PlayerStats)>)
        requires
            self.wf(),
        ensures
            is_ranking(SortKey::WinRate, lines_of(listing@), self@),
            listing@.len() == self@.dom().len(),
            forall|i: int, j: int|
                0 <= i < j < listing@.len() ==> !(#[trigger] listing@[j]).1.rate_above(
                    *(#[trigger] listing@[i]).1,
                ),
    {
        let listing = self.sorted_by(SortKey::WinRate);
        proof {
            assert forall|i: int, j: int| 0 <= i < j < listing@.len() implies !(
            #[trigger] listing@[j]).1.rate_above(*(#[trigger] listing@[i]).1) by {
                assert(ranks_before(
                    SortKey::WinRate,
                    lines_of(listing@)[i],
                    lines_of(listing@)[j],
                ));
            }
        }
        listing
    }
}

} // verus!
