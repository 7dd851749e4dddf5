//! The choices of the match setup: game mode, difficulty, ruleset and
//! match format.

use vstd::prelude::*;
use crate::game::match_settings::MatchFormat;
use crate::game::rules::Ruleset;
use crate::players::ai_difficulty::AiDifficulty;
use crate::players::player::{Player, PlayerType, PlayerView};

verus! {

/// Against whom player one plays.
#[derive(Debug, Clone, Copy, PartialEq, Eq, Structural)]
pub enum GameMode {
    /// Against the computer.
    SinglePlayer,
    /// Against a second human at the same terminal.
    Multiplayer,
}

/// The kinds of match format on the setup menu.
#[derive(Debug, Clone, Copy, PartialEq, Eq, Structural)]
pub enum FormatKind {
    SingleRound,
    BestOf,
    FirstTo,
}

/// The game mode that `choice` selects: 1 single player, 2 multiplayer.
pub fn game_mode_for(choice: u32) -> (mode: Option<GameMode>)
    ensures
        mode == match choice {
            1 => Some(GameMode::SinglePlayer),
            2 => Some(GameMode::Multiplayer),
            _ => None,
        },
{
    match choice {
        1 => Some(GameMode::SinglePlayer),
        2 => Some(GameMode::Multiplayer),
        _ => None,
    }
}

/// The difficulty that `choice` selects: 1 easy, 2 normal, 3 hard.
pub fn difficulty_for(choice: u32) -> (difficulty: Option<AiDifficulty>)
    ensures
        difficulty == match choice {
            1 => Some(AiDifficulty::Easy),
            2 => Some(AiDifficulty::Normal),
            3 => Some(AiDifficulty::Hard),
            _ => None,
        },
{
    match choice {
        1 => Some(AiDifficulty::Easy),
        2 => Some(AiDifficulty::Normal),
        3 => Some(AiDifficulty::Hard),
        _ => None,
    }
}

/// The ruleset that `choice` selects: 1 classic, 2 extended.
pub fn ruleset_for(choice: u32) -> (ruleset: Option<Ruleset>)
    ensures
        ruleset == match choice {
            1 => Some(Ruleset::Classic),
            2 => Some(Ruleset::Extended),
            _ => None,
        },
{
    match choice {
        1 => Some(Ruleset::Classic),
        2 => Some(Ruleset::Extended),
        _ => None,
    }
}

/// The kind of format that `choice` selects: 1 a single round, 2 best
/// of N, 3 first to K.
pub fn format_kind_for(choice: u32) -> (kind: Option<FormatKind>)
    ensures
        kind == match choice {
            1 => Some(FormatKind::SingleRound),
            2 => Some(FormatKind::BestOf),
            3 => Some(FormatKind::FirstTo),
            _ => None,
        },
{
    match choice {
        1 => Some(FormatKind::SingleRound),
        2 => Some(FormatKind::BestOf),
        3 => Some(FormatKind::FirstTo),
        _ => None,
    }
}

/// A best-of-`n` format, which the setup accepts for odd `n` only.
pub fn best_of(n: u32) -> (format: Option<MatchFormat>)
    ensures
        format == if n % 2 == 1 {
            Some(MatchFormat::BestOf(n))
        } else {
            None
        },
{
    if n >= 1 && n % 2 == 1 {
        Some(MatchFormat::BestOf(n))
    } else {
        None
    }
}

/// A first-to-`k` format, which the setup accepts for `k` of at least 1.
pub fn first_to(k: u32) -> (format: Option<MatchFormat>)
    ensures
        format == if k >= 1 {
            Some(MatchFormat::FirstTo(k))
        } else {
            None
        },
{
    if k >= 1 {
        Some(MatchFormat::FirstTo(k))
    } else {
        None
    }
}

/// The computer opponent of a single player match.
pub fn computer_opponent(difficulty: AiDifficulty) -> (player: Player)
    ensures
        player@ == (PlayerView {
            name: "Computer"@,
            player_type: PlayerType::Computer(difficulty),
        }),
{
    Player::new_ai("Computer", difficulty)
}

/// Every format that the setup accepts asks for at least one win, and a
/// best-of format for more than half of its rounds.
pub proof fn lemma_setup_formats_ask_for_a_win(n: u32, k: u32)
    ensures
        MatchFormat::SingleRound.spec_required_wins() == 1,
        n % 2 == 1 ==> MatchFormat::BestOf(n).spec_required_wins() >= 1 && 2 * MatchFormat::BestOf(
            n,
        ).spec_required_wins() == n + 1,
        k >= 1 ==> MatchFormat::FirstTo(k).spec_required_wins() >= 1,
{
}

} // verus!
