//! The choices of the main menu and of the scoreboard's sort menu.

use vstd::prelude::*;
use crate::scoreboard::scoreboard::SortKey;

verus! {

/// What the main menu offers.
#[derive(Debug, Clone, Copy, PartialEq, Eq, Structural)]
pub enum MainMenuChoice {
    NewGame,
    ContinueSaved,
    ViewScoreboard,
    Exit,
}

/// The entry of the main menu that `choice` selects: 1 a new game, 2 the
/// saved game, 3 the scoreboard, 4 the exit.
pub fn main_menu_choice_for(choice: u32) -> (entry: Option<MainMenuChoice>)
    ensures
        entry == match choice {
            1 => Some(MainMenuChoice::NewGame),
            2 => Some(MainMenuChoice::ContinueSaved),
            3 => Some(MainMenuChoice::ViewScoreboard),
            4 => Some(MainMenuChoice::Exit),
            _ => None,
        },
{
    match choice {
        1 => Some(MainMenuChoice::NewGame),
        2 => Some(MainMenuChoice::ContinueSaved),
        3 => Some(MainMenuChoice::ViewScoreboard),
        4 => Some(MainMenuChoice::Exit),
        _ => None,
    }
}

/// The order of the scoreboard that `choice` selects: 1 by matches won,
/// 2 by win rate.
pub fn sort_key_for(choice: u32) -> (key: Option<SortKey>)
    ensures
        key == match choice {
            1 => Some(SortKey::Wins),
            2 => Some(SortKey::WinRate),
            _ => None,
        },
{
    match choice {
        1 => Some(SortKey::Wins),
        2 => Some(SortKey::WinRate),
        _ => None,
    }
}

} // verus!
