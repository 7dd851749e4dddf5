//! Players: a display name and who is behind it.

use vstd::prelude::*;
use crate::players::ai_difficulty::AiDifficulty;

verus! {

/// Who makes a player's moves.
#[derive(Debug, Clone, Copy, PartialEq, Eq, Structural)]
pub enum PlayerType {
    Human,
    Computer(AiDifficulty),
}

/// A participant of a match. The name is also the player's key on the
/// scoreboard.
#[derive(Debug, Clone)]
pub struct Player {
    pub name: String,
    pub player_type: PlayerType,
}

/// What a player is, with the name as a sequence of characters.
pub struct PlayerView {
    pub name: Seq<char>,
    pub player_type: PlayerType,
}

impl View for Player {
    type V = PlayerView;

    open spec fn view(&self) -> PlayerView {
        PlayerView { name: self.name@, player_type: self.player_type }
    }
}

impl Player {
    /// A human player called `name`.
    pub fn new_human(name: &str) -> (player: Player)
        ensures
            player@ == (PlayerView { name: name@, player_type: PlayerType::Human }),
    {
        Player { name: name.to_owned(), player_type: PlayerType::Human }
    }

    /// A computer player called `name` that plays at `difficulty`.
    pub fn new_ai(name: &str, difficulty: AiDifficulty) -> (player: Player)
        ensures
            player@ == (PlayerView {
                name: name@,
                player_type: PlayerType::Computer(difficulty),
            }),
    {
        Player { name: name.to_owned(), player_type: PlayerType::Computer(difficulty) }
    }
}

} // verus!
