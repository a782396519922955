//! The games whose textures can be handled.

use vstd::prelude::*;

verus! {

/// A supported game.
#[derive(Debug, Clone, Copy, PartialEq, Eq, Structural)]
pub enum Game {
    SkyrimSE,
    Fallout4,
}

impl Game {
    /// The name to show for the game.
    pub fn display_name(&self) -> (r: &'static str)
        ensures
            r@ == match self {
                Game::SkyrimSE => "Skyrim SE"@,
                Game::Fallout4 => "Fallout 4"@,
            },
    {
        match self {
            Game::SkyrimSE => "Skyrim SE",
            Game::Fallout4 => "Fallout 4",
        }
    }

    /// The name of the game's rule file of exclusions.
    pub fn exclusions_file(&self) -> (r: &'static str)
        ensures
            r@ == match self {
                Game::SkyrimSE => "SkyrimSE_Exclusions.txt"@,
                Game::Fallout4 => "Fallout4_Exclusions.txt"@,
            },
    {
        match self {
            Game::SkyrimSE => "SkyrimSE_Exclusions.txt",
            Game::Fallout4 => "Fallout4_Exclusions.txt",
        }
    }

    /// The file extension of the game's archives.
    pub fn archive_extension(&self) -> (r: &'static str)
        ensures
            r@ == match self {
                Game::SkyrimSE => "bsa"@,
                Game::Fallout4 => "ba2"@,
            },
    {
        match self {
            Game::SkyrimSE => "bsa",
            Game::Fallout4 => "ba2",
        }
    }

    /// The other game.
    pub fn toggle(&self) -> (r: Self)
        ensures
            r == match self {
                Game::SkyrimSE => Game::Fallout4,
                Game::Fallout4 => Game::SkyrimSE,
            },
            r != *self,
    {
        match self {
            Game::SkyrimSE => Game::Fallout4,
            Game::Fallout4 => Game::SkyrimSE,
        }
    }
}

impl Default for Game {
    fn default() -> (r: Self)
        ensures
            r == Game::SkyrimSE,
    {
        Game::SkyrimSE
    }
}

/// Toggling twice gives the game back.
pub proof fn lemma_toggle_twice(game: Game)
    ensures
        (match (match game {
            Game::SkyrimSE => Game::Fallout4,
            Game::Fallout4 => Game::SkyrimSE,
        }) {
            Game::SkyrimSE => Game::Fallout4,
            Game::Fallout4 => Game::SkyrimSE,
        }) == game,
{
}

} // verus!
