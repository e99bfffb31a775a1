//! What a player can ask of the game.

use vstd::prelude::*;
use crate::game::map::TilePos;

verus! {

/// A move of the player.
#[derive(Debug)]
pub enum GameMove {
    /// Build the content that has the id on the tile at the position.
    Build(TilePos, String),
    /// Let one turn pass.
    Wait,
    /// Send the hero with the index on an expedition to the quest at the position.
    StartHistory(TilePos, usize),
    /// Let the hero on expedition step onto the tile at the position and
    /// perform the action that has the id there; the empty id is a pass.
    PlayMove(TilePos, String),
    /// Not played by this game.
    MakeDecision(String),
    /// Not played by this game.
    RenameHero(usize, String),
}

/// A content that the rules allow on a tile.
#[derive(Debug)]
pub struct PossibleBuilding {
    pub id: String,
    /// Whether the ledger cannot pay for the content at present.
    pub not_enought_resources: bool,
}

} // verus!
