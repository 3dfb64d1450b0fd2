//! Plain data carried for a civilization. The full game-data catalogue
//! (units, buildings, techs, and their JSON loading) lives with the
//! application around the library; this type holds the fields as plain
//! strings.

use vstd::prelude::*;

verus! {

/// One civilization's description from the game data.
pub struct Civ {
    pub name: String,
    pub game_version: String,
    pub strength: String,
    pub unique_unit: String,
    pub unique_tech: String,
    pub team_bonus: String,
    pub boni: String,
}

} // verus!
