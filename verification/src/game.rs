//! A finished game as the observer side describes it: the input from which
//! a replay is built.

use vstd::prelude::*;

verus! {

/// Whether a slot is in use.
#[derive(Clone, Copy, Debug, PartialEq, Eq, Structural)]
pub enum SlotStatus {
    Open,
    Closed,
    Occupied,
}

/// The race picked for a slot.
#[derive(Clone, Copy, Debug, PartialEq, Eq, Structural)]
pub enum Race {
    Human,
    Orc,
    NightElf,
    Undead,
    Random,
}

/// The strength of a computer player.
#[derive(Clone, Copy, Debug, PartialEq, Eq, Structural)]
pub enum Computer {
    Easy,
    Normal,
    Insane,
}

/// The settings of one slot.
#[derive(Clone, Copy, Debug, PartialEq, Eq, Structural)]
pub struct SlotSettings {
    pub team: i32,
    pub color: i32,
    pub computer: Computer,
    pub handicap: i32,
    pub status: SlotStatus,
    pub race: Race,
}

/// A human player.
#[derive(Debug)]
pub struct PlayerInfo {
    pub id: i32,
    pub name: String,
}

/// One slot: its settings, and its player unless a computer plays it or
/// nobody does.
#[derive(Debug)]
pub struct Slot {
    pub player: Option<PlayerInfo>,
    pub settings: SlotSettings,
}

/// The map that a game was played on.
#[derive(Debug)]
pub struct GameMap {
    pub path: String,
    pub sha1: [u8; 20],
}

/// A game: its name and map, its slots in index order, and what is needed to
/// play it back.
#[derive(Debug)]
pub struct GameInfo {
    pub id: i32,
    pub name: String,
    pub map: GameMap,
    pub slots: Vec<Slot>,
    pub random_seed: i32,
    pub game_version: String,
}

impl Slot {
    /// Whether the slot is taken, by a player or by a computer.
    pub open spec fn occupied(&self) -> bool {
        self.settings.status == SlotStatus::Occupied
    }

    /// Whether a human plays in the slot and counts as a player of the game:
    /// team 24 is the observers' bench.
    pub open spec fn counts_as_player(&self) -> bool {
        self.settings.team != 24 && self.player is Some
    }

    pub fn is_occupied(&self) -> (r: bool)
        ensures
            r == self.occupied(),
    {
        match self.settings.status {
            SlotStatus::Occupied => true,
            _ => false,
        }
    }
}

} // verus!
