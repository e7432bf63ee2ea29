//! Game systems: each owns one focused area of the game's rules.

pub mod chunk;
pub mod guarantees;
pub mod infinite_world;
pub mod objectives;
pub mod population;
pub mod spawn_cadence;
pub mod streaming;
pub mod visible_tiles;
pub mod world;
pub mod world_view;

use vstd::prelude::*;

verus! {

/// The order in which the systems run within one step of the game.
#[derive(Debug, Clone, Copy, PartialEq, Eq, Structural)]
pub enum SystemUpdateOrder {
    Input,
    Player,
    AI,
    Shelter,
    Blood,
    Time,
    Objectives,
}

impl SystemUpdateOrder {
    /// The place of a system in the order, counted from 0.
    pub open spec fn rank(self) -> int {
        match self {
            SystemUpdateOrder::Input => 0,
            SystemUpdateOrder::Player => 1,
            SystemUpdateOrder::AI => 2,
            SystemUpdateOrder::Shelter => 3,
            SystemUpdateOrder::Blood => 4,
            SystemUpdateOrder::Time => 5,
            SystemUpdateOrder::Objectives => 6,
        }
    }

    /// The place of a system in the order, counted from 0.
    pub fn position(&self) -> (place: u8)
        ensures
            place == self.rank(),
    {
        match self {
            SystemUpdateOrder::Input => 0,
            SystemUpdateOrder::Player => 1,
            SystemUpdateOrder::AI => 2,
            SystemUpdateOrder::Shelter => 3,
            SystemUpdateOrder::Blood => 4,
            SystemUpdateOrder::Time => 5,
            SystemUpdateOrder::Objectives => 6,
        }
    }
}

} // verus!
