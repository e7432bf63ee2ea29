//! Game data: the phases of the story, entity classification, and the
//! inventory.

use vstd::prelude::*;

pub use crate::components::inventory::{Inventory, ItemStack};

verus! {

/// The stages of the story.
#[derive(Debug, Clone, Copy, PartialEq, Eq, Structural)]
pub enum GamePhase {
    SurvivalAndDiscovery,
    ClanEncounters,
    EmpireBuilding,
    WorldReaction,
}

impl Default for GamePhase {
    fn default() -> (phase: Self)
        ensures
            phase == GamePhase::SurvivalAndDiscovery,
    {
        GamePhase::SurvivalAndDiscovery
    }
}

/// Categories of entities that live in the world.
#[derive(Debug, Clone)]
pub enum EntityType {
    Player,
    ClanLeader(String),
    ClanMember(String),
    HostileInfected,
    Animal,
    Shelter,
}

} // verus!
