//! Behavioural states of entities.

use vstd::prelude::*;

verus! {

/// What an entity's AI is doing.
#[derive(Debug, Clone, Copy, PartialEq, Eq, Structural)]
pub enum AIState {
    Idle,
    Hostile,
    Fleeing,
    Dead,
}

impl Default for AIState {
    fn default() -> (state: Self)
        ensures
            state == AIState::Idle,
    {
        AIState::Idle
    }
}

/// The disposition of an entity towards the player.
#[derive(Debug, Clone, Copy, PartialEq, Eq, Structural)]
pub enum AIBehavior {
    Hostile,
    Neutral,
    Friendly,
    Fearful,
    Loyal,
}

impl Default for AIBehavior {
    fn default() -> (behavior: Self)
        ensures
            behavior == AIBehavior::Neutral,
    {
        AIBehavior::Neutral
    }
}

} // verus!
