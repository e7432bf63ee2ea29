//! Lookups over the entity collection.

use vstd::prelude::*;
use crate::components::entities::GameEntity;

verus! {

/// Whether the identifiers of the entities never fall from one to the next.
pub open spec fn sorted_by_id(entities: Seq<GameEntity>) -> bool {
    forall|i: int, j: int| 0 <= i <= j < entities.len() ==> entities[i].id <= entities[j].id
}

/// Finds entities in a collection.
pub struct EntityFinder;

impl EntityFinder {
    /// The position of an entity with identifier `id`, if the collection has
    /// one. Where several entities share the identifier, the first of them
    /// is found.
    pub fn position_by_id(entities: &Vec<GameEntity>, id: u32) -> (found: Option<usize>)
        ensures
            found.is_none() <==> forall|i: int|
                0 <= i < entities@.len() ==> (#[trigger] entities@[i]).id != id,
            found.is_some() ==> found.unwrap() < entities@.len()
                && entities@[found.unwrap() as int].id == id && forall|i: int|
                0 <= i < found.unwrap() ==> (#[trigger] entities@[i]).id != id,
    {
        let mut i: usize = 0;
        while i < entities.len()
            invariant
                i <= entities@.len(),
                forall|k: int| 0 <= k < i ==> (#[trigger] entities@[k]).id != id,
            decreases entities@.len() - i,
        {
            if entities[i].id == id {
                return Some(i);
            }
            i = i + 1;
        }
        None
    }

    /// The entity with identifier `id`, if the collection has one: the first
    /// of them where several share the identifier.
    pub fn by_id(entities: &Vec<GameEntity>, id: u32) -> (found: Option<&GameEntity>)
        ensures
            found.is_none() <==> forall|i: int|
                0 <= i < entities@.len() ==> (#[trigger] entities@[i]).id != id,
            found.is_some() ==> found.unwrap().id == id && exists|i: int|
                0 <= i < entities@.len() && entities@[i] == *found.unwrap() && forall|k: int|
                    0 <= k < i ==> (#[trigger] entities@[k]).id != id,
    {
        match Self::position_by_id(entities, id) {
            Some(i) => Some(&entities[i]),
            None => None,
        }
    }

    /// Whether the collection is ordered by identifier.
    pub fn is_sorted_by_id(entities: &Vec<GameEntity>) -> (sorted: bool)
        ensures
            sorted == sorted_by_id(entities@),
    {
        if entities.len() < 2 {
            return true;
        }
        let mut i: usize = 1;
        while i < entities.len()
            invariant
                1 <= i <= entities@.len(),
                forall|a: int, b: int| 0 <= a <= b < i ==> entities@[a].id <= entities@[b].id,
            decreases entities@.len() - i,
        {
            if entities[i - 1].id > entities[i].id {
                return false;
            }
            i = i + 1;
        }
        true
    }
}

} // verus!
