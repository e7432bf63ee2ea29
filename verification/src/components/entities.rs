//! Entities of the shared collection.

use vstd::prelude::*;
use crate::components::game_data::EntityType;

verus! {

/// A position in whole world units.
#[derive(Debug, Clone, Copy, PartialEq, Eq, Structural)]
pub struct Position {
    pub x: i64,
    pub y: i64,
}

impl Position {
    pub fn new(x: i64, y: i64) -> (p: Self)
        ensures
            p == (Position { x, y }),
    {
        Position { x, y }
    }
}

/// An entity of the shared collection, addressed by its identifier.
#[derive(Debug, Clone)]
pub struct GameEntity {
    pub id: u32,
    pub position: Position,
    pub entity_type: EntityType,
}

/// The identifiers of a sequence of entities, in order.
pub open spec fn entity_ids(entities: Seq<GameEntity>) -> Seq<u32> {
    entities.map_values(|e: GameEntity| e.id)
}

/// Whether `id` occurs in `ids`.
pub fn contains_id(ids: &Vec<u32>, id: u32) -> (found: bool)
    ensures
        found == ids@.contains(id),
{
    let mut i: usize = 0;
    while i < ids.len()
        invariant
            i <= ids@.len(),
            forall|k: int| 0 <= k < i ==> ids@[k] != id,
        decreases ids@.len() - i,
    {
        if ids[i] == id {
            return true;
        }
        i = i + 1;
    }
    false
}

/// The entities that stay when those with an identifier in `ids` leave.
pub open spec fn without_ids(entities: Seq<GameEntity>, ids: Seq<u32>) -> Seq<GameEntity> {
    entities.filter(|e: GameEntity| !ids.contains(e.id))
}

/// Removes from the collection every entity whose identifier is in `ids`;
/// the others keep their order.
pub fn remove_entities_by_id(entities: &mut Vec<GameEntity>, ids: &Vec<u32>)
    ensures
        final(entities)@ == without_ids(old(entities)@, ids@),
{
    let ghost initial = entities@;
    let ghost keep = |e: GameEntity| !ids@.contains(e.id);
    let ghost mut seen: int = 0;
    let mut i: usize = 0;
    proof {
        reveal(Seq::filter);
        assert(initial.take(0).filter(keep) =~= entities@.take(0));
        assert(entities@.skip(0) =~= initial.skip(0));
    }
    while i < entities.len()
        invariant
            0 <= seen <= initial.len(),
            i <= entities@.len(),
            entities@.len() - i == initial.len() - seen,
            entities@.take(i as int) == initial.take(seen).filter(keep),
            entities@.skip(i as int) == initial.skip(seen),
            keep == (|e: GameEntity| !ids@.contains(e.id)),
        decreases entities@.len() - i,
    {
        let ghost before = entities@;
        proof {
            assert(before[i as int] == before.skip(i as int)[0]);
            assert(initial.skip(seen)[0] == initial[seen]);
            assert(initial.take(seen + 1) =~= initial.take(seen).push(initial[seen]));
            initial.take(seen).lemma_filter_push(initial[seen], keep);
        }
        if contains_id(ids, entities[i].id) {
            entities.remove(i);
            proof {
                assert(entities@.take(i as int) =~= before.take(i as int));
                assert forall|k: int| 0 <= k < entities@.len() - i implies entities@.skip(
                    i as int,
                )[k] == initial.skip(seen + 1)[k] by {
                    assert(before.skip(i as int)[k + 1] == initial.skip(seen)[k + 1]);
                }
                assert(entities@.skip(i as int) =~= initial.skip(seen + 1));
            }
        } else {
            i = i + 1;
            proof {
                assert(entities@.take(i as int) =~= before.take(i - 1).push(before[i - 1]));
                assert forall|k: int| 0 <= k < entities@.len() - i implies entities@.skip(
                    i as int,
                )[k] == initial.skip(seen + 1)[k] by {
                    assert(before.skip(i - 1)[k + 1] == initial.skip(seen)[k + 1]);
                }
                assert(entities@.skip(i as int) =~= initial.skip(seen + 1));
            }
        }
        proof {
            seen = seen + 1;
        }
    }
    proof {
        assert(entities@.take(i as int) =~= entities@);
        assert(initial.take(seen) =~= initial);
    }
}

/// Filtering by two predicates that agree on every element of a sequence
/// keeps the same elements.
pub proof fn lemma_filter_agree<A>(s: Seq<A>, f: spec_fn(A) -> bool, g: spec_fn(A) -> bool)
    requires
        forall|i: int| 0 <= i < s.len() ==> f(#[trigger] s[i]) == g(s[i]),
    ensures
        s.filter(f) == s.filter(g),
    decreases s.len(),
{
    reveal(Seq::filter);
    if s.len() > 0 {
        assert forall|i: int| 0 <= i < s.drop_last().len() implies f(#[trigger] s.drop_last()[i])
            == g(s.drop_last()[i]) by {
            assert(s.drop_last()[i] == s[i]);
        }
        lemma_filter_agree(s.drop_last(), f, g);
        assert(s.last() == s[s.len() - 1]);
    }
}

} // verus!
