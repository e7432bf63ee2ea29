//! Spawn cadence: the minimum distance travelled between two spawns of one
//! category.

use vstd::prelude::*;

verus! {

/// Minimum distance between two shelter spawns.
pub const SHELTER_SPACING: i64 = 300;

/// Minimum distance between two groups of hostiles.
pub const ENEMY_SPACING: i64 = 150;

/// Whether a spawn is due at coordinate `y`: the distance travelled since the
/// last spawn, towards lower coordinates, has reached the spacing.
pub open spec fn spawn_due(last_spawn_y: int, spacing: int, y: int) -> bool {
    last_spawn_y - y >= spacing
}

/// Tracks where a category last spawned.
#[derive(Debug, Clone, Copy, PartialEq, Eq, Structural)]
pub struct SpawnCadence {
    pub last_spawn_y: i64,
    pub spacing: i64,
}

impl SpawnCadence {
    pub fn new(last_spawn_y: i64, spacing: i64) -> (tracker: Self)
        ensures
            tracker == (SpawnCadence { last_spawn_y, spacing }),
    {
        SpawnCadence { last_spawn_y, spacing }
    }

    /// Decides whether a spawn is due at `y`.
    pub fn is_due(&self, y: i64) -> (due: bool)
        ensures
            due == spawn_due(self.last_spawn_y as int, self.spacing as int, y as int),
    {
        let travelled: i128 = self.last_spawn_y as i128 - y as i128;
        travelled >= self.spacing as i128
    }

    /// Records a spawn at `y`.
    pub fn record(&mut self, y: i64)
        ensures
            *final(self) == (SpawnCadence { last_spawn_y: y, spacing: old(self).spacing }),
    {
        self.last_spawn_y = y;
    }
}

/// The number of spawns over a run of generation coordinates, visited in
/// order by a tracker that last spawned at `last_spawn_y`. At each coordinate
/// where a spawn is due one is attempted; `succeeds` tells which attempts
/// create their entity, and only those move the tracker.
pub open spec fn spawns_over(
    last_spawn_y: int,
    spacing: int,
    centers: Seq<int>,
    succeeds: Seq<bool>,
) -> nat
    decreases centers.len(),
{
    if centers.len() == 0 || succeeds.len() != centers.len() {
        0
    } else if spawn_due(last_spawn_y, spacing, centers[0]) && succeeds[0] {
        1 + spawns_over(centers[0], spacing, centers.skip(1), succeeds.skip(1))
    } else {
        spawns_over(last_spawn_y, spacing, centers.skip(1), succeeds.skip(1))
    }
}

/// A tracker whose last spawn lies less than the spacing from every
/// coordinate of a run spawns nothing over it.
proof fn lemma_no_spawn_within_spacing(
    last_spawn_y: int,
    spacing: int,
    centers: Seq<int>,
    succeeds: Seq<bool>,
)
    requires
        forall|i: int| 0 <= i < centers.len() ==> last_spawn_y - #[trigger] centers[i] < spacing,
    ensures
        spawns_over(last_spawn_y, spacing, centers, succeeds) == 0,
    decreases centers.len(),
{
    if centers.len() != 0 && succeeds.len() == centers.len() {
        assert(!spawn_due(last_spawn_y, spacing, centers[0]));
        assert forall|i: int| 0 <= i < centers.skip(1).len() implies last_spawn_y
            - #[trigger] centers.skip(1)[i] < spacing by {
            assert(centers.skip(1)[i] == centers[i + 1]);
        }
        lemma_no_spawn_within_spacing(last_spawn_y, spacing, centers.skip(1), succeeds.skip(1));
    }
}

/// Cadence is respected: over a run of coordinates that lie less than the
/// spacing from one another, at most one spawn occurs, wherever the tracker
/// started and whichever attempts succeed.
pub proof fn lemma_cadence_respected(
    last_spawn_y: int,
    spacing: int,
    centers: Seq<int>,
    succeeds: Seq<bool>,
)
    requires
        forall|i: int, j: int|
            0 <= i < centers.len() && 0 <= j < centers.len() ==> #[trigger] centers[i]
                - #[trigger] centers[j] < spacing,
    ensures
        spawns_over(last_spawn_y, spacing, centers, succeeds) <= 1,
    decreases centers.len(),
{
    if centers.len() != 0 && succeeds.len() == centers.len() {
        let rest = centers.skip(1);
        assert forall|i: int, j: int| 0 <= i < rest.len() && 0 <= j < rest.len() implies
            #[trigger] rest[i] - #[trigger] rest[j] < spacing by {
            assert(rest[i] == centers[i + 1]);
            assert(rest[j] == centers[j + 1]);
        }
        if spawn_due(last_spawn_y, spacing, centers[0]) && succeeds[0] {
            assert forall|i: int| 0 <= i < rest.len() implies centers[0] - #[trigger] rest[i]
                < spacing by {
                assert(rest[i] == centers[i + 1]);
            }
            lemma_no_spawn_within_spacing(centers[0], spacing, rest, succeeds.skip(1));
        } else {
            lemma_cadence_respected(last_spawn_y, spacing, rest, succeeds.skip(1));
        }
    }
}

} // verus!
