//! Streaming of an unbounded, vertically scrolling game world: the world axis
//! is cut into chunks, chunks are generated ahead of the player and discarded
//! behind, terrain tiles are classified by position alone, and the entities a
//! chunk spawned leave the shared collection together with the chunk.
//!
//! All coordinates are whole world units. Travelling forward decreases the
//! coordinate, so chunks ahead of the player carry lower identifiers.

pub mod components;
pub mod systems;
