//! Plain data carried by the game's entities and terrain.

pub mod combat;
pub mod entities;
pub mod entity_iterator;
pub mod environment;
pub mod game_data;
pub mod inventory;
