//! Markers attached to spawned LDtk worlds, tiles and entities.
use vstd::prelude::*;

verus! {

/// Marks the root entity of a spawned LDtk world.
#[derive(Debug, Clone, Copy, Default)]
pub struct LdtkWorldRoot;

/// Keeps an entity from being despawned during level transitions.
#[derive(Debug, Clone, Copy, Default)]
pub struct LdtkPersistent;

/// The collision role of a spawned tile or entity.
#[derive(Debug, Clone, Copy, Default)]
pub struct LdtkCollider {
    /// Whether this collider blocks movement.
    pub solid: bool,
    /// Whether this collider is a sensor (trigger-only, non-blocking).
    pub sensor: bool,
}

/// Links a tile entity back to its source level and IntGrid value. The
/// plugin never inserts it; query [`LdtkCollider`] or read the collision
/// catalog instead.
#[derive(Debug, Clone, Default)]
pub struct LdtkTileCollision {
    /// Identifier of the level that owns this tile.
    pub level_identifier: String,
    /// Index of the tile in its tileset.
    pub tile_id: i32,
    /// Whether the tile is a solid (impassable) collider.
    pub solid: bool,
}

} // verus!
