//! Messages emitted by the loading and transition pipeline.
use vstd::prelude::*;

verus! {

/// Requests that a world file is loaded and spawned.
#[derive(Debug, Clone)]
pub struct LdtkSpawnWorldEvent {
    /// Asset-relative path to the `.ldtk` file to load.
    pub world_path: String,
}

/// Fired once the map catalog has been fully populated for a world.
#[derive(Debug, Clone)]
pub struct LdtkMapLoadedEvent {
    /// LDtk identifier of the world that was loaded.
    pub world_identifier: String,
}

/// Fired when a level becomes the active level.
#[derive(Debug, Clone)]
pub struct LdtkLevelActivatedEvent {
    /// LDtk identifier of the level that was activated.
    pub level_identifier: String,
}

/// Fired after the active world has been fully despawned.
#[derive(Debug, Clone, Copy)]
pub struct LdtkWorldUnloadedEvent;

/// Fired after an on-load validation pass, with the number of issues found.
#[derive(Debug, Clone, Copy)]
pub struct LdtkValidationFinishedEvent {
    /// Number of validation warnings produced.
    pub warnings: usize,
    /// Number of validation errors produced.
    pub errors: usize,
}

} // verus!
