//! Level management logic for LDtk worlds: load and runtime state, the level
//! catalog, typed entity fields, spawner registration, collision rules, level
//! transitions with spawn-point resolution, world commands and tile
//! animation.
use vstd::prelude::*;

pub mod animation;
pub mod catalog;
pub mod commands;
pub mod components;
pub mod config;
pub mod entities;
pub mod events;
pub mod external;
pub mod fields;
pub mod level_manager;
pub mod outside;
pub mod registry;
pub mod state;
pub mod text;
pub mod tilemap;

pub use animation::{
    LdtkFrameSyntax, LdtkFrameTimer, LdtkTileAnimation, LdtkTileAnimationFrame, LdtkTileAnimationSyntax,
    LdtkTileAnimator, LdtkTileKey, LdtkTimingDirective,
};
pub use catalog::{
    LdtkCollisionCatalog, LdtkCollisionCell, LdtkCollisionLayerInfo, LdtkEntityCatalog,
    LdtkIntPoint, LdtkLayerInfo, LdtkLevelInfo, LdtkMapCatalog, LdtkSpawnPoint, LdtkTileMetadata,
};
pub use commands::{LdtkCommand, LdtkCommandEffect, LdtkCommandQueue};
pub use components::{LdtkCollider, LdtkPersistent, LdtkTileCollision, LdtkWorldRoot};
pub use config::{LdtkCollisionRule, LdtkConfig, LdtkNameSet, LdtkValueSet};
pub use entities::{LdtkEntityMarker, LdtkEntitySpawnContext, LdtkImportedEntity};
pub use events::{
    LdtkLevelActivatedEvent, LdtkMapLoadedEvent, LdtkSpawnWorldEvent, LdtkValidationFinishedEvent,
    LdtkWorldUnloadedEvent,
};
pub use external::{external_level_path, LdtkExternalLevelPath};
pub use fields::{LdtkEntityReference, LdtkFieldAccess, LdtkFieldMap, LdtkFieldValue, LdtkRawFieldValue, LdtkTilesetRect};
pub use level_manager::{
    advance_tile_animation, CurrentLdtkLevel, LdtkCollisionReadyEvent, LdtkFinalizeStep,
    LdtkLevelManagerConfig, LdtkLevelPlayer, LdtkLevelReadyEvent, LdtkLevelScoped,
    LdtkPlayerLocator, LdtkTransitionCompletion, LevelTransitionRequest, LevelTransitionState,
    LevelTransitionStatus, PendingLdtkLevelTransition,
};
pub use registry::{LdtkEntityRegistry, LdtkEntityRegistryKey};
pub use tilemap::LdtkTileAnimationEntry;
pub use state::{
    LdtkLoadState, LdtkLoadStats, LdtkLoadStatus, LdtkRuntimeState, LdtkTransitionState,
    LdtkValidationIssue, LdtkValidationReport,
};
