//! Snapshot types for imported LDtk entity instances.
use vstd::prelude::*;
use bevy::math::{IVec2, Vec2};
use crate::catalog::LdtkTileMetadata;
use crate::fields::{LdtkFieldAccess, LdtkFieldMap, LdtkFieldValue};

verus! {

/// All data needed to spawn a single LDtk entity instance, passed to
/// registered spawners.
#[derive(Debug, Clone, Default)]
pub struct LdtkEntitySpawnContext {
    /// Instance-unique IID for this entity.
    pub entity_iid: String,
    /// LDtk identifier of the entity definition (e.g. `"Enemy"`).
    pub entity_identifier: String,
    /// Identifier of the world this entity belongs to, if known.
    pub world_identifier: Option<String>,
    /// Identifier of the level this entity lives in, if known.
    pub level_identifier: Option<String>,
    /// Identifier of the layer this entity lives on, if known.
    pub layer_identifier: Option<String>,
    /// World-space position of the entity's pivot point in pixels.
    pub position: Vec2,
    /// Column/row position of the entity in the layer grid (in grid units).
    pub grid_position: IVec2,
    /// Pixel dimensions of this entity instance.
    pub size: Vec2,
    /// Normalised pivot point, where `(0,0)` is top-left and `(1,1)` is
    /// bottom-right.
    pub pivot: Vec2,
    /// Tags defined on this entity instance in the LDtk editor.
    pub tags: Vec<String>,
    /// Optional visual tile assigned to this entity in the LDtk editor.
    pub tile: Option<LdtkTileMetadata>,
    /// Custom field values defined on this entity instance.
    pub field_values: LdtkFieldMap,
}

impl LdtkFieldAccess for LdtkEntitySpawnContext {
    open spec fn field_map(&self) -> Map<Seq<char>, LdtkFieldValue> {
        self.field_values@
    }

    fn field_values(&self) -> (r: &LdtkFieldMap) {
        &self.field_values
    }
}

/// Snapshot of an LDtk entity instance, stored in the entity catalog and
/// attached to the spawned entity.
#[derive(Debug, Clone, Default)]
pub struct LdtkImportedEntity {
    /// Instance-unique IID for this entity.
    pub entity_iid: String,
    /// LDtk identifier of the entity definition (e.g. `"Chest"`).
    pub entity_identifier: String,
    /// Identifier of the world this entity belongs to, if known.
    pub world_identifier: Option<String>,
    /// Identifier of the level this entity lives in, if known.
    pub level_identifier: Option<String>,
    /// Identifier of the layer this entity lives on, if known.
    pub layer_identifier: Option<String>,
    /// World-space position of the entity's pivot point in pixels.
    pub position: Vec2,
    /// Column/row position of the entity in the layer grid (in grid units).
    pub grid_position: IVec2,
    /// Pixel dimensions of this entity instance.
    pub size: Vec2,
    /// Normalised pivot point, where `(0,0)` is top-left and `(1,1)` is
    /// bottom-right.
    pub pivot: Vec2,
    /// Tags defined on this entity instance in the LDtk editor.
    pub tags: Vec<String>,
    /// Optional visual tile assigned to this entity in the LDtk editor.
    pub tile: Option<LdtkTileMetadata>,
    /// Custom field values defined on this entity instance.
    pub field_values: LdtkFieldMap,
}

impl LdtkFieldAccess for LdtkImportedEntity {
    open spec fn field_map(&self) -> Map<Seq<char>, LdtkFieldValue> {
        self.field_values@
    }

    fn field_values(&self) -> (r: &LdtkFieldMap) {
        &self.field_values
    }
}

/// Marks an entity as originating from an LDtk entity instance, carrying its
/// definition name and location identifiers.
#[derive(Debug, Clone, Default)]
pub struct LdtkEntityMarker {
    /// LDtk identifier of the entity definition (e.g. `"Boss"`).
    pub definition_identifier: String,
    /// Identifier of the level the entity was spawned from, if known.
    pub level_identifier: Option<String>,
    /// Identifier of the world the entity was spawned from, if known.
    pub world_identifier: Option<String>,
}

} // verus!
