//! Load, runtime and validation state of the LDtk world.
use vstd::prelude::*;
use bevy::ecs::entity::Entity;
use crate::config::LdtkNameSet;

verus! {

/// Phase of the LDtk world load pipeline.
#[derive(Debug, Clone, Copy, PartialEq, Eq, Structural)]
pub enum LdtkLoadStatus {
    /// No world has been requested yet.
    NotLoaded,
    /// A world load is in progress.
    Loading,
    /// The world loaded successfully and is ready to use.
    Ready,
    /// Loading failed; see [`LdtkLoadState::errors`] for details.
    Error,
}

impl Default for LdtkLoadStatus {
    fn default() -> (r: Self)
        ensures
            r == LdtkLoadStatus::NotLoaded,
    {
        LdtkLoadStatus::NotLoaded
    }
}

/// Counters populated after a successful world load.
#[derive(Debug, Clone, Copy, PartialEq, Eq, Structural)]
pub struct LdtkLoadStats {
    /// Number of LDtk worlds cataloged.
    pub worlds: usize,
    /// Number of levels cataloged across all worlds.
    pub levels: usize,
    /// Number of layers cataloged across all levels.
    pub layers: usize,
    /// Number of tilesets cataloged.
    pub tilesets: usize,
    /// Total tile instances across all levels and layers.
    pub tiles: usize,
    /// Total entity instances across all levels.
    pub entities: usize,
    /// Number of spawn points extracted from entity layers.
    pub spawn_points: usize,
    /// Number of IntGrid cells with collision data.
    pub collision_cells: usize,
    /// Number of animated tiles found in tilesets.
    pub tile_animations: usize,
}

impl LdtkLoadStats {
    /// Every counter is zero.
    pub open spec fn is_zero(self) -> bool {
        &&& self.worlds == 0
        &&& self.levels == 0
        &&& self.layers == 0
        &&& self.tilesets == 0
        &&& self.tiles == 0
        &&& self.entities == 0
        &&& self.spawn_points == 0
        &&& self.collision_cells == 0
        &&& self.tile_animations == 0
    }
}

impl Default for LdtkLoadStats {
    fn default() -> (r: Self)
        ensures
            r.is_zero(),
    {
        LdtkLoadStats {
            worlds: 0,
            levels: 0,
            layers: 0,
            tilesets: 0,
            tiles: 0,
            entities: 0,
            spawn_points: 0,
            collision_cells: 0,
            tile_animations: 0,
        }
    }
}

/// Tracks the current lifecycle state of the LDtk world.
#[derive(Debug, Clone)]
pub struct LdtkLoadState {
    /// Current phase of the load pipeline.
    pub status: LdtkLoadStatus,
    /// Identifier of the world that is loaded or being loaded, if known.
    pub world_identifier: Option<String>,
    /// Non-fatal warnings accumulated during the last load.
    pub warnings: Vec<String>,
    /// Fatal errors accumulated during the last load.
    pub errors: Vec<String>,
    /// Counters describing what was loaded in the last successful pass.
    pub stats: LdtkLoadStats,
}

impl Default for LdtkLoadState {
    fn default() -> (r: Self)
        ensures
            r.status == LdtkLoadStatus::NotLoaded,
            r.world_identifier is None,
            r.warnings@.len() == 0,
            r.errors@.len() == 0,
            r.stats.is_zero(),
    {
        LdtkLoadState {
            status: LdtkLoadStatus::NotLoaded,
            world_identifier: None,
            warnings: Vec::new(),
            errors: Vec::new(),
            stats: LdtkLoadStats::default(),
        }
    }
}

impl LdtkLoadState {
    /// Returns `true` when the world has finished loading without errors.
    pub fn is_ready(&self) -> (r: bool)
        ensures
            r == (self.status == LdtkLoadStatus::Ready),
    {
        self.status == LdtkLoadStatus::Ready
    }
}

/// A single validation issue with a short machine-readable `code` and a
/// human-readable `message`.
#[derive(Debug, Clone)]
pub struct LdtkValidationIssue {
    /// Short identifier for the issue class (e.g. `"missing_tileset"`).
    pub code: String,
    /// Human-readable description of the specific problem.
    pub message: String,
}

impl LdtkValidationIssue {
    /// Builds an issue; its severity is the list of the report it lands in.
    pub fn new(code: String, message: String) -> (r: Self)
        ensures
            r.code == code,
            r.message == message,
    {
        LdtkValidationIssue { code, message }
    }
}

/// Validation issues found after loading; cleared and repopulated on each
/// reload.
#[derive(Debug, Clone)]
pub struct LdtkValidationReport {
    /// Non-fatal issues that do not abort loading.
    pub warnings: Vec<LdtkValidationIssue>,
    /// Fatal issues that abort loading under strict validation.
    pub errors: Vec<LdtkValidationIssue>,
}

impl Default for LdtkValidationReport {
    fn default() -> (r: Self)
        ensures
            r.warnings@.len() == 0,
            r.errors@.len() == 0,
    {
        LdtkValidationReport { warnings: Vec::new(), errors: Vec::new() }
    }
}

impl LdtkValidationReport {
    /// Removes all warnings and errors from the report.
    pub fn clear(&mut self)
        ensures
            final(self).warnings@.len() == 0,
            final(self).errors@.len() == 0,
    {
        self.warnings.clear();
        self.errors.clear();
    }

    /// Returns `true` if any errors have been recorded.
    pub fn has_errors(&self) -> (r: bool)
        ensures
            r == (self.errors@.len() > 0),
    {
        !self.errors.is_empty()
    }

    /// Records an issue, routing it to the errors when `strict` is set and to
    /// the warnings otherwise.
    pub fn push(&mut self, strict: bool, code: String, message: String)
        ensures
            strict ==> final(self).errors@ == old(self).errors@.push(
                LdtkValidationIssue { code, message },
            ),
            strict ==> final(self).warnings@ == old(self).warnings@,
            !strict ==> final(self).warnings@ == old(self).warnings@.push(
                LdtkValidationIssue { code, message },
            ),
            !strict ==> final(self).errors@ == old(self).errors@,
    {
        let issue = LdtkValidationIssue::new(code, message);
        if strict {
            self.errors.push(issue);
        } else {
            self.warnings.push(issue);
        }
    }
}

/// Phase of a level transition driven by the runtime.
#[derive(Debug, Clone, Copy, PartialEq, Eq, Structural)]
pub enum LdtkTransitionState {
    /// No transition is in progress.
    Idle,
    /// A new level has been requested and is being loaded.
    Loading,
    /// The requested level has been loaded and activated.
    Active,
}

impl Default for LdtkTransitionState {
    fn default() -> (r: Self)
        ensures
            r == LdtkTransitionState::Idle,
    {
        LdtkTransitionState::Idle
    }
}

/// What is currently active at runtime: which world file is open, which level
/// is active, and which levels are loaded.
#[derive(Debug, Clone)]
pub struct LdtkRuntimeState {
    /// Asset-relative path of the `.ldtk` file that is currently open.
    pub active_world_path: Option<String>,
    /// LDtk identifier of the active world.
    pub active_world_identifier: Option<String>,
    /// Entity that is the root of the spawned world hierarchy.
    pub active_world_root: Option<Entity>,
    /// LDtk identifier of the level currently focused by the game logic.
    pub active_level: Option<String>,
    /// Current level-transition phase.
    pub transition: LdtkTransitionState,
    /// Identifiers of all levels that are currently spawned in the world.
    pub loaded_levels: LdtkNameSet,
}

impl Default for LdtkRuntimeState {
    fn default() -> (r: Self)
        ensures
            r.active_world_path is None,
            r.active_world_identifier is None,
            r.active_world_root is None,
            r.active_level is None,
            r.transition == LdtkTransitionState::Idle,
            r.loaded_levels@ == Set::<Seq<char>>::empty(),
    {
        LdtkRuntimeState {
            active_world_path: None,
            active_world_identifier: None,
            active_world_root: None,
            active_level: None,
            transition: LdtkTransitionState::Idle,
            loaded_levels: LdtkNameSet::new(),
        }
    }
}

} // verus!
