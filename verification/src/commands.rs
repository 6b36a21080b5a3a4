//! Queued world commands and the decisions that process them.
use vstd::prelude::*;
use bevy::ecs::entity::Entity;
use crate::text::split;
use crate::catalog::{clear_runtime_catalogs, LdtkCollisionCatalog, LdtkEntityCatalog};
use crate::state::{
    LdtkLoadState, LdtkLoadStats, LdtkLoadStatus, LdtkRuntimeState, LdtkTransitionState,
};

verus! {

/// A command for the LDtk world, queued and processed once per frame.
#[derive(Debug, Clone)]
pub enum LdtkCommand {
    /// Despawns the current world (if any) and spawns the `.ldtk` file at
    /// `world_path`.
    SpawnWorld {
        /// Asset-relative path of the `.ldtk` file.
        world_path: String,
    },
    /// Makes `level_identifier` the active level.
    ChangeLevel {
        /// LDtk identifier of the level.
        level_identifier: String,
    },
    /// Spawns the active world file again.
    ReloadWorld,
    /// Despawns the current world.
    UnloadWorld,
}

/// Commands waiting to be processed, in order.
#[derive(Debug, Clone, Default)]
pub struct LdtkCommandQueue {
    /// The queued commands.
    pub pending: Vec<LdtkCommand>,
}

/// What the caller carries out after a command updated the state.
#[derive(Debug, Clone)]
pub enum LdtkCommandEffect {
    /// Despawn `despawn_root` (the previous world root), load `world_path`,
    /// spawn a new world root named after `world_identifier`, reset the level
    /// selection, and record the root with [`record_world_root`].
    SpawnWorld {
        /// Root of the world that is replaced, if any.
        despawn_root: Option<Entity>,
        /// Asset-relative path of the `.ldtk` file.
        world_path: String,
        /// Identifier of the new world.
        world_identifier: String,
    },
    /// Select `level_identifier` and announce that it was activated.
    ChangeLevel {
        /// LDtk identifier of the level.
        level_identifier: String,
    },
    /// Queue a `SpawnWorld` command for `world_path`, when there is one.
    ReloadWorld {
        /// Path of the active world file, if any.
        world_path: Option<String>,
    },
    /// Despawn `despawn_root`, reset the level selection and announce that the
    /// world was unloaded.
    UnloadWorld {
        /// Root of the world that is unloaded, if any.
        despawn_root: Option<Entity>,
    },
}

/// `identifier` is a contiguous part of `path` (the whole path included).
pub open spec fn part_of_path(identifier: Seq<char>, path: Seq<char>) -> bool {
    exists|i: int, j: int| 0 <= i <= j <= path.len() && identifier == path.subrange(i, j)
}

/// The last position of `c` in `s`, if any.
pub open spec fn last_index_of(s: Seq<char>, c: char) -> Option<int>
    decreases s.len(),
{
    if s.len() == 0 {
        None
    } else if s.last() == c {
        Some(s.len() - 1)
    } else {
        last_index_of(s.drop_last(), c)
    }
}

/// A path component that every platform reads as a plain name: not empty,
/// and neither `.` nor `..`.
pub open spec fn plain_component(part: Seq<char>) -> bool {
    part.len() > 0 && part != "."@ && part != ".."@
}

/// A relative path that every platform reads alike: plain names separated by
/// single `/`, without a backslash or `:` (which some platforms give a meaning
/// of their own).
pub open spec fn portable_path(path: Seq<char>) -> bool {
    &&& !path.contains('\\')
    &&& !path.contains(':')
    &&& forall|i: int| 0 <= i < split(path, '/').len() ==> plain_component(#[trigger] split(path, '/')[i])
}

/// The last component of a portable path: what follows its last `/`, or all
/// of it.
pub open spec fn file_name_of(path: Seq<char>) -> Seq<char> {
    match last_index_of(path, '/') {
        Some(i) => path.subrange(i + 1, path.len() as int),
        None => path,
    }
}

/// The stem of a file name: the part before its last `.`, unless there is no
/// `.` or the only one starts the name, in which case the whole name.
pub open spec fn stem_of(name: Seq<char>) -> Seq<char> {
    match last_index_of(name, '.') {
        Some(k) => if k > 0 {
            name.subrange(0, k)
        } else {
            name
        },
        None => name,
    }
}

/// `std::path::Path::file_stem` of `path`, as a string. The stem is a slice of
/// the path; on a portable path it is the stem of the last component. Which
/// slice it is on other paths depends on the platform's path syntax and is
/// not stated.
#[verifier::external_body]
fn path_file_stem(path: &str) -> (r: Option<String>)
    ensures
        r matches Some(stem) ==> part_of_path(stem@, path@),
        portable_path(path@) ==> r is Some && r->0@ == stem_of(file_name_of(path@)),
{
    std::path::Path::new(path).file_stem().and_then(|stem| stem.to_str()).map(|stem| stem.to_string())
}

/// The world identifier derived from a `.ldtk` path and its file stem: the
/// stem when there is one, else the whole path.
pub fn world_identifier_from_stem(world_path: &str, stem: Option<String>) -> (r: String)
    ensures
        r@ == match stem {
            Some(s) => s@,
            None => world_path@,
        },
{
    match stem {
        Some(s) => s,
        None => String::from_str(world_path),
    }
}

/// Derives a fallback world identifier from a `.ldtk` file path: its file
/// stem, else the whole path. On a portable path that is the stem of its last
/// component (`"worlds/map.ldtk"` gives `"map"`).
pub fn world_identifier_from_path(world_path: &str) -> (r: String)
    ensures
        part_of_path(r@, world_path@),
        portable_path(world_path@) ==> r@ == stem_of(file_name_of(world_path@)),
{
    let stem = path_file_stem(world_path);
    let r = world_identifier_from_stem(world_path, stem);
    proof {
        if stem is None {
            assert(world_path@ == world_path@.subrange(0, world_path@.len() as int));
        }
    }
    r
}

/// Records the root entity of the world that was just spawned.
pub fn record_world_root(runtime: &mut LdtkRuntimeState, root: Entity)
    ensures
        final(runtime).active_world_root == Some(root),
        final(runtime).active_world_path == old(runtime).active_world_path,
        final(runtime).active_world_identifier == old(runtime).active_world_identifier,
        final(runtime).active_level == old(runtime).active_level,
        final(runtime).transition == old(runtime).transition,
        final(runtime).loaded_levels == old(runtime).loaded_levels,
{
    runtime.active_world_root = Some(root);
}

/// Applies one command to the runtime and load state and the runtime
/// catalogs, and returns what the caller carries out.
///
/// `SpawnWorld` makes the path the active world, named by its file stem (see
/// [`world_identifier_from_path`]) (loading, no level, no
/// loaded levels, root to be recorded), restarts the load state (loading,
/// no warnings or errors, zero counters) and empties the runtime catalogs.
/// `ChangeLevel` makes the level active. `ReloadWorld` changes nothing.
/// `UnloadWorld` clears the active world (idle), puts the load state back to
/// not loaded with zero counters, and empties the runtime catalogs.
pub fn apply_ldtk_command(
    runtime: &mut LdtkRuntimeState,
    load_state: &mut LdtkLoadState,
    collision_catalog: &mut LdtkCollisionCatalog,
    entity_catalog: &mut LdtkEntityCatalog,
    command: LdtkCommand,
) -> (r: LdtkCommandEffect)
    ensures
        match command {
            LdtkCommand::SpawnWorld { world_path } => {
                &&& r matches LdtkCommandEffect::SpawnWorld { despawn_root, world_path: path, world_identifier }
                    && despawn_root == old(runtime).active_world_root
                    && path == world_path
                    && part_of_path(world_identifier@, world_path@)
                    && (portable_path(world_path@) ==> world_identifier@ == stem_of(file_name_of(world_path@)))
                    && final(runtime).active_world_identifier == Some(world_identifier)
                    && final(load_state).world_identifier == Some(world_identifier)
                &&& final(runtime).active_world_path == Some(world_path)
                &&& final(runtime).active_world_root is None
                &&& final(runtime).active_level is None
                &&& final(runtime).loaded_levels@ == Set::<Seq<char>>::empty()
                &&& final(runtime).transition == LdtkTransitionState::Loading
                &&& final(load_state).status == LdtkLoadStatus::Loading
                &&& final(load_state).warnings@.len() == 0
                &&& final(load_state).errors@.len() == 0
                &&& final(load_state).stats.is_zero()
                &&& catalogs_cleared(*final(collision_catalog), *final(entity_catalog))
            },
            LdtkCommand::ChangeLevel { level_identifier } => {
                &&& r == LdtkCommandEffect::ChangeLevel { level_identifier }
                &&& final(runtime).active_level == Some(level_identifier)
                &&& final(runtime).active_world_path == old(runtime).active_world_path
                &&& final(runtime).active_world_identifier == old(runtime).active_world_identifier
                &&& final(runtime).active_world_root == old(runtime).active_world_root
                &&& final(runtime).transition == old(runtime).transition
                &&& final(runtime).loaded_levels == old(runtime).loaded_levels
                &&& *final(load_state) == *old(load_state)
                &&& *final(collision_catalog) == *old(collision_catalog)
                &&& *final(entity_catalog) == *old(entity_catalog)
            },
            LdtkCommand::ReloadWorld => {
                &&& r == LdtkCommandEffect::ReloadWorld { world_path: old(runtime).active_world_path }
                &&& *final(runtime) == *old(runtime)
                &&& *final(load_state) == *old(load_state)
                &&& *final(collision_catalog) == *old(collision_catalog)
                &&& *final(entity_catalog) == *old(entity_catalog)
            },
            LdtkCommand::UnloadWorld => {
                &&& r == LdtkCommandEffect::UnloadWorld { despawn_root: old(runtime).active_world_root }
                &&& final(runtime).active_world_path is None
                &&& final(runtime).active_world_identifier is None
                &&& final(runtime).active_world_root is None
                &&& final(runtime).active_level is None
                &&& final(runtime).loaded_levels@ == Set::<Seq<char>>::empty()
                &&& final(runtime).transition == LdtkTransitionState::Idle
                &&& final(load_state).status == LdtkLoadStatus::NotLoaded
                &&& final(load_state).world_identifier is None
                &&& final(load_state).warnings == old(load_state).warnings
                &&& final(load_state).errors == old(load_state).errors
                &&& final(load_state).stats.is_zero()
                &&& catalogs_cleared(*final(collision_catalog), *final(entity_catalog))
            },
        },
{
    match command {
        LdtkCommand::SpawnWorld { world_path } => {
            let despawn_root = runtime.active_world_root.take();
            let world_identifier = world_identifier_from_path(world_path.as_str());
            runtime.active_world_path = Some(world_path.clone());
            runtime.active_world_identifier = Some(world_identifier.clone());
            runtime.active_level = None;
            runtime.loaded_levels.clear();
            runtime.transition = LdtkTransitionState::Loading;
            load_state.status = LdtkLoadStatus::Loading;
            load_state.world_identifier = Some(world_identifier.clone());
            load_state.warnings.clear();
            load_state.errors.clear();
            load_state.stats = LdtkLoadStats::default();
            clear_runtime_catalogs(collision_catalog, entity_catalog);
            LdtkCommandEffect::SpawnWorld { despawn_root, world_path, world_identifier }
        },
        LdtkCommand::ChangeLevel { level_identifier } => {
            runtime.active_level = Some(level_identifier.clone());
            LdtkCommandEffect::ChangeLevel { level_identifier }
        },
        LdtkCommand::ReloadWorld => {
            LdtkCommandEffect::ReloadWorld { world_path: runtime.active_world_path.clone() }
        },
        LdtkCommand::UnloadWorld => {
            let despawn_root = runtime.active_world_root.take();
            runtime.active_world_path = None;
            runtime.active_world_identifier = None;
            runtime.active_level = None;
            runtime.loaded_levels.clear();
            runtime.transition = LdtkTransitionState::Idle;
            load_state.status = LdtkLoadStatus::NotLoaded;
            load_state.world_identifier = None;
            load_state.stats = LdtkLoadStats::default();
            clear_runtime_catalogs(collision_catalog, entity_catalog);
            LdtkCommandEffect::UnloadWorld { despawn_root }
        },
    }
}

/// Both runtime catalogs are empty.
pub open spec fn catalogs_cleared(collision_catalog: LdtkCollisionCatalog, entity_catalog: LdtkEntityCatalog) -> bool {
    &&& collision_catalog.cells@.len() == 0
    &&& collision_catalog.layers@.len() == 0
    &&& entity_catalog.by_iid@.len() == 0
    &&& entity_catalog.snapshots@.len() == 0
}

} // verus!
