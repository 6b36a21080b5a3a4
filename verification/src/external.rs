//! Where an external `.ldtkl` level file lies on disk.
use vstd::prelude::*;
use crate::commands::{last_index_of, part_of_path, portable_path};

verus! {

/// The parent directory of a portable path: what precedes its last `/`, or
/// nothing when it has a single component.
pub open spec fn parent_of(path: Seq<char>) -> Seq<char> {
    match last_index_of(path, '/') {
        Some(i) => path.subrange(0, i),
        None => Seq::empty(),
    }
}

/// `std::path::Path::parent` of `path`, as a string: the path without its
/// final component, if it has one. It is a slice of the path; on a portable
/// path it is what precedes the last `/` (nothing for a single component).
/// Which slice it is on other paths depends on the platform's path syntax and
/// is not stated.
#[verifier::external_body]
fn path_parent(path: &str) -> (r: Option<String>)
    ensures
        r matches Some(parent) ==> part_of_path(parent@, path@),
        portable_path(path@) ==> r is Some && r->0@ == parent_of(path@),
{
    std::path::Path::new(path).parent().and_then(|parent| parent.to_str()).map(|parent| parent.to_string())
}

/// The directory of a world file: its parent, or nothing (the empty path)
/// when it has none.
pub fn world_directory(active_world_path: &str) -> (r: String)
    ensures
        part_of_path(r@, active_world_path@),
        portable_path(active_world_path@) ==> r@ == parent_of(active_world_path@),
{
    match path_parent(active_world_path) {
        Some(parent) => parent,
        None => {
            let r = String::new();
            assert(r@ == active_world_path@.subrange(0, 0));
            r
        },
    }
}

/// The three paths whose join, in order, locates an external `.ldtkl` level
/// file: the asset root, the directory of the world file, and the level's
/// path relative to that directory.
#[derive(Debug, Clone)]
pub struct LdtkExternalLevelPath {
    /// Root directory that asset paths are resolved relative to.
    pub asset_root: String,
    /// Directory of the world file, relative to the asset root.
    pub world_directory: String,
    /// Path of the level file, relative to the world file's directory.
    pub relative_path: String,
}

/// The parts of the on-disk location of an external `.ldtkl` file: the asset
/// root, the world file's directory (see [`world_directory`]) and the level's
/// relative path, to be joined in that order.
pub fn external_level_path(asset_root: &str, active_world_path: &str, external_path: &str) -> (r: LdtkExternalLevelPath)
    ensures
        r.asset_root@ == asset_root@,
        r.relative_path@ == external_path@,
        part_of_path(r.world_directory@, active_world_path@),
        portable_path(active_world_path@) ==> r.world_directory@ == parent_of(active_world_path@),
{
    LdtkExternalLevelPath {
        asset_root: String::from_str(asset_root),
        world_directory: world_directory(active_world_path),
        relative_path: String::from_str(external_path),
    }
}

} // verus!
