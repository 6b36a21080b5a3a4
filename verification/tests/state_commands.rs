use ldtk_integration::catalog::clear_runtime_catalogs;
use ldtk_integration::commands::{apply_ldtk_command, world_identifier_from_path, world_identifier_from_stem};
use ldtk_integration::external::world_directory;
use ldtk_integration::text::{eq_ignore_ascii_case, string_of_chars, trim_chars};
use ldtk_integration::{
    external_level_path, LdtkCollisionCatalog, LdtkCollisionCell, LdtkCommand, LdtkCommandEffect,
    LdtkEntityCatalog, LdtkImportedEntity, LdtkLevelInfo, LdtkLoadState, LdtkLoadStatus,
    LdtkMapCatalog, LdtkRuntimeState, LdtkTransitionState, LdtkValidationIssue,
    LdtkValidationReport,
};

#[test]
fn builds_external_level_path_relative_to_world_file() {
    let path = external_level_path(
        "assets",
        "worlds/SeparateLevelFiles.ldtk",
        "SeparateLevelFiles/World_Level_0.ldtkl",
    );

    assert_eq!(path.asset_root, "assets");
    assert_eq!(path.world_directory, "worlds");
    assert_eq!(path.relative_path, "SeparateLevelFiles/World_Level_0.ldtkl");
    assert_eq!(
        std::path::PathBuf::from(&path.asset_root)
            .join(&path.world_directory)
            .join(&path.relative_path),
        std::path::PathBuf::from("assets")
            .join("worlds")
            .join("SeparateLevelFiles")
            .join("World_Level_0.ldtkl")
    );
}

#[test]
fn world_directory_of_bare_file_is_empty() {
    assert_eq!(world_directory("map.ldtk"), "");
    assert_eq!(world_directory("a/b/map.ldtk"), "a/b");
}

#[test]
fn load_state_readiness() {
    let mut state = LdtkLoadState::default();
    assert!(!state.is_ready());
    state.status = LdtkLoadStatus::Ready;
    assert!(state.is_ready());
    state.status = LdtkLoadStatus::Error;
    assert!(!state.is_ready());
}

#[test]
fn validation_report_routes_by_strictness() {
    let mut report = LdtkValidationReport::default();
    assert!(!report.has_errors());
    report.push(false, "missing_tileset".to_string(), "no tileset".to_string());
    assert_eq!(report.warnings.len(), 1);
    assert!(!report.has_errors());
    report.push(true, "bad".to_string(), "very bad".to_string());
    assert!(report.has_errors());
    assert_eq!(report.errors[0].code, "bad");
    assert_eq!(report.errors[0].message, "very bad");
    report.clear();
    assert!(report.warnings.is_empty() && report.errors.is_empty());
    let issue = LdtkValidationIssue::new("c".to_string(), "m".to_string());
    assert_eq!((issue.code.as_str(), issue.message.as_str()), ("c", "m"));
}

#[test]
fn world_identifier_is_file_stem() {
    assert_eq!(world_identifier_from_path("worlds/map.ldtk"), "map");
    assert_eq!(world_identifier_from_path("map"), "map");
    assert_eq!(world_identifier_from_path("a/.hidden"), ".hidden");
    assert_eq!(world_identifier_from_path("a/b.c.ldtk"), "b.c");
    assert_eq!(world_identifier_from_path("a/b."), "b");
    assert_eq!(world_identifier_from_stem("a/b.ldtk", None), "a/b.ldtk");
    assert_eq!(world_identifier_from_stem("a/b.ldtk", Some("b".to_string())), "b");
}

fn catalogs() -> (LdtkCollisionCatalog, LdtkEntityCatalog) {
    let mut collision = LdtkCollisionCatalog::default();
    collision.cells.push(LdtkCollisionCell::default());
    let mut entities = LdtkEntityCatalog::default();
    entities.snapshots.push(LdtkImportedEntity::default());
    entities.by_iid.push(("e".to_string(), 0));
    (collision, entities)
}

#[test]
fn spawn_world_command_starts_loading_and_clears_catalogs() {
    let mut runtime = LdtkRuntimeState::default();
    runtime.active_level = Some("Old".to_string());
    runtime.loaded_levels.insert("Old".to_string());
    let mut load = LdtkLoadState::default();
    load.warnings.push("w".to_string());
    load.stats.levels = 4;
    let (mut collision, mut entities) = catalogs();

    let effect = apply_ldtk_command(
        &mut runtime,
        &mut load,
        &mut collision,
        &mut entities,
        LdtkCommand::SpawnWorld { world_path: "worlds/map.ldtk".to_string() },
    );
    match effect {
        LdtkCommandEffect::SpawnWorld { despawn_root, world_path, world_identifier } => {
            assert!(despawn_root.is_none());
            assert_eq!(world_path, "worlds/map.ldtk");
            assert_eq!(world_identifier, "map");
        }
        other => panic!("unexpected effect {other:?}"),
    }
    assert_eq!(runtime.active_world_path.as_deref(), Some("worlds/map.ldtk"));
    assert_eq!(runtime.active_world_identifier.as_deref(), Some("map"));
    assert!(runtime.active_level.is_none() && runtime.loaded_levels.is_empty());
    assert_eq!(runtime.transition, LdtkTransitionState::Loading);
    assert_eq!(load.status, LdtkLoadStatus::Loading);
    assert_eq!(load.world_identifier.as_deref(), Some("map"));
    assert!(load.warnings.is_empty());
    assert_eq!(load.stats.levels, 0);
    assert!(collision.cells.is_empty() && entities.snapshots.is_empty() && entities.by_iid.is_empty());
}

#[test]
fn change_reload_and_unload_commands() {
    let mut runtime = LdtkRuntimeState::default();
    let mut load = LdtkLoadState::default();
    let (mut collision, mut entities) = catalogs();

    let effect = apply_ldtk_command(&mut runtime, &mut load, &mut collision, &mut entities, LdtkCommand::ReloadWorld);
    assert!(matches!(effect, LdtkCommandEffect::ReloadWorld { world_path: None }));
    assert_eq!(collision.cells.len(), 1);

    apply_ldtk_command(&mut runtime, &mut load, &mut collision, &mut entities, LdtkCommand::SpawnWorld { world_path: "w.ldtk".to_string() });
    let effect = apply_ldtk_command(&mut runtime, &mut load, &mut collision, &mut entities, LdtkCommand::ChangeLevel { level_identifier: "L1".to_string() });
    assert!(matches!(effect, LdtkCommandEffect::ChangeLevel { ref level_identifier } if level_identifier == "L1"));
    assert_eq!(runtime.active_level.as_deref(), Some("L1"));

    let effect = apply_ldtk_command(&mut runtime, &mut load, &mut collision, &mut entities, LdtkCommand::ReloadWorld);
    assert!(matches!(effect, LdtkCommandEffect::ReloadWorld { world_path: Some(ref p) } if p == "w.ldtk"));

    load.errors.push("e".to_string());
    let effect = apply_ldtk_command(&mut runtime, &mut load, &mut collision, &mut entities, LdtkCommand::UnloadWorld);
    assert!(matches!(effect, LdtkCommandEffect::UnloadWorld { despawn_root: None }));
    assert!(runtime.active_world_path.is_none() && runtime.active_level.is_none());
    assert_eq!(runtime.transition, LdtkTransitionState::Idle);
    assert_eq!(load.status, LdtkLoadStatus::NotLoaded);
    assert_eq!(load.errors.len(), 1);
}

#[test]
fn clearing_runtime_catalogs_empties_them() {
    let (mut collision, mut entities) = catalogs();
    clear_runtime_catalogs(&mut collision, &mut entities);
    assert!(collision.cells.is_empty() && collision.layers.is_empty());
    assert!(entities.snapshots.is_empty() && entities.by_iid.is_empty());
}

#[test]
fn catalog_insert_replaces_same_identifier_and_looks_up() {
    let mut catalog = LdtkMapCatalog::new();
    catalog.insert_level_info(LdtkLevelInfo { identifier: "A".to_string(), iid: "1".to_string(), ..Default::default() });
    catalog.insert_level_info(LdtkLevelInfo { identifier: "B".to_string(), iid: "2".to_string(), ..Default::default() });
    catalog.insert_level_info(LdtkLevelInfo { identifier: "A".to_string(), iid: "3".to_string(), ..Default::default() });
    assert_eq!(catalog.levels().len(), 2);
    assert_eq!(catalog.level("A").map(|l| l.iid.as_str()), Some("3"));
    assert_eq!(catalog.level_by_id_or_iid("2").map(|l| l.identifier.as_str()), Some("B"));
    assert_eq!(catalog.identifier_for_iid("1"), None);
    assert_eq!(catalog.identifier_for_iid("3"), Some("A"));
    assert!(catalog.level("C").is_none());
}

#[test]
fn collision_cells_are_counted_per_level() {
    let mut collision = LdtkCollisionCatalog::default();
    for level in ["A", "B", "A", "a"] {
        collision.cells.push(LdtkCollisionCell { level_identifier: level.to_string(), ..Default::default() });
    }
    assert_eq!(collision.cells_in_level("A"), 2);
    assert_eq!(collision.cells_in_level("C"), 0);
}

#[test]
fn text_helpers() {
    assert!(eq_ignore_ascii_case("PlayerSpawn", "playerSPAWN"));
    assert!(!eq_ignore_ascii_case("Spawn", "Spawns"));
    assert!(!eq_ignore_ascii_case("É", "é"));
    let trimmed = trim_chars(&"\u{3000}\t a b \u{85}\n".chars().collect());
    assert_eq!(string_of_chars(&trimmed), "a b");
}
