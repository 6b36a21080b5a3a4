use bevy::math::Vec2;
use ldtk_integration::level_manager::{
    finalize_spawned_level, handle_transition_request, initial_transition_target,
    level_identifier_from_iid, resolve_spawn_point, should_cleanup_entity, start_transition,
};
use ldtk_integration::{
    CurrentLdtkLevel, LdtkCollisionCatalog, LdtkCollisionCell, LdtkFinalizeStep,
    LdtkLevelInfo, LdtkLevelManagerConfig, LdtkLoadState, LdtkLoadStatus, LdtkMapCatalog,
    LdtkRuntimeState, LdtkSpawnPoint, LdtkValidationReport, LevelTransitionRequest,
    LevelTransitionState, LevelTransitionStatus, PendingLdtkLevelTransition,
};

fn spawn(identifier: &str, x: f32, y: f32, tag: &str) -> LdtkSpawnPoint {
    LdtkSpawnPoint {
        identifier: identifier.to_string(),
        position: Vec2::new(x, y),
        tags: vec![tag.to_string()],
        level_identifier: "Level_A".to_string(),
        layer_identifier: "Entities".to_string(),
    }
}

fn build_catalog_with_spawnpoints() -> LdtkMapCatalog {
    let mut catalog = LdtkMapCatalog::default();
    let level = LdtkLevelInfo {
        identifier: "Level_A".to_string(),
        spawn_points: vec![
            spawn("PlayerSpawn", 10.0, 20.0, "PlayerSpawn"),
            spawn("Alt", 30.0, 40.0, "Alt"),
        ],
        ..Default::default()
    };
    catalog.insert_level_info(level);
    catalog
}

fn empty_level_catalog() -> LdtkMapCatalog {
    let mut catalog = LdtkMapCatalog::default();
    catalog.insert_level_info(LdtkLevelInfo {
        identifier: "Level_A".to_string(),
        ..Default::default()
    });
    catalog
}

#[test]
fn resolves_explicit_spawn_id() {
    let catalog = build_catalog_with_spawnpoints();
    let config = LdtkLevelManagerConfig::default();

    let spawn =
        resolve_spawn_point(&catalog, "Level_A", Some("Alt"), &config).expect("spawnpoint");

    assert_eq!(spawn.identifier, "Alt");
}

#[test]
fn resolves_spawn_id_case_insensitively() {
    let catalog = build_catalog_with_spawnpoints();
    let config = LdtkLevelManagerConfig::default();

    let spawn = resolve_spawn_point(&catalog, "Level_A", Some("playerspawn"), &config)
        .expect("spawnpoint");
    assert_eq!(spawn.identifier, "PlayerSpawn");

    let alt =
        resolve_spawn_point(&catalog, "Level_A", Some("ALT"), &config).expect("spawnpoint");
    assert_eq!(alt.identifier, "Alt");
}

#[test]
fn falls_back_to_default_spawnpoint() {
    let catalog = build_catalog_with_spawnpoints();
    let config = LdtkLevelManagerConfig::default();

    let spawn = resolve_spawn_point(&catalog, "Level_A", None, &config).expect("spawnpoint");

    assert_eq!(spawn.identifier, "PlayerSpawn");
}

#[test]
fn missing_spawnpoint_returns_error() {
    let catalog = empty_level_catalog();

    let result = resolve_spawn_point(
        &catalog,
        "Level_A",
        Some("Missing"),
        &LdtkLevelManagerConfig::default(),
    );

    assert!(result.is_err());
}

#[test]
fn spawn_resolution_error_texts() {
    let catalog = empty_level_catalog();
    let config = LdtkLevelManagerConfig::default();
    assert_eq!(
        resolve_spawn_point(&catalog, "Nope", None, &config).unwrap_err(),
        "Level 'Nope' not found in LdtkMapCatalog"
    );
    assert_eq!(
        resolve_spawn_point(&catalog, "Level_A", Some("Missing"), &config).unwrap_err(),
        "Spawnpoint 'Missing' not found in level 'Level_A'"
    );
    assert_eq!(
        resolve_spawn_point(&catalog, "Level_A", None, &config).unwrap_err(),
        "Level 'Level_A' has no spawnpoints"
    );
}

#[test]
fn spawn_resolution_matches_tags_and_falls_back_to_first() {
    let mut catalog = LdtkMapCatalog::default();
    catalog.insert_level_info(LdtkLevelInfo {
        identifier: "L".to_string(),
        spawn_points: vec![spawn("Door", 1.0, 2.0, "east"), spawn("Start", 3.0, 4.0, "PLAYERSPAWN")],
        ..Default::default()
    });
    let config = LdtkLevelManagerConfig::default();
    let by_tag = resolve_spawn_point(&catalog, "L", Some("EAST"), &config).expect("by tag");
    assert_eq!(by_tag.identifier, "Door");
    let default = resolve_spawn_point(&catalog, "L", None, &config).expect("default tag");
    assert_eq!(default.identifier, "Start");
    assert_eq!(default.position, Vec2::new(3.0, 4.0));

    let mut plain = LdtkMapCatalog::default();
    plain.insert_level_info(LdtkLevelInfo {
        identifier: "P".to_string(),
        spawn_points: vec![spawn("One", 5.0, 6.0, "x"), spawn("Two", 7.0, 8.0, "y")],
        ..Default::default()
    });
    let first = resolve_spawn_point(&plain, "P", None, &config).expect("first");
    assert_eq!(first.identifier, "One");
}

#[test]
fn transition_state_changes_on_request() {
    let catalog = build_catalog_with_spawnpoints();
    let mut pending = PendingLdtkLevelTransition::default();
    let mut state = LevelTransitionState::default();

    let result = start_transition(
        &mut pending,
        &mut state,
        "Level_A".to_string(),
        None,
        &catalog,
    );

    assert!(result.is_ok());
    assert_eq!(state.status, LevelTransitionStatus::WaitingForSpawn);
    assert_eq!(pending.target_level.as_deref(), Some("Level_A"));
}

#[test]
fn transition_state_fails_for_unknown_level() {
    let catalog = build_catalog_with_spawnpoints();
    let mut pending = PendingLdtkLevelTransition::default();
    let mut state = LevelTransitionState::default();

    let result = start_transition(
        &mut pending,
        &mut state,
        "Missing".to_string(),
        None,
        &catalog,
    );

    assert!(result.is_err());
}

#[test]
fn cleanup_decision_respects_persistence() {
    assert!(!should_cleanup_entity(
        Some("Level_A"),
        None,
        true,
        false,
        "Level_A"
    ));
    assert!(!should_cleanup_entity(
        Some("Level_A"),
        None,
        false,
        true,
        "Level_A"
    ));
    assert!(should_cleanup_entity(
        Some("Level_A"),
        None,
        false,
        false,
        "Level_A"
    ));
    assert!(!should_cleanup_entity(
        Some("Level_B"),
        None,
        false,
        false,
        "Level_A"
    ));
}

#[test]
fn cleanup_decision_honours_level_scope() {
    assert!(should_cleanup_entity(None, Some("Level_A"), false, false, "Level_A"));
    assert!(!should_cleanup_entity(None, None, false, false, "Level_A"));
}

#[test]
fn allows_fallback_spawnpoint_when_enabled() {
    let catalog = empty_level_catalog();

    let config = LdtkLevelManagerConfig {
        allow_missing_spawnpoints: true,
        ..Default::default()
    };
    let spawn = resolve_spawn_point(&catalog, "Level_A", None, &config).expect("fallback");

    assert_eq!(spawn.identifier, "Fallback");
    assert_eq!(spawn.position, Vec2::ZERO);
    assert_eq!(spawn.level_identifier, "Level_A");
}

fn catalog_with_iids() -> LdtkMapCatalog {
    let mut catalog = LdtkMapCatalog::default();
    catalog.insert_level_info(LdtkLevelInfo {
        identifier: "Level_A".to_string(),
        iid: "iid-a".to_string(),
        spawn_points: vec![spawn("PlayerSpawn", 1.0, 1.0, "PlayerSpawn")],
        ..Default::default()
    });
    catalog.insert_level_info(LdtkLevelInfo {
        identifier: "Level_B".to_string(),
        iid: "iid-b".to_string(),
        ..Default::default()
    });
    catalog
}

#[test]
fn transition_by_iid_records_level_iid() {
    let catalog = catalog_with_iids();
    let mut pending = PendingLdtkLevelTransition::default();
    let mut state = LevelTransitionState::default();
    start_transition(&mut pending, &mut state, "iid-a".to_string(), Some("x".to_string()), &catalog)
        .expect("known iid");
    assert_eq!(pending.target_level_iid.as_deref(), Some("iid-a"));
    assert_eq!(pending.spawn_id.as_deref(), Some("x"));
    assert_eq!(level_identifier_from_iid(&catalog, "iid-b").as_deref(), Some("Level_B"));
    assert_eq!(level_identifier_from_iid(&catalog, "iid-z"), None);
}

#[test]
fn failed_request_records_issue_and_strict_sets_error() {
    let catalog = catalog_with_iids();
    let request = LevelTransitionRequest { target_level: "Nowhere".to_string(), spawn_id: None };
    let mut pending = PendingLdtkLevelTransition::default();
    let mut state = LevelTransitionState::default();
    let mut load_state = LdtkLoadState::default();
    let mut validation = LdtkValidationReport::default();

    assert_eq!(handle_transition_request(&mut pending, &mut state, &mut load_state, &mut validation, &catalog, false, &request), None);
    assert_eq!(state.status, LevelTransitionStatus::Failed);
    assert_eq!(state.error.as_deref(), Some("Level 'Nowhere' not found in LdtkMapCatalog"));
    assert_eq!(validation.warnings.len(), 1);
    assert_eq!(validation.warnings[0].code, "transition_level_missing");
    assert_eq!(load_state.status, LdtkLoadStatus::NotLoaded);

    assert_eq!(handle_transition_request(&mut pending, &mut state, &mut load_state, &mut validation, &catalog, true, &request), None);
    assert_eq!(validation.errors.len(), 1);
    assert_eq!(load_state.status, LdtkLoadStatus::Error);

    let ok = LevelTransitionRequest { target_level: "Level_A".to_string(), spawn_id: None };
    assert_eq!(
        handle_transition_request(&mut pending, &mut state, &mut load_state, &mut validation, &catalog, true, &ok).as_deref(),
        Some("Level_A")
    );
    assert_eq!(state.status, LevelTransitionStatus::WaitingForSpawn);
    assert!(state.error.is_none());

    // A request that names the level by its IID selects the level's identifier.
    let by_iid = LevelTransitionRequest { target_level: "iid-b".to_string(), spawn_id: None };
    assert_eq!(
        handle_transition_request(&mut pending, &mut state, &mut load_state, &mut validation, &catalog, false, &by_iid).as_deref(),
        Some("Level_B")
    );
    assert_eq!(pending.target_level.as_deref(), Some("iid-b"));
    assert_eq!(pending.target_level_iid.as_deref(), Some("iid-b"));
}

struct World {
    pending: PendingLdtkLevelTransition,
    state: LevelTransitionState,
    current: CurrentLdtkLevel,
    runtime: LdtkRuntimeState,
    load_state: LdtkLoadState,
    validation: LdtkValidationReport,
}

fn world() -> World {
    World {
        pending: PendingLdtkLevelTransition::default(),
        state: LevelTransitionState::default(),
        current: CurrentLdtkLevel::default(),
        runtime: LdtkRuntimeState::default(),
        load_state: LdtkLoadState::default(),
        validation: LdtkValidationReport::default(),
    }
}

fn finalize(w: &mut World, catalog: &LdtkMapCatalog, cells: &LdtkCollisionCatalog, iid: &str) -> LdtkFinalizeStep {
    finalize_spawned_level(
        &mut w.pending,
        &mut w.state,
        &mut w.current,
        &mut w.runtime,
        &mut w.load_state,
        &mut w.validation,
        catalog,
        cells,
        &LdtkLevelManagerConfig::default(),
        false,
        iid,
    )
}

#[test]
fn finalize_completes_matching_spawn_and_clears_pending() {
    let catalog = catalog_with_iids();
    let mut cells = LdtkCollisionCatalog::default();
    for level in ["Level_A", "Level_B", "Level_A"] {
        cells.cells.push(LdtkCollisionCell { level_identifier: level.to_string(), ..Default::default() });
    }
    let mut w = world();
    assert!(matches!(finalize(&mut w, &catalog, &cells, "iid-a"), LdtkFinalizeStep::NoPendingTransition));

    w.current.identifier = Some("Level_B".to_string());
    start_transition(&mut w.pending, &mut w.state, "Level_A".to_string(), Some("playerspawn".to_string()), &catalog)
        .expect("known level");
    assert!(matches!(finalize(&mut w, &catalog, &cells, "iid-b"), LdtkFinalizeStep::NotPending));
    assert_eq!(w.state.status, LevelTransitionStatus::WaitingForSpawn);

    match finalize(&mut w, &catalog, &cells, "iid-a") {
        LdtkFinalizeStep::Completed(done) => {
            assert_eq!(done.level_identifier, "Level_A");
            assert_eq!(done.level_iid, "iid-a");
            assert_eq!(done.spawn_point.identifier, "PlayerSpawn");
            assert_eq!(done.spawn_point.position, Vec2::new(1.0, 1.0));
            assert_eq!(done.spawn_id.as_deref(), Some("playerspawn"));
            assert_eq!(done.cleanup_level.as_deref(), Some("Level_B"));
            assert_eq!(done.collision_cells, 2);
        }
        other => panic!("unexpected step {other:?}"),
    }
    assert_eq!(w.current.identifier.as_deref(), Some("Level_A"));
    assert_eq!(w.current.iid.as_deref(), Some("iid-a"));
    assert_eq!(w.runtime.active_level.as_deref(), Some("Level_A"));
    assert_eq!(w.state.status, LevelTransitionStatus::Ready);
    assert!(w.pending.target_level.is_none() && w.pending.spawn_id.is_none() && w.pending.target_level_iid.is_none());
    assert!(matches!(finalize(&mut w, &catalog, &cells, "iid-a"), LdtkFinalizeStep::NoPendingTransition));
}

#[test]
fn finalize_fails_when_spawn_is_missing() {
    let catalog = catalog_with_iids();
    let cells = LdtkCollisionCatalog::default();
    let mut w = world();
    start_transition(&mut w.pending, &mut w.state, "Level_B".to_string(), None, &catalog).expect("known level");
    assert!(matches!(finalize(&mut w, &catalog, &cells, "iid-b"), LdtkFinalizeStep::Failed));
    assert_eq!(w.state.status, LevelTransitionStatus::Failed);
    assert_eq!(w.state.error.as_deref(), Some("Level 'Level_B' has no spawnpoints"));
    assert_eq!(w.validation.warnings.len(), 1);
    assert_eq!(w.validation.warnings[0].code, "transition_spawn_missing");
    assert!(w.pending.target_level.is_none());
    assert!(w.current.identifier.is_none());
}

#[test]
fn same_level_transition_cleans_nothing() {
    let catalog = catalog_with_iids();
    let cells = LdtkCollisionCatalog::default();
    let mut w = world();
    w.current.identifier = Some("Level_A".to_string());
    start_transition(&mut w.pending, &mut w.state, "Level_A".to_string(), None, &catalog).expect("known level");
    match finalize(&mut w, &catalog, &cells, "iid-a") {
        LdtkFinalizeStep::Completed(done) => assert!(done.cleanup_level.is_none()),
        other => panic!("unexpected step {other:?}"),
    }
}

#[test]
fn initial_transition_picks_first_known_spawned_level_when_idle() {
    let catalog = catalog_with_iids();
    let current = CurrentLdtkLevel::default();
    let pending = PendingLdtkLevelTransition::default();
    let spawned = vec!["unknown".to_string(), "iid-b".to_string(), "iid-a".to_string()];
    assert_eq!(initial_transition_target(&current, &pending, &catalog, &spawned).as_deref(), Some("Level_B"));

    let busy = CurrentLdtkLevel { identifier: Some("Level_A".to_string()), iid: None };
    assert_eq!(initial_transition_target(&busy, &pending, &catalog, &spawned), None);
    assert_eq!(initial_transition_target(&current, &pending, &catalog, &vec!["x".to_string()]), None);
}
