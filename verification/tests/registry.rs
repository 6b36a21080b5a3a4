use ldtk_integration::LdtkEntityRegistry;

/// Registers `marker` as the spawner, so that tests can see which
/// registration `resolve` picked.
fn register_marked(
    registry: &mut LdtkEntityRegistry<usize>,
    layer: Option<&str>,
    entity: Option<&str>,
    marker: usize,
) {
    registry.register_spawner_for_layer_optional(
        layer.map(ToOwned::to_owned),
        entity.map(ToOwned::to_owned),
        marker,
    );
}

fn run_resolved(registry: &LdtkEntityRegistry<usize>, layer: Option<&str>, entity: &str) -> Option<usize> {
    registry.resolve(layer, entity).copied()
}

#[test]
fn resolve_prefers_exact_over_wildcards() {
    let mut registry = LdtkEntityRegistry::default();
    register_marked(&mut registry, None, None, 1);
    register_marked(&mut registry, Some("Objects"), None, 2);
    register_marked(&mut registry, None, Some("Door"), 3);
    register_marked(&mut registry, Some("Objects"), Some("Door"), 4);

    assert_eq!(run_resolved(&registry, Some("Objects"), "Door"), Some(4));
}

#[test]
fn resolve_falls_back_entity_then_layer_then_default() {
    let mut registry = LdtkEntityRegistry::default();
    register_marked(&mut registry, None, None, 1);
    register_marked(&mut registry, Some("Objects"), None, 2);
    register_marked(&mut registry, None, Some("Door"), 3);

    assert_eq!(run_resolved(&registry, Some("Objects"), "Door"), Some(3));
    assert_eq!(run_resolved(&registry, Some("Objects"), "Chest"), Some(2));
    assert_eq!(run_resolved(&registry, Some("Other"), "Chest"), Some(1));
}

#[test]
fn resolve_returns_none_without_matching_registration() {
    let mut registry = LdtkEntityRegistry::default();
    register_marked(&mut registry, Some("Objects"), Some("Door"), 4);

    assert!(registry.resolve(Some("Objects"), "Chest").is_none());
    assert!(registry.resolve(None, "Door").is_none());
}

#[test]
fn registering_again_replaces_the_spawner() {
    let mut registry = LdtkEntityRegistry::new();
    registry.register_spawner("Door".to_string(), 1usize);
    registry.register_spawner("Door".to_string(), 2usize);
    assert_eq!(run_resolved(&registry, None, "Door"), Some(2));
    registry.register_spawner_for_layer("L".to_string(), "Door".to_string(), 9usize);
    assert_eq!(run_resolved(&registry, Some("L"), "Door"), Some(9));
    assert_eq!(run_resolved(&registry, Some("M"), "Door"), Some(2));
    assert_eq!(registry.get(Some("L"), Some("Door")), Some(&9));
    assert_eq!(registry.get(Some("L"), None), None);
}

#[test]
fn unknown_layer_does_not_match_layer_wildcard() {
    let mut registry = LdtkEntityRegistry::new();
    register_marked(&mut registry, Some("Objects"), None, 2);
    assert_eq!(run_resolved(&registry, None, "Chest"), None);
}
