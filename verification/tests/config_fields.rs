use ldtk_integration::fields::{clone_field_value, field_value_from_raw};
use ldtk_integration::{
    LdtkCollisionRule, LdtkConfig, LdtkEntityReference, LdtkEntitySpawnContext, LdtkFieldAccess,
    LdtkFieldMap, LdtkFieldValue, LdtkImportedEntity, LdtkNameSet, LdtkRawFieldValue, LdtkTilesetRect, LdtkValueSet,
};
use bevy::math::IVec2;

#[test]
fn config_layer_filters_are_combined() {
    let config = LdtkConfig::default()
        .include_layers(vec!["Ground".to_string(), "Entities".to_string()])
        .exclude_layers(vec!["Debug".to_string()]);

    assert!(config.should_include_layer("Ground"));
    assert!(!config.should_include_layer("Background"));
    assert!(!config.should_include_layer("Debug"));
}

#[test]
fn empty_include_list_admits_everything_but_excluded() {
    let config = LdtkConfig::default().exclude_layers(vec!["Debug".to_string()]);
    assert!(config.should_include_layer("Anything"));
    assert!(!config.should_include_layer("Debug"));
    let both = LdtkConfig::default()
        .include_layers(vec!["Debug".to_string()])
        .exclude_layers(vec!["Debug".to_string()]);
    assert!(!both.should_include_layer("Debug"));
}

#[test]
fn config_defaults_and_builders() {
    let config = LdtkConfig::default();
    assert_eq!(config.asset_root, "assets");
    assert!(config.world_asset_path.is_none());
    assert!(config.catalog_external_levels && config.load_level_neighbors);
    assert!(config.validate_on_load && config.warn_on_unregistered_entities);
    assert!(!config.strict_validation);

    let config = config
        .with_world_asset_path("worlds/map.ldtk".to_string())
        .with_asset_root("data".to_string())
        .without_external_level_catalog()
        .with_solid_int_grid_values(vec![1, 2, 1])
        .with_collision_rules(vec![LdtkCollisionRule::solid(3)])
        .without_validation()
        .without_unregistered_entity_warnings()
        .with_strict_validation();
    assert_eq!(config.world_asset_path.as_deref(), Some("worlds/map.ldtk"));
    assert_eq!(config.asset_root, "data");
    assert!(!config.catalog_external_levels);
    assert!(config.int_grid_solid_values.contains(1));
    assert!(config.int_grid_solid_values.contains(2));
    assert!(!config.int_grid_solid_values.contains(3));
    assert_eq!(config.collision_rules.len(), 1);
    assert!(!config.validate_on_load);
    assert!(!config.warn_on_unregistered_entities);
    assert!(config.strict_validation);
}

#[test]
fn collision_rule_builders() {
    let solid = LdtkCollisionRule::solid(1);
    assert_eq!(solid.value, 1);
    assert!(solid.solid && !solid.sensor);
    assert!(solid.tag.is_none() && solid.layer_identifier.is_none());

    let sensor = LdtkCollisionRule::sensor(2, "water".to_string()).for_layer("Collisions".to_string());
    assert_eq!(sensor.value, 2);
    assert!(sensor.sensor && !sensor.solid);
    assert_eq!(sensor.tag.as_deref(), Some("water"));
    assert_eq!(sensor.layer_identifier.as_deref(), Some("Collisions"));
}

#[test]
fn name_and_value_sets_behave_as_sets() {
    let mut names = LdtkNameSet::new();
    assert!(names.is_empty());
    assert!(names.insert("A".to_string()));
    assert!(!names.insert("A".to_string()));
    assert!(names.contains("A"));
    assert!(!names.contains("a"));
    assert!(!names.is_empty());

    let mut values = LdtkValueSet::from_values(vec![5, 5, 6]);
    assert!(values.contains(5) && values.contains(6));
    assert!(!values.insert(6));
    assert!(values.insert(7));
}

#[test]
fn entity_field_helpers_read_from_snapshot() {
    let mut entity = LdtkImportedEntity::default();
    entity
        .field_values
        .insert("damage".to_string(), LdtkFieldValue::Int(7));
    entity
        .field_values
        .insert("locked".to_string(), LdtkFieldValue::Bool(false));

    assert_eq!(entity.field_i64("damage"), Some(7));
    assert_eq!(entity.field_bool("locked"), Some(false));
    assert_eq!(entity.field_str("missing"), None);
}

#[test]
fn field_helpers_return_typed_values() {
    assert_eq!(LdtkFieldValue::Bool(true).as_bool(), Some(true));
    assert_eq!(LdtkFieldValue::Int(42).as_i64(), Some(42));
    assert_eq!(
        LdtkFieldValue::String("door_a".to_string()).as_str(),
        Some("door_a")
    );
    assert_eq!(LdtkFieldValue::Null.as_bool(), None);
}

#[test]
fn field_helpers_reject_other_kinds() {
    assert_eq!(LdtkFieldValue::Int(1).as_bool(), None);
    assert_eq!(LdtkFieldValue::Bool(true).as_i64(), None);
    assert_eq!(LdtkFieldValue::Float(1.5f64.to_bits()).as_i64(), None);
    assert_eq!(LdtkFieldValue::Int(1).as_str(), None);
    assert_eq!(LdtkFieldValue::Point(Some(IVec2::new(1, 2))).as_point(), Some(Some(IVec2::new(1, 2))));
    assert_eq!(LdtkFieldValue::Point(None).as_point(), Some(None));
    assert_eq!(LdtkFieldValue::Null.as_point(), None);
    let rect = LdtkTilesetRect { tileset_uid: 3, position: IVec2::new(1, 1), size: IVec2::new(16, 16) };
    assert_eq!(LdtkFieldValue::Tile(Some(rect.clone())).as_tile(), Some(Some(&rect)));
    assert_eq!(LdtkFieldValue::Tile(None).as_tile(), Some(None));
    assert_eq!(LdtkFieldValue::Bool(false).as_tile(), None);
}

#[test]
fn field_map_insert_replaces_and_returns_previous() {
    let mut map = LdtkFieldMap::new();
    assert!(map.insert("hp".to_string(), LdtkFieldValue::Int(1)).is_none());
    assert_eq!(map.insert("hp".to_string(), LdtkFieldValue::Int(2)), Some(LdtkFieldValue::Int(1)));
    assert_eq!(map.get("hp"), Some(&LdtkFieldValue::Int(2)));
    assert_eq!(map.get("mp"), None);

    let mut context = LdtkEntitySpawnContext::default();
    context.field_values.insert("name".to_string(), LdtkFieldValue::String("Bob".to_string()));
    assert_eq!(context.field_str("name"), Some("Bob"));
    assert_eq!(context.field_i64("name"), None);
    assert_eq!(context.field("name"), Some(&LdtkFieldValue::String("Bob".to_string())));
}

#[test]
fn field_value_copies_keep_their_data() {
    let reference = LdtkEntityReference {
        entity_iid: "e".to_string(),
        layer_iid: "l".to_string(),
        level_iid: "v".to_string(),
        world_iid: "w".to_string(),
    };
    let value = LdtkFieldValue::Array(vec![
        LdtkFieldValue::EntityRef(reference),
        LdtkFieldValue::Array(vec![LdtkFieldValue::Int(3)]),
        LdtkFieldValue::Null,
    ]);
    assert_eq!(clone_field_value(&value), value);
    assert_eq!(value.clone(), value);
}

#[test]
fn raw_field_values_fill_in_unset_values() {
    assert_eq!(field_value_from_raw(&LdtkRawFieldValue::Int(None)), LdtkFieldValue::Int(0));
    assert_eq!(field_value_from_raw(&LdtkRawFieldValue::Int(Some(-3))), LdtkFieldValue::Int(-3));
    assert_eq!(field_value_from_raw(&LdtkRawFieldValue::Float(None)), LdtkFieldValue::Float(0));
    assert_eq!(
        field_value_from_raw(&LdtkRawFieldValue::Enum(None)),
        LdtkFieldValue::String(String::new())
    );
    assert_eq!(
        field_value_from_raw(&LdtkRawFieldValue::FilePath(Some("a.png".to_string()))),
        LdtkFieldValue::String("a.png".to_string())
    );
    assert_eq!(
        field_value_from_raw(&LdtkRawFieldValue::EntityRef(None)),
        LdtkFieldValue::EntityRef(LdtkEntityReference::default())
    );
    assert_eq!(
        field_value_from_raw(&LdtkRawFieldValue::Ints(vec![Some(1), None])),
        LdtkFieldValue::Array(vec![LdtkFieldValue::Int(1), LdtkFieldValue::Null])
    );
    assert_eq!(
        field_value_from_raw(&LdtkRawFieldValue::Strings(vec![None, Some("x".to_string())])),
        LdtkFieldValue::Array(vec![LdtkFieldValue::Null, LdtkFieldValue::String("x".to_string())])
    );
    assert_eq!(
        field_value_from_raw(&LdtkRawFieldValue::Bools(vec![true])),
        LdtkFieldValue::Array(vec![LdtkFieldValue::Bool(true)])
    );
    let reference = LdtkEntityReference {
        entity_iid: "e".to_string(),
        layer_iid: "l".to_string(),
        level_iid: "v".to_string(),
        world_iid: "w".to_string(),
    };
    assert_eq!(
        field_value_from_raw(&LdtkRawFieldValue::EntityRefs(vec![Some(reference.clone()), None])),
        LdtkFieldValue::Array(vec![LdtkFieldValue::EntityRef(reference), LdtkFieldValue::Null])
    );
}
