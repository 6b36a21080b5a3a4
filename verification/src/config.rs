//! Plugin configuration: [`LdtkConfig`] and the collision-rule builders.
use vstd::prelude::*;
use crate::text::str_eq;

verus! {

/// A set of names (layer identifiers), compared exactly.
#[derive(Debug, Clone)]
pub struct LdtkNameSet {
    names: Vec<String>,
}

impl View for LdtkNameSet {
    type V = Set<Seq<char>>;

    closed spec fn view(&self) -> Set<Seq<char>> {
        Set::new(|name: Seq<char>| exists|i: int| 0 <= i < self.names@.len() && #[trigger] self.names@[i]@ == name)
    }
}

impl LdtkNameSet {
    /// An empty set.
    pub fn new() -> (r: Self)
        ensures
            r@ == Set::<Seq<char>>::empty(),
    {
        let r = LdtkNameSet { names: Vec::new() };
        assert(r@ =~= Set::<Seq<char>>::empty());
        r
    }

    /// Whether `name` is in the set.
    pub fn contains(&self, name: &str) -> (r: bool)
        ensures
            r == self@.contains(name@),
    {
        let mut i: usize = 0;
        while i < self.names.len()
            invariant
                i <= self.names@.len(),
                forall|j: int| 0 <= j < i ==> #[trigger] self.names@[j]@ != name@,
            decreases self.names@.len() - i,
        {
            if str_eq(self.names[i].as_str(), name) {
                assert(self.names@[i as int]@ == name@);
                return true;
            }
            i = i + 1;
        }
        false
    }

    /// Removes every element.
    pub fn clear(&mut self)
        ensures
            final(self)@ == Set::<Seq<char>>::empty(),
    {
        self.names.clear();
        assert(self@ =~= Set::<Seq<char>>::empty());
    }

    /// Whether the set has no element.
    pub fn is_empty(&self) -> (r: bool)
        ensures
            r == (self@ == Set::<Seq<char>>::empty()),
    {
        if self.names.len() == 0 {
            assert(self@ =~= Set::<Seq<char>>::empty());
            true
        } else {
            assert(self@.contains(self.names@[0]@));
            false
        }
    }

    /// Adds `name`; returns `true` when it was not in the set yet.
    pub fn insert(&mut self, name: String) -> (r: bool)
        ensures
            final(self)@ == old(self)@.insert(name@),
            r == !old(self)@.contains(name@),
    {
        if self.contains(name.as_str()) {
            assert(self@ =~= self@.insert(name@));
            false
        } else {
            let ghost before = self.names@;
            self.names.push(name);
            proof {
                let after = self.names@;
                assert forall|s: Seq<char>| #[trigger] self@.contains(s) == old(self)@.insert(name@).contains(s) by {
                    if old(self)@.contains(s) {
                        let i = choose|i: int| 0 <= i < before.len() && #[trigger] before[i]@ == s;
                        assert(after[i]@ == s);
                    }
                    if self@.contains(s) && s != name@ {
                        let i = choose|i: int| 0 <= i < after.len() && #[trigger] after[i]@ == s;
                        assert(i < before.len());
                        assert(before[i]@ == s);
                    }
                    if s == name@ {
                        assert(after[before.len() as int]@ == s);
                    }
                }
                assert(self@ =~= old(self)@.insert(name@));
            }
            true
        }
    }

    /// The set of the given names.
    pub fn from_names(names: Vec<String>) -> (r: Self)
        ensures
            r@ == Set::new(|name: Seq<char>| exists|i: int| 0 <= i < names@.len() && #[trigger] names@[i]@ == name),
    {
        let mut set = LdtkNameSet::new();
        let mut i: usize = 0;
        while i < names.len()
            invariant
                i <= names@.len(),
                set@ == Set::new(|name: Seq<char>| exists|j: int| 0 <= j < i && #[trigger] names@[j]@ == name),
            decreases names@.len() - i,
        {
            let ghost before = set@;
            set.insert(names[i].clone());
            proof {
                assert forall|s: Seq<char>| #[trigger] set@.contains(s) == (exists|j: int| 0 <= j < i + 1 && #[trigger] names@[j]@ == s) by {
                    if exists|j: int| 0 <= j < i + 1 && #[trigger] names@[j]@ == s {
                        let j = choose|j: int| 0 <= j < i + 1 && #[trigger] names@[j]@ == s;
                        if j < i {
                            assert(before.contains(s));
                        }
                    }
                    if before.contains(s) {
                        let j = choose|j: int| 0 <= j < i && #[trigger] names@[j]@ == s;
                        assert(0 <= j < i + 1 && names@[j]@ == s);
                    }
                }
                assert(set@ =~= Set::new(|name: Seq<char>| exists|j: int| 0 <= j < i + 1 && #[trigger] names@[j]@ == name));
            }
            i = i + 1;
        }
        set
    }
}

/// A set of IntGrid values.
#[derive(Debug, Clone)]
pub struct LdtkValueSet {
    values: Vec<i32>,
}

impl View for LdtkValueSet {
    type V = Set<i32>;

    closed spec fn view(&self) -> Set<i32> {
        value_set(self.values@)
    }
}

/// The set of values held by `values`.
pub open spec fn value_set(values: Seq<i32>) -> Set<i32> {
    Set::new(|v: i32| values.contains(v))
}

impl LdtkValueSet {
    /// An empty set.
    pub fn new() -> (r: Self)
        ensures
            r@ == Set::<i32>::empty(),
    {
        let r = LdtkValueSet { values: Vec::new() };
        assert(r@ =~= Set::<i32>::empty());
        r
    }

    /// Whether `value` is in the set.
    pub fn contains(&self, value: i32) -> (r: bool)
        ensures
            r == self@.contains(value),
    {
        let mut i: usize = 0;
        while i < self.values.len()
            invariant
                i <= self.values@.len(),
                forall|j: int| 0 <= j < i ==> #[trigger] self.values@[j] != value,
            decreases self.values@.len() - i,
        {
            if self.values[i] == value {
                assert(self.values@[i as int] == value);
                return true;
            }
            i = i + 1;
        }
        false
    }

    /// Whether the set has no element.
    pub fn is_empty(&self) -> (r: bool)
        ensures
            r == (self@ == Set::<i32>::empty()),
    {
        if self.values.len() == 0 {
            assert(self@ =~= Set::<i32>::empty());
            true
        } else {
            assert(self@.contains(self.values@[0]));
            false
        }
    }

    /// Adds `value`; returns `true` when it was not in the set yet.
    pub fn insert(&mut self, value: i32) -> (r: bool)
        ensures
            final(self)@ == old(self)@.insert(value),
            r == !old(self)@.contains(value),
    {
        if self.contains(value) {
            assert(self@ =~= self@.insert(value));
            false
        } else {
            let ghost before = self.values@;
            self.values.push(value);
            proof {
                assert(self.values@ == before.push(value));
                assert forall|v: i32| #[trigger] self@.contains(v) == old(self)@.insert(value).contains(v) by {
                    if before.contains(v) {
                        let i = choose|i: int| 0 <= i < before.len() && before[i] == v;
                        assert(self.values@[i] == v);
                    }
                    if self.values@.contains(v) && v != value {
                        let i = choose|i: int| 0 <= i < self.values@.len() && self.values@[i] == v;
                        assert(before[i] == v);
                    }
                    if v == value {
                        assert(self.values@[before.len() as int] == v);
                    }
                }
                assert(self@ =~= old(self)@.insert(value));
            }
            true
        }
    }

    /// The set of the given values.
    pub fn from_values(values: Vec<i32>) -> (r: Self)
        ensures
            r@ == value_set(values@),
    {
        let mut set = LdtkValueSet::new();
        let mut i: usize = 0;
        while i < values.len()
            invariant
                i <= values@.len(),
                set@ == value_set(values@.take(i as int)),
            decreases values@.len() - i,
        {
            let ghost before = values@.take(i as int);
            set.insert(values[i]);
            proof {
                let after = values@.take(i + 1);
                assert(after == before.push(values@[i as int]));
                assert forall|v: i32| #[trigger] set@.contains(v) == after.contains(v) by {
                    if before.contains(v) {
                        let j = choose|j: int| 0 <= j < before.len() && before[j] == v;
                        assert(after[j] == v);
                    }
                    if after.contains(v) && v != values@[i as int] {
                        let j = choose|j: int| 0 <= j < after.len() && after[j] == v;
                        assert(before[j] == v);
                    }
                    if v == values@[i as int] {
                        assert(after[i as int] == v);
                    }
                }
                assert(set@ =~= value_set(after));
            }
            i = i + 1;
        }
        assert(values@.take(values@.len() as int) == values@);
        set
    }
}

impl Default for LdtkValueSet {
    fn default() -> (r: Self)
        ensures
            r@ == Set::<i32>::empty(),
    {
        LdtkValueSet::new()
    }
}

impl Default for LdtkNameSet {
    fn default() -> (r: Self)
        ensures
            r@ == Set::<Seq<char>>::empty(),
    {
        LdtkNameSet::new()
    }
}

/// Maps an IntGrid value (optionally scoped to a layer) to collision
/// behaviour, overriding the configured solid values.
#[derive(Debug, Clone, Default, PartialEq, Eq)]
pub struct LdtkCollisionRule {
    /// When `Some`, the rule only applies to the named layer; `None` matches
    /// every layer.
    pub layer_identifier: Option<String>,
    /// The IntGrid cell value this rule matches against.
    pub value: i32,
    /// When `true`, matching cells are treated as solid colliders.
    pub solid: bool,
    /// When `true`, matching cells are treated as sensor colliders.
    pub sensor: bool,
    /// Optional tag written to the collision cells of sensor matches.
    pub tag: Option<String>,
}

impl LdtkCollisionRule {
    /// A rule that marks `value` as a solid collider on any layer.
    pub fn solid(value: i32) -> (r: Self)
        ensures
            r.layer_identifier is None,
            r.value == value,
            r.solid,
            !r.sensor,
            r.tag is None,
    {
        LdtkCollisionRule { layer_identifier: None, value, solid: true, sensor: false, tag: None }
    }

    /// A rule that marks `value` as a sensor collider with the given `tag` on
    /// any layer.
    pub fn sensor(value: i32, tag: String) -> (r: Self)
        ensures
            r.layer_identifier is None,
            r.value == value,
            !r.solid,
            r.sensor,
            r.tag == Some(tag),
    {
        LdtkCollisionRule { layer_identifier: None, value, solid: false, sensor: true, tag: Some(tag) }
    }

    /// Scopes this rule to a single layer.
    pub fn for_layer(self, layer_identifier: String) -> (r: Self)
        ensures
            r == (LdtkCollisionRule { layer_identifier: Some(layer_identifier), ..self }),
    {
        LdtkCollisionRule { layer_identifier: Some(layer_identifier), ..self }
    }
}

/// A layer passes the filter made of an allow-list and a deny-list when the
/// allow-list is empty or holds it, and the deny-list does not hold it.
pub open spec fn layer_passes_filter(allowed: Set<Seq<char>>, denied: Set<Seq<char>>, layer: Seq<char>) -> bool {
    (allowed == Set::<Seq<char>>::empty() || allowed.contains(layer)) && !denied.contains(layer)
}

/// A layer on the deny-list is skipped, even when the allow-list holds it.
pub proof fn law_excluded_layer_is_skipped(allowed: Set<Seq<char>>, denied: Set<Seq<char>>, layer: Seq<char>)
    requires
        denied.contains(layer),
    ensures
        !layer_passes_filter(allowed, denied, layer),
{
}

/// Without an allow-list and a deny-list every layer passes; with an
/// allow-list, only the layers it holds can pass.
pub proof fn law_allow_list_restricts_layers(allowed: Set<Seq<char>>, denied: Set<Seq<char>>, layer: Seq<char>)
    ensures
        allowed == Set::<Seq<char>>::empty() && denied == Set::<Seq<char>>::empty() ==> layer_passes_filter(
            allowed,
            denied,
            layer,
        ),
        allowed != Set::<Seq<char>>::empty() && !allowed.contains(layer) ==> !layer_passes_filter(
            allowed,
            denied,
            layer,
        ),
{
}

/// Runtime configuration of the LDtk integration.
#[derive(Debug, Clone)]
pub struct LdtkConfig {
    /// Root directory that asset paths are resolved relative to.
    pub asset_root: String,
    /// Asset-relative path to the `.ldtk` world file to load on startup, if any.
    pub world_asset_path: Option<String>,
    /// Whether external `.ldtkl` level files are discovered and cataloged.
    pub catalog_external_levels: bool,
    /// When `true`, levels adjacent to the active level are loaded proactively.
    pub load_level_neighbors: bool,
    /// IntGrid values that are treated as solid by default.
    pub int_grid_solid_values: LdtkValueSet,
    /// Ordered collision rules that override the default solid values.
    pub collision_rules: Vec<LdtkCollisionRule>,
    /// When non-empty, only layers whose identifiers appear here are processed.
    pub include_layers: LdtkNameSet,
    /// Layers whose identifiers appear here are skipped even if included.
    pub exclude_layers: LdtkNameSet,
    /// Runs structural validation after the world is cataloged when `true`.
    pub validate_on_load: bool,
    /// When `true`, validation warnings are promoted to errors that abort
    /// loading.
    pub strict_validation: bool,
    /// Warns for every LDtk entity that has no registered spawner.
    pub warn_on_unregistered_entities: bool,
}

impl Default for LdtkConfig {
    fn default() -> (r: Self)
        ensures
            r.asset_root@ == "assets"@,
            r.world_asset_path is None,
            r.catalog_external_levels,
            r.load_level_neighbors,
            r.int_grid_solid_values@ == Set::<i32>::empty(),
            r.collision_rules@.len() == 0,
            r.include_layers@ == Set::<Seq<char>>::empty(),
            r.exclude_layers@ == Set::<Seq<char>>::empty(),
            r.validate_on_load,
            !r.strict_validation,
            r.warn_on_unregistered_entities,
    {
        LdtkConfig {
            asset_root: String::from_str("assets"),
            world_asset_path: None,
            catalog_external_levels: true,
            load_level_neighbors: true,
            int_grid_solid_values: LdtkValueSet::new(),
            collision_rules: Vec::new(),
            include_layers: LdtkNameSet::new(),
            exclude_layers: LdtkNameSet::new(),
            validate_on_load: true,
            strict_validation: false,
            warn_on_unregistered_entities: true,
        }
    }
}

impl LdtkConfig {
    /// Sets the world file to load on startup.
    pub fn with_world_asset_path(self, path: String) -> (r: Self)
        ensures
            r == (LdtkConfig { world_asset_path: Some(path), ..self }),
    {
        LdtkConfig { world_asset_path: Some(path), ..self }
    }

    /// Overrides the asset root.
    pub fn with_asset_root(self, path: String) -> (r: Self)
        ensures
            r == (LdtkConfig { asset_root: path, ..self }),
    {
        LdtkConfig { asset_root: path, ..self }
    }

    /// Disables external-level cataloging.
    pub fn without_external_level_catalog(self) -> (r: Self)
        ensures
            r == (LdtkConfig { catalog_external_levels: false, ..self }),
    {
        LdtkConfig { catalog_external_levels: false, ..self }
    }

    /// Replaces the solid IntGrid values with the set of `values`.
    pub fn with_solid_int_grid_values(self, values: Vec<i32>) -> (r: Self)
        ensures
            r.int_grid_solid_values@ == value_set(values@),
            r == (LdtkConfig { int_grid_solid_values: r.int_grid_solid_values, ..self }),
    {
        let set = LdtkValueSet::from_values(values);
        LdtkConfig { int_grid_solid_values: set, ..self }
    }

    /// Replaces the collision rules.
    pub fn with_collision_rules(self, rules: Vec<LdtkCollisionRule>) -> (r: Self)
        ensures
            r == (LdtkConfig { collision_rules: rules, ..self }),
    {
        LdtkConfig { collision_rules: rules, ..self }
    }

    /// Sets the layer allow-list to the set of `layers`.
    pub fn include_layers(self, layers: Vec<String>) -> (r: Self)
        ensures
            r.include_layers@ == Set::new(
                |name: Seq<char>| exists|i: int| 0 <= i < layers@.len() && #[trigger] layers@[i]@ == name,
            ),
            r == (LdtkConfig { include_layers: r.include_layers, ..self }),
    {
        LdtkConfig { include_layers: LdtkNameSet::from_names(layers), ..self }
    }

    /// Sets the layer deny-list to the set of `layers`.
    pub fn exclude_layers(self, layers: Vec<String>) -> (r: Self)
        ensures
            r.exclude_layers@ == Set::new(
                |name: Seq<char>| exists|i: int| 0 <= i < layers@.len() && #[trigger] layers@[i]@ == name,
            ),
            r == (LdtkConfig { exclude_layers: r.exclude_layers, ..self }),
    {
        LdtkConfig { exclude_layers: LdtkNameSet::from_names(layers), ..self }
    }

    /// Disables on-load validation.
    pub fn without_validation(self) -> (r: Self)
        ensures
            r == (LdtkConfig { validate_on_load: false, ..self }),
    {
        LdtkConfig { validate_on_load: false, ..self }
    }

    /// Suppresses warnings for unregistered LDtk entities.
    pub fn without_unregistered_entity_warnings(self) -> (r: Self)
        ensures
            r == (LdtkConfig { warn_on_unregistered_entities: false, ..self }),
    {
        LdtkConfig { warn_on_unregistered_entities: false, ..self }
    }

    /// Enables strict validation (warnings become errors).
    pub fn with_strict_validation(self) -> (r: Self)
        ensures
            r == (LdtkConfig { strict_validation: true, ..self }),
    {
        LdtkConfig { strict_validation: true, ..self }
    }

    /// Whether `layer_identifier` passes the layer filter: included when the
    /// allow-list is empty or holds it, and not on the deny-list.
    pub fn should_include_layer(&self, layer_identifier: &str) -> (r: bool)
        ensures
            r == layer_passes_filter(self.include_layers@, self.exclude_layers@, layer_identifier@),
    {
        (self.include_layers.is_empty() || self.include_layers.contains(layer_identifier))
            && !self.exclude_layers.contains(layer_identifier)
    }
}

} // verus!
