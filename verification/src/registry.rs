//! Registration of spawners for LDtk entity definitions, resolved when entity
//! instances are encountered.
use vstd::prelude::*;
use crate::text::str_eq;

verus! {

/// Key under which a spawner is registered: an exact (layer and entity)
/// match, an entity-only or layer-only wildcard, or the global default.
#[derive(Debug, Clone, PartialEq, Eq, Hash)]
pub struct LdtkEntityRegistryKey {
    /// When `Some`, the spawner only applies to this layer; `None` matches any
    /// layer.
    pub layer_identifier: Option<String>,
    /// When `Some`, the spawner only applies to this entity definition; `None`
    /// is the catch-all default.
    pub entity_identifier: Option<String>,
}

/// The character sequences a registry key stands for.
pub type RegistryKeyView = (Option<Seq<char>>, Option<Seq<char>>);

/// The character sequence of an optional string.
pub open spec fn opt_string_view(s: Option<String>) -> Option<Seq<char>> {
    match s {
        Some(v) => Some(v@),
        None => None,
    }
}

impl View for LdtkEntityRegistryKey {
    type V = RegistryKeyView;

    open spec fn view(&self) -> RegistryKeyView {
        (opt_string_view(self.layer_identifier), opt_string_view(self.entity_identifier))
    }
}

/// Maps LDtk entity definitions to spawners of type `S`.
#[derive(Debug)]
pub struct LdtkEntityRegistry<S> {
    entries: Vec<(LdtkEntityRegistryKey, S)>,
}

/// No two entries share a key.
pub open spec fn registry_keys_distinct<S>(entries: Seq<(LdtkEntityRegistryKey, S)>) -> bool {
    forall|i: int, j: int|
        0 <= i < entries.len() && 0 <= j < entries.len() && i != j
            ==> #[trigger] entries[i].0@ != #[trigger] entries[j].0@
}

/// The map that a list of entries with distinct keys stands for.
pub open spec fn registry_map<S>(entries: Seq<(LdtkEntityRegistryKey, S)>) -> Map<RegistryKeyView, S> {
    Map::new(
        |k: RegistryKeyView| exists|i: int| 0 <= i < entries.len() && entries[i].0@ == k,
        |k: RegistryKeyView| entries[choose|i: int| 0 <= i < entries.len() && entries[i].0@ == k].1,
    )
}

/// The spawner that an entity `entity` on layer `layer` resolves to, in
/// priority order: the exact (layer and entity) registration, the
/// entity-only one, the layer-only one (when the layer is known), the global
/// default.
pub open spec fn resolve_spawner<S>(
    spawners: Map<RegistryKeyView, S>,
    layer: Option<Seq<char>>,
    entity: Seq<char>,
) -> Option<S> {
    let exact = (layer, Some(entity));
    let entity_only = (None::<Seq<char>>, Some(entity));
    let default = (None::<Seq<char>>, None::<Seq<char>>);
    if spawners.contains_key(exact) {
        Some(spawners[exact])
    } else if spawners.contains_key(entity_only) {
        Some(spawners[entity_only])
    } else if layer is Some && spawners.contains_key((layer, None::<Seq<char>>)) {
        Some(spawners[(layer, None::<Seq<char>>)])
    } else if spawners.contains_key(default) {
        Some(spawners[default])
    } else {
        None
    }
}

impl<S> View for LdtkEntityRegistry<S> {
    type V = Map<RegistryKeyView, S>;

    closed spec fn view(&self) -> Map<RegistryKeyView, S> {
        registry_map(self.entries@)
    }
}

proof fn lemma_registry_entry<S>(entries: Seq<(LdtkEntityRegistryKey, S)>, i: int)
    requires
        registry_keys_distinct(entries),
        0 <= i < entries.len(),
    ensures
        registry_map(entries).contains_key(entries[i].0@),
        registry_map(entries)[entries[i].0@] == entries[i].1,
{
    let k = entries[i].0@;
    assert(exists|j: int| 0 <= j < entries.len() && entries[j].0@ == k);
    let c = choose|j: int| 0 <= j < entries.len() && entries[j].0@ == k;
    assert(c == i);
}

proof fn lemma_registry_update<S>(entries: Seq<(LdtkEntityRegistryKey, S)>, i: int, key: LdtkEntityRegistryKey, value: S)
    requires
        registry_keys_distinct(entries),
        0 <= i < entries.len(),
        entries[i].0@ == key@,
    ensures
        registry_keys_distinct(entries.update(i, (key, value))),
        registry_map(entries.update(i, (key, value))) == registry_map(entries).insert(key@, value),
{
    let e2 = entries.update(i, (key, value));
    assert(registry_keys_distinct(e2)) by {
        assert forall|a: int, b: int|
            0 <= a < e2.len() && 0 <= b < e2.len() && a != b implies #[trigger] e2[a].0@ != #[trigger] e2[b].0@ by {
            assert(entries[a].0@ != entries[b].0@);
        }
    }
    let m1 = registry_map(entries).insert(key@, value);
    let m2 = registry_map(e2);
    assert forall|k: RegistryKeyView| m1.contains_key(k) <==> m2.contains_key(k) by {
        if k == key@ {
            assert(e2[i].0@ == k);
        } else if m1.contains_key(k) {
            let j = choose|j: int| 0 <= j < entries.len() && entries[j].0@ == k;
            assert(e2[j].0@ == k);
        } else if m2.contains_key(k) {
            let j = choose|j: int| 0 <= j < e2.len() && e2[j].0@ == k;
            assert(entries[j].0@ == k);
        }
    }
    assert forall|k: RegistryKeyView| #[trigger] m2.contains_key(k) implies m1[k] == m2[k] by {
        let j = choose|j: int| 0 <= j < e2.len() && e2[j].0@ == k;
        lemma_registry_entry(e2, j);
        if k != key@ {
            assert(j != i);
            lemma_registry_entry(entries, j);
        }
    }
    assert(m1 =~= m2);
}

proof fn lemma_registry_push<S>(entries: Seq<(LdtkEntityRegistryKey, S)>, key: LdtkEntityRegistryKey, value: S)
    requires
        registry_keys_distinct(entries),
        !registry_map(entries).contains_key(key@),
    ensures
        registry_keys_distinct(entries.push((key, value))),
        registry_map(entries.push((key, value))) == registry_map(entries).insert(key@, value),
{
    let e2 = entries.push((key, value));
    let n = entries.len() as int;
    assert forall|j: int| 0 <= j < n implies entries[j].0@ != key@ by {
        if entries[j].0@ == key@ {
            assert(registry_map(entries).contains_key(key@));
        }
    }
    assert(registry_keys_distinct(e2)) by {
        assert forall|a: int, b: int|
            0 <= a < e2.len() && 0 <= b < e2.len() && a != b implies #[trigger] e2[a].0@ != #[trigger] e2[b].0@ by {
            if a < n && b < n {
                assert(entries[a].0@ != entries[b].0@);
            }
        }
    }
    let m1 = registry_map(entries).insert(key@, value);
    let m2 = registry_map(e2);
    assert forall|k: RegistryKeyView| m1.contains_key(k) <==> m2.contains_key(k) by {
        if k == key@ {
            assert(e2[n].0@ == k);
        } else if m1.contains_key(k) {
            let j = choose|j: int| 0 <= j < entries.len() && entries[j].0@ == k;
            assert(e2[j].0@ == k);
        } else if m2.contains_key(k) {
            let j = choose|j: int| 0 <= j < e2.len() && e2[j].0@ == k;
            assert(entries[j].0@ == k);
        }
    }
    assert forall|k: RegistryKeyView| #[trigger] m2.contains_key(k) implies m1[k] == m2[k] by {
        let j = choose|j: int| 0 <= j < e2.len() && e2[j].0@ == k;
        lemma_registry_entry(e2, j);
        if k != key@ {
            assert(j != n);
            lemma_registry_entry(entries, j);
        }
    }
    assert(m1 =~= m2);
}

fn opt_eq(a: &Option<String>, b: Option<&str>) -> (r: bool)
    ensures
        r == (opt_string_view(*a) == match b {
            Some(s) => Some(s@),
            None => None::<Seq<char>>,
        }),
{
    match (a, b) {
        (Some(x), Some(y)) => str_eq(x.as_str(), y),
        (None, None) => true,
        _ => false,
    }
}

impl<S> LdtkEntityRegistry<S> {
    #[verifier::type_invariant]
    spec fn wf(self) -> bool {
        registry_keys_distinct(self.entries@)
    }

    /// An empty registry.
    pub fn new() -> (r: Self)
        ensures
            r@ == Map::<RegistryKeyView, S>::empty(),
    {
        let r = LdtkEntityRegistry { entries: Vec::new() };
        assert(r@ =~= Map::<RegistryKeyView, S>::empty());
        r
    }

    fn index_of(&self, layer: Option<&str>, entity: Option<&str>) -> (r: Option<usize>)
        ensures
            match r {
                Some(i) => i < self.entries@.len() && self.entries@[i as int].0@ == (
                    match layer { Some(s) => Some(s@), None => None::<Seq<char>> },
                    match entity { Some(s) => Some(s@), None => None::<Seq<char>> },
                ),
                None => forall|i: int|
                    0 <= i < self.entries@.len() ==> self.entries@[i].0@ != (
                        match layer { Some(s) => Some(s@), None => None::<Seq<char>> },
                        match entity { Some(s) => Some(s@), None => None::<Seq<char>> },
                    ),
            },
    {
        let mut i: usize = 0;
        while i < self.entries.len()
            invariant
                i <= self.entries@.len(),
                forall|j: int|
                    0 <= j < i ==> self.entries@[j].0@ != (
                        match layer { Some(s) => Some(s@), None => None::<Seq<char>> },
                        match entity { Some(s) => Some(s@), None => None::<Seq<char>> },
                    ),
            decreases self.entries@.len() - i,
        {
            let key = &self.entries[i].0;
            if opt_eq(&key.layer_identifier, layer) && opt_eq(&key.entity_identifier, entity) {
                return Some(i);
            }
            i = i + 1;
        }
        None
    }

    /// The spawner registered under exactly this key, if any.
    pub fn get(&self, layer: Option<&str>, entity: Option<&str>) -> (r: Option<&S>)
        ensures
            ({
                let key = (
                    match layer { Some(s) => Some(s@), None => None::<Seq<char>> },
                    match entity { Some(s) => Some(s@), None => None::<Seq<char>> },
                );
                match r {
                    Some(s) => self@.contains_key(key) && *s == self@[key],
                    None => !self@.contains_key(key),
                }
            }),
    {
        proof {
            use_type_invariant(self);
        }
        match self.index_of(layer, entity) {
            Some(i) => {
                proof {
                    lemma_registry_entry(self.entries@, i as int);
                }
                Some(&self.entries[i].1)
            },
            None => None,
        }
    }

    /// Registers `spawner` under the key made of the optional layer and entity
    /// identifiers, replacing any spawner registered under the same key.
    pub fn register_spawner_for_layer_optional(
        &mut self,
        layer_identifier: Option<String>,
        entity_identifier: Option<String>,
        spawner: S,
    )
        ensures
            final(self)@ == old(self)@.insert(
                (opt_string_view(layer_identifier), opt_string_view(entity_identifier)),
                spawner,
            ),
    {
        proof {
            use_type_invariant(&*self);
        }
        let key = LdtkEntityRegistryKey { layer_identifier, entity_identifier };
        let ghost old_entries = self.entries@;
        let found = {
            let layer: Option<&str> = match &key.layer_identifier {
                Some(s) => Some(s.as_str()),
                None => None,
            };
            let entity: Option<&str> = match &key.entity_identifier {
                Some(s) => Some(s.as_str()),
                None => None,
            };
            self.index_of(layer, entity)
        };
        let mut entries: Vec<(LdtkEntityRegistryKey, S)> = Vec::new();
        std::mem::swap(&mut entries, &mut self.entries);
        let ghost key_view = key@;
        match found {
            Some(i) => {
                let ghost placed = (key, spawner);
                entries.remove(i);
                entries.insert(i, (key, spawner));
                proof {
                    assert(entries@ == old_entries.update(i as int, placed));
                    lemma_registry_update(old_entries, i as int, placed.0, placed.1);
                }
            },
            None => {
                let ghost placed = (key, spawner);
                entries.push((key, spawner));
                proof {
                    assert forall|j: int| 0 <= j < old_entries.len() implies old_entries[j].0@ != key_view by {}
                    if registry_map(old_entries).contains_key(key_view) {
                        let j = choose|j: int| 0 <= j < old_entries.len() && old_entries[j].0@ == key_view;
                        assert(false);
                    }
                    lemma_registry_push(old_entries, placed.0, placed.1);
                }
            },
        }
        std::mem::swap(&mut entries, &mut self.entries);
    }

    /// Registers `spawner` for any entity matching `identifier`, on any layer.
    pub fn register_spawner(&mut self, identifier: String, spawner: S)
        ensures
            final(self)@ == old(self)@.insert((None, Some(identifier@)), spawner),
    {
        self.register_spawner_for_layer_optional(None, Some(identifier), spawner);
    }

    /// Registers `spawner` for entities matching both `layer_identifier` and
    /// `entity_identifier`.
    pub fn register_spawner_for_layer(&mut self, layer_identifier: String, entity_identifier: String, spawner: S)
        ensures
            final(self)@ == old(self)@.insert((Some(layer_identifier@), Some(entity_identifier@)), spawner),
    {
        self.register_spawner_for_layer_optional(Some(layer_identifier), Some(entity_identifier), spawner);
    }

    /// Resolves the best matching spawner for an entity instance: exact
    /// (layer and entity) over entity-only over layer-only over the global
    /// default; `None` when nothing matches.
    pub fn resolve(&self, layer_identifier: Option<&str>, entity_identifier: &str) -> (r: Option<&S>)
        ensures
            match r {
                Some(s) => resolve_spawner(
                    self@,
                    match layer_identifier { Some(l) => Some(l@), None => None::<Seq<char>> },
                    entity_identifier@,
                ) == Some(*s),
                None => resolve_spawner(
                    self@,
                    match layer_identifier { Some(l) => Some(l@), None => None::<Seq<char>> },
                    entity_identifier@,
                ) is None,
            },
    {
        if let Some(s) = self.get(layer_identifier, Some(entity_identifier)) {
            return Some(s);
        }
        if let Some(s) = self.get(None, Some(entity_identifier)) {
            return Some(s);
        }
        if layer_identifier.is_some() {
            if let Some(s) = self.get(layer_identifier, None) {
                return Some(s);
            }
        }
        self.get(None, None)
    }
}

impl<S> Default for LdtkEntityRegistry<S> {
    fn default() -> (r: Self)
        ensures
            r@ == Map::<RegistryKeyView, S>::empty(),
    {
        LdtkEntityRegistry::new()
    }
}

/// Registering a spawner under an exact (layer and entity) key makes that
/// entity on that layer resolve to it, whatever else is registered.
pub proof fn law_resolve_after_exact_registration<S>(
    spawners: Map<RegistryKeyView, S>,
    layer: Seq<char>,
    entity: Seq<char>,
    spawner: S,
)
    ensures
        resolve_spawner(spawners.insert((Some(layer), Some(entity)), spawner), Some(layer), entity)
            == Some(spawner),
{
}

/// An entity-only registration wins over layer-only and default
/// registrations, whatever they are, as long as there is no exact one.
pub proof fn law_entity_registration_beats_layer_wildcards<S>(
    spawners: Map<RegistryKeyView, S>,
    layer: Option<Seq<char>>,
    entity: Seq<char>,
    spawner: S,
)
    requires
        !spawners.contains_key((layer, Some(entity))),
    ensures
        resolve_spawner(spawners.insert((None, Some(entity)), spawner), layer, entity) == Some(spawner),
{
}

/// An entity with no exact, entity-only or layer-only registration resolves
/// to the global default, if any.
pub proof fn law_unmatched_entity_resolves_to_default<S>(
    spawners: Map<RegistryKeyView, S>,
    layer: Option<Seq<char>>,
    entity: Seq<char>,
)
    requires
        !spawners.contains_key((layer, Some(entity))),
        !spawners.contains_key((None, Some(entity))),
        layer is Some ==> !spawners.contains_key((layer, None)),
    ensures
        resolve_spawner(spawners, layer, entity) == if spawners.contains_key((None, None)) {
            Some(spawners[(None, None)])
        } else {
            None
        },
{
}

/// A layer-only registration serves every entity on that layer that has no
/// exact or entity-only registration, whether or not a global default is
/// registered.
pub proof fn law_layer_registration_serves_unmatched_entities<S>(
    spawners: Map<RegistryKeyView, S>,
    layer: Seq<char>,
    entity: Seq<char>,
)
    requires
        spawners.contains_key((Some(layer), None)),
        !spawners.contains_key((Some(layer), Some(entity))),
        !spawners.contains_key((None, Some(entity))),
    ensures
        resolve_spawner(spawners, Some(layer), entity) == Some(spawners[(Some(layer), None)]),
        resolve_spawner(spawners.remove((None, None)), Some(layer), entity) == Some(spawners[(Some(layer), None)]),
{
}

} // verus!
