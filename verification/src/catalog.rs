//! The world/level/layer catalog that transitions resolve against, and the
//! runtime collision and entity catalogs.
use vstd::prelude::*;
use bevy::math::{IVec2, Vec2};
use crate::animation::LdtkTileAnimation;
use crate::entities::LdtkImportedEntity;
use crate::text::str_eq;

verus! {

/// A spawn point extracted from an entity layer.
#[derive(Debug)]
pub struct LdtkSpawnPoint {
    /// Identifier of the spawn entity (e.g. `"PlayerSpawn"`).
    pub identifier: String,
    /// World-space position of the spawn point in pixels.
    pub position: Vec2,
    /// Identifier of the level that holds the spawn point.
    pub level_identifier: String,
    /// Identifier of the layer that holds the spawn point.
    pub layer_identifier: String,
    /// Tags of the spawn entity.
    pub tags: Vec<String>,
}

impl LdtkSpawnPoint {
    /// `self` and `other` describe the same spawn point.
    pub open spec fn same_as(self, other: LdtkSpawnPoint) -> bool {
        &&& self.identifier == other.identifier
        &&& self.position == other.position
        &&& self.level_identifier == other.level_identifier
        &&& self.layer_identifier == other.layer_identifier
        &&& self.tags@ == other.tags@
    }
}

/// Copies the tags; each copied string equals its original.
pub fn clone_strings(v: &Vec<String>) -> (r: Vec<String>)
    ensures
        r@ == v@,
{
    let mut r: Vec<String> = Vec::new();
    let mut i: usize = 0;
    while i < v.len()
        invariant
            i <= v@.len(),
            r@ == v@.take(i as int),
        decreases v@.len() - i,
    {
        r.push(v[i].clone());
        assert(v@.take(i + 1) == v@.take(i as int).push(v@[i as int]));
        i = i + 1;
    }
    assert(v@.take(v@.len() as int) == v@);
    r
}

impl Clone for LdtkSpawnPoint {
    fn clone(&self) -> (r: Self)
        ensures
            r.same_as(*self),
    {
        LdtkSpawnPoint {
            identifier: self.identifier.clone(),
            position: self.position,
            level_identifier: self.level_identifier.clone(),
            layer_identifier: self.layer_identifier.clone(),
            tags: clone_strings(&self.tags),
        }
    }
}

/// A point with integer coordinates, in pixels or in grid cells.
#[derive(Debug, Clone, Copy, Default, PartialEq, Eq, Hash, Structural)]
pub struct LdtkIntPoint {
    /// Horizontal coordinate.
    pub x: i32,
    /// Vertical coordinate.
    pub y: i32,
}

/// Metadata of one tile instance placed in a level layer.
#[derive(Debug, Clone, Default)]
pub struct LdtkTileMetadata {
    /// UID of the tileset the tile comes from, if known.
    pub tileset_uid: Option<i32>,
    /// Index of the tile within its tileset.
    pub tile_id: i32,
    /// IID of the layer instance that holds the tile.
    pub layer_iid: String,
    /// Position of the tile within its layer, in pixels.
    pub layer_position: LdtkIntPoint,
    /// Animation attached to the tile through its tileset custom data.
    pub animation: Option<LdtkTileAnimation>,
}

/// Metadata of one layer instance.
#[derive(Debug, Clone, Default)]
pub struct LdtkLayerInfo {
    /// Instance-unique IID of the layer.
    pub iid: String,
    /// LDtk identifier of the layer definition.
    pub identifier: String,
    /// Identifier of the level that holds the layer.
    pub level_identifier: String,
    /// Size of one grid cell in pixels.
    pub grid_size: i32,
}

/// Metadata of one level.
#[derive(Debug, Clone, Default)]
pub struct LdtkLevelInfo {
    /// LDtk identifier of the level (e.g. `"Level_0"`).
    pub identifier: String,
    /// Instance-unique IID of the level.
    pub iid: String,
    /// Spawn points extracted from the level's entity layers.
    pub spawn_points: Vec<LdtkSpawnPoint>,
    /// Snapshots of the level's entity instances.
    pub entities: Vec<LdtkImportedEntity>,
    /// Tile instances of the level's tile layers.
    pub tiles: Vec<LdtkTileMetadata>,
}

/// No two levels share an identifier.
pub open spec fn level_identifiers_distinct(levels: Seq<LdtkLevelInfo>) -> bool {
    forall|i: int, j: int|
        0 <= i < levels.len() && 0 <= j < levels.len() && i != j
            ==> #[trigger] levels[i].identifier@ != #[trigger] levels[j].identifier@
}

/// No two layers share an IID.
pub open spec fn layer_iids_distinct(layers: Seq<LdtkLayerInfo>) -> bool {
    forall|i: int, j: int|
        0 <= i < layers.len() && 0 <= j < layers.len() && i != j
            ==> #[trigger] layers[i].iid@ != #[trigger] layers[j].iid@
}

/// `i` is the first position in `levels` of a level with IID `iid`.
pub open spec fn is_first_with_iid(levels: Seq<LdtkLevelInfo>, iid: Seq<char>, i: int) -> bool {
    &&& 0 <= i < levels.len()
    &&& levels[i].iid@ == iid
    &&& forall|j: int| 0 <= j < i ==> #[trigger] levels[j].iid@ != iid
}

/// The position in `levels` of the level with identifier `identifier`, if
/// there is one.
pub open spec fn identifier_index(levels: Seq<LdtkLevelInfo>, identifier: Seq<char>) -> Option<int> {
    if exists|i: int| 0 <= i < levels.len() && #[trigger] levels[i].identifier@ == identifier {
        Some(choose|i: int| 0 <= i < levels.len() && #[trigger] levels[i].identifier@ == identifier)
    } else {
        None
    }
}

/// The position in `layers` of the layer with IID `iid`, if there is one.
pub open spec fn layer_iid_index(layers: Seq<LdtkLayerInfo>, iid: Seq<char>) -> Option<int> {
    if exists|i: int| 0 <= i < layers.len() && #[trigger] layers[i].iid@ == iid {
        Some(choose|i: int| 0 <= i < layers.len() && #[trigger] layers[i].iid@ == iid)
    } else {
        None
    }
}

/// The level with identifier `identifier` in `levels`, if there is one.
pub open spec fn level_with_identifier(levels: Seq<LdtkLevelInfo>, identifier: Seq<char>) -> Option<LdtkLevelInfo> {
    if exists|i: int| 0 <= i < levels.len() && #[trigger] levels[i].identifier@ == identifier {
        Some(levels[choose|i: int| 0 <= i < levels.len() && #[trigger] levels[i].identifier@ == identifier])
    } else {
        None
    }
}

/// The first level with IID `iid` in `levels`, if there is one.
pub open spec fn first_level_with_iid(levels: Seq<LdtkLevelInfo>, iid: Seq<char>) -> Option<LdtkLevelInfo> {
    if exists|i: int| 0 <= i < levels.len() && #[trigger] levels[i].iid@ == iid {
        Some(levels[choose|i: int| is_first_with_iid(levels, iid, i)])
    } else {
        None
    }
}

/// The layer with IID `iid` in `layers`, if there is one.
pub open spec fn layer_with_iid(layers: Seq<LdtkLayerInfo>, iid: Seq<char>) -> Option<LdtkLayerInfo> {
    if exists|i: int| 0 <= i < layers.len() && #[trigger] layers[i].iid@ == iid {
        Some(layers[choose|i: int| 0 <= i < layers.len() && #[trigger] layers[i].iid@ == iid])
    } else {
        None
    }
}

proof fn lemma_level_with_identifier_at(levels: Seq<LdtkLevelInfo>, i: int)
    requires
        level_identifiers_distinct(levels),
        0 <= i < levels.len(),
    ensures
        level_with_identifier(levels, levels[i].identifier@) == Some(levels[i]),
{
    let id = levels[i].identifier@;
    assert(levels[i].identifier@ == id);
    let c = choose|j: int| 0 <= j < levels.len() && #[trigger] levels[j].identifier@ == id;
    assert(c == i);
}

proof fn lemma_first_level_with_iid_at(levels: Seq<LdtkLevelInfo>, iid: Seq<char>, i: int)
    requires
        is_first_with_iid(levels, iid, i),
    ensures
        first_level_with_iid(levels, iid) == Some(levels[i]),
{
    assert(levels[i].iid@ == iid);
    let c = choose|j: int| is_first_with_iid(levels, iid, j);
    assert(is_first_with_iid(levels, iid, c));
    if c < i {
        assert(levels[c].iid@ != iid);
    } else if i < c {
        assert(levels[i].iid@ != iid);
    }
}

proof fn lemma_layer_with_iid_at(layers: Seq<LdtkLayerInfo>, i: int)
    requires
        layer_iids_distinct(layers),
        0 <= i < layers.len(),
    ensures
        layer_with_iid(layers, layers[i].iid@) == Some(layers[i]),
{
    let iid = layers[i].iid@;
    assert(layers[i].iid@ == iid);
    let c = choose|j: int| 0 <= j < layers.len() && #[trigger] layers[j].iid@ == iid;
    assert(c == i);
}

/// Metadata of the loaded world: its levels and layers.
#[derive(Debug)]
pub struct LdtkMapCatalog {
    levels: Vec<LdtkLevelInfo>,
    layers: Vec<LdtkLayerInfo>,
}

impl Default for LdtkMapCatalog {
    fn default() -> (r: Self)
        ensures
            r.levels_seq().len() == 0,
            r.layers_seq().len() == 0,
    {
        LdtkMapCatalog::new()
    }
}

impl LdtkMapCatalog {
    #[verifier::type_invariant]
    spec fn wf(self) -> bool {
        &&& level_identifiers_distinct(self.levels@)
        &&& layer_iids_distinct(self.layers@)
    }

    /// The levels, in the order they were first inserted.
    pub closed spec fn levels_seq(self) -> Seq<LdtkLevelInfo> {
        self.levels@
    }

    /// The layers, in the order they were first inserted.
    pub closed spec fn layers_seq(self) -> Seq<LdtkLayerInfo> {
        self.layers@
    }

    /// The level with identifier `identifier`, if any.
    pub open spec fn spec_level(self, identifier: Seq<char>) -> Option<LdtkLevelInfo> {
        level_with_identifier(self.levels_seq(), identifier)
    }

    /// The first level with IID `iid`, if any.
    pub open spec fn spec_level_by_iid(self, iid: Seq<char>) -> Option<LdtkLevelInfo> {
        first_level_with_iid(self.levels_seq(), iid)
    }

    /// The level whose identifier is `id_or_iid`, else the first level whose
    /// IID is `id_or_iid`.
    pub open spec fn spec_level_by_id_or_iid(self, id_or_iid: Seq<char>) -> Option<LdtkLevelInfo> {
        match self.spec_level(id_or_iid) {
            Some(level) => Some(level),
            None => self.spec_level_by_iid(id_or_iid),
        }
    }

    /// The layer with IID `iid`, if any.
    pub open spec fn spec_layer(self, iid: Seq<char>) -> Option<LdtkLayerInfo> {
        layer_with_iid(self.layers_seq(), iid)
    }

    /// An empty catalog.
    pub fn new() -> (r: Self)
        ensures
            r.levels_seq().len() == 0,
            r.layers_seq().len() == 0,
    {
        LdtkMapCatalog { levels: Vec::new(), layers: Vec::new() }
    }

    /// The levels, in the order they were first inserted.
    pub fn levels(&self) -> (r: &Vec<LdtkLevelInfo>)
        ensures
            r@ == self.levels_seq(),
            level_identifiers_distinct(r@),
    {
        proof {
            use_type_invariant(self);
        }
        &self.levels
    }

    /// The layers, in the order they were first inserted.
    pub fn layers(&self) -> (r: &Vec<LdtkLayerInfo>)
        ensures
            r@ == self.layers_seq(),
            layer_iids_distinct(r@),
    {
        proof {
            use_type_invariant(self);
        }
        &self.layers
    }

    fn level_index(&self, identifier: &str) -> (r: Option<usize>)
        ensures
            match r {
                Some(i) => i < self.levels@.len() && self.levels@[i as int].identifier@ == identifier@,
                None => forall|i: int|
                    0 <= i < self.levels@.len() ==> #[trigger] self.levels@[i].identifier@ != identifier@,
            },
    {
        find_level_index(&self.levels, identifier)
    }

    fn iid_index(&self, iid: &str) -> (r: Option<usize>)
        ensures
            match r {
                Some(i) => is_first_with_iid(self.levels@, iid@, i as int),
                None => forall|i: int| 0 <= i < self.levels@.len() ==> #[trigger] self.levels@[i].iid@ != iid@,
            },
    {
        let mut i: usize = 0;
        while i < self.levels.len()
            invariant
                i <= self.levels@.len(),
                forall|j: int| 0 <= j < i ==> #[trigger] self.levels@[j].iid@ != iid@,
            decreases self.levels@.len() - i,
        {
            if str_eq(self.levels[i].iid.as_str(), iid) {
                return Some(i);
            }
            i = i + 1;
        }
        None
    }

    /// The level with identifier `identifier`, if any.
    pub fn level(&self, identifier: &str) -> (r: Option<&LdtkLevelInfo>)
        ensures
            match r {
                Some(level) => self.spec_level(identifier@) == Some(*level),
                None => self.spec_level(identifier@) is None,
            },
    {
        proof {
            use_type_invariant(self);
        }
        match self.level_index(identifier) {
            Some(i) => {
                proof {
                    lemma_level_with_identifier_at(self.levels@, i as int);
                }
                Some(&self.levels[i])
            },
            None => None,
        }
    }

    /// The first level with IID `iid`, if any.
    pub fn level_by_iid(&self, iid: &str) -> (r: Option<&LdtkLevelInfo>)
        ensures
            match r {
                Some(level) => self.spec_level_by_iid(iid@) == Some(*level),
                None => self.spec_level_by_iid(iid@) is None,
            },
    {
        match self.iid_index(iid) {
            Some(i) => {
                proof {
                    lemma_first_level_with_iid_at(self.levels@, iid@, i as int);
                    assert(self.spec_level_by_iid(iid@) == Some(self.levels@[i as int]));
                }
                Some(&self.levels[i])
            },
            None => {
                proof {
                    assert forall|i: int| 0 <= i < self.levels_seq().len() implies #[trigger] self.levels_seq()[i].iid@
                        != iid@ by {
                        assert(self.levels@[i].iid@ != iid@);
                    }
                }
                None
            },
        }
    }

    /// The level whose identifier is `id_or_iid`, else the first level whose
    /// IID is `id_or_iid`.
    pub fn level_by_id_or_iid(&self, id_or_iid: &str) -> (r: Option<&LdtkLevelInfo>)
        ensures
            match r {
                Some(level) => self.spec_level_by_id_or_iid(id_or_iid@) == Some(*level),
                None => self.spec_level_by_id_or_iid(id_or_iid@) is None,
            },
    {
        match self.level(id_or_iid) {
            Some(level) => Some(level),
            None => self.level_by_iid(id_or_iid),
        }
    }

    /// The identifier of the first level with IID `iid`, if any.
    pub fn identifier_for_iid(&self, iid: &str) -> (r: Option<&str>)
        ensures
            match r {
                Some(identifier) => self.spec_level_by_iid(iid@) is Some
                    && self.spec_level_by_iid(iid@)->0.identifier@ == identifier@,
                None => self.spec_level_by_iid(iid@) is None,
            },
    {
        match self.level_by_iid(iid) {
            Some(level) => Some(level.identifier.as_str()),
            None => None,
        }
    }

    /// The layer with IID `iid`, if any.
    pub fn layer(&self, iid: &str) -> (r: Option<&LdtkLayerInfo>)
        ensures
            match r {
                Some(layer) => self.spec_layer(iid@) == Some(*layer),
                None => self.spec_layer(iid@) is None,
            },
    {
        proof {
            use_type_invariant(self);
        }
        match find_layer_index(&self.layers, iid) {
            Some(i) => {
                proof {
                    lemma_layer_with_iid_at(self.layers@, i as int);
                }
                Some(&self.layers[i])
            },
            None => {
                proof {
                    assert forall|i: int| 0 <= i < self.layers_seq().len() implies #[trigger] self.layers_seq()[i].iid@
                        != iid@ by {
                        assert(self.layers@[i].iid@ != iid@);
                    }
                }
                None
            },
        }
    }

    /// Inserts `layer`, replacing the layer that has the same IID, if any, in
    /// its place; otherwise appends it.
    pub fn insert_layer_info(&mut self, layer: LdtkLayerInfo)
        ensures
            final(self).spec_layer(layer.iid@) == Some(layer),
            final(self).layers_seq() == match layer_iid_index(old(self).layers_seq(), layer.iid@) {
                Some(i) => old(self).layers_seq().update(i, layer),
                None => old(self).layers_seq().push(layer),
            },
            forall|iid: Seq<char>| iid != layer.iid@ ==> #[trigger] final(self).spec_layer(iid) == old(self).spec_layer(iid),
            final(self).levels_seq() == old(self).levels_seq(),
    {
        proof {
            use_type_invariant(&*self);
        }
        let ghost old_layers = self.layers@;
        let ghost key = layer.iid@;
        let ghost placed = layer;
        let mut layers: Vec<LdtkLayerInfo> = Vec::new();
        std::mem::swap(&mut layers, &mut self.layers);
        let found = find_layer_index(&layers, layer.iid.as_str());
        let ghost at: int;
        match found {
            Some(i) => {
                layers.remove(i);
                layers.insert(i, layer);
                proof {
                    at = i as int;
                    assert(layers@ == old_layers.update(i as int, placed));
                    assert(old_layers[i as int].iid@ == key);
                    let c = choose|c: int| 0 <= c < old_layers.len() && #[trigger] old_layers[c].iid@ == key;
                    assert(c == i);
                }
            },
            None => {
                layers.push(layer);
                proof {
                    at = old_layers.len() as int;
                }
            },
        }
        let ghost new_layers = layers@;
        proof {
            assert(0 <= at < new_layers.len() && new_layers[at] == placed);
            assert(forall|i: int|
                0 <= i < new_layers.len() && i != at ==> i < old_layers.len() && #[trigger] new_layers[i]
                    == old_layers[i]);
            assert(forall|i: int| 0 <= i < old_layers.len() && i != at ==> #[trigger] old_layers[i].iid@ != key);
            assert(layer_iids_distinct(new_layers)) by {
                assert forall|a: int, b: int|
                    0 <= a < new_layers.len() && 0 <= b < new_layers.len() && a != b
                        implies #[trigger] new_layers[a].iid@ != #[trigger] new_layers[b].iid@ by {
                    if a != at && b != at {
                        assert(old_layers[a].iid@ != old_layers[b].iid@);
                    }
                }
            }
            assert forall|iid: Seq<char>| iid != key implies #[trigger] layer_with_iid(new_layers, iid)
                == layer_with_iid(old_layers, iid) by {
                if exists|i: int| 0 <= i < old_layers.len() && #[trigger] old_layers[i].iid@ == iid {
                    let i = choose|i: int| 0 <= i < old_layers.len() && #[trigger] old_layers[i].iid@ == iid;
                    lemma_layer_with_iid_at(old_layers, i);
                    lemma_layer_with_iid_at(new_layers, i);
                } else {
                    assert forall|i: int| 0 <= i < new_layers.len() implies #[trigger] new_layers[i].iid@ != iid by {
                        if i != at {
                            assert(old_layers[i].iid@ != iid);
                        }
                    }
                }
            }
            lemma_layer_with_iid_at(new_layers, at);
        }
        std::mem::swap(&mut layers, &mut self.layers);
    }

    /// Inserts `level`, replacing the level that has the same identifier, if
    /// any, in its place; otherwise appends it.
    pub fn insert_level_info(&mut self, level: LdtkLevelInfo)
        ensures
            final(self).spec_level(level.identifier@) == Some(level),
            final(self).levels_seq() == match identifier_index(old(self).levels_seq(), level.identifier@) {
                Some(i) => old(self).levels_seq().update(i, level),
                None => old(self).levels_seq().push(level),
            },
            forall|id: Seq<char>|
                id != level.identifier@ ==> #[trigger] final(self).spec_level(id) == old(self).spec_level(id),
            final(self).layers_seq() == old(self).layers_seq(),
    {
        proof {
            use_type_invariant(&*self);
        }
        let ghost old_levels = self.levels@;
        let ghost key = level.identifier@;
        let ghost placed = level;
        let mut levels: Vec<LdtkLevelInfo> = Vec::new();
        std::mem::swap(&mut levels, &mut self.levels);
        let found = find_level_index(&levels, level.identifier.as_str());
        let ghost at: int;
        match found {
            Some(i) => {
                levels.remove(i);
                levels.insert(i, level);
                proof {
                    at = i as int;
                    assert(levels@ == old_levels.update(i as int, placed));
                    assert(old_levels[i as int].identifier@ == key);
                    let c = choose|c: int| 0 <= c < old_levels.len() && #[trigger] old_levels[c].identifier@ == key;
                    assert(c == i);
                }
            },
            None => {
                levels.push(level);
                proof {
                    at = old_levels.len() as int;
                }
            },
        }
        let ghost new_levels = levels@;
        proof {
            assert(0 <= at < new_levels.len() && new_levels[at] == placed);
            assert(forall|i: int|
                0 <= i < new_levels.len() && i != at ==> i < old_levels.len() && #[trigger] new_levels[i]
                    == old_levels[i]);
            assert(forall|i: int| 0 <= i < old_levels.len() && i != at ==> #[trigger] old_levels[i].identifier@ != key);
            assert(level_identifiers_distinct(new_levels)) by {
                assert forall|a: int, b: int|
                    0 <= a < new_levels.len() && 0 <= b < new_levels.len() && a != b
                        implies #[trigger] new_levels[a].identifier@ != #[trigger] new_levels[b].identifier@ by {
                    if a != at && b != at {
                        assert(old_levels[a].identifier@ != old_levels[b].identifier@);
                    }
                }
            }
            assert forall|id: Seq<char>| id != key implies #[trigger] level_with_identifier(new_levels, id)
                == level_with_identifier(old_levels, id) by {
                if exists|i: int| 0 <= i < old_levels.len() && #[trigger] old_levels[i].identifier@ == id {
                    let i = choose|i: int| 0 <= i < old_levels.len() && #[trigger] old_levels[i].identifier@ == id;
                    lemma_level_with_identifier_at(old_levels, i);
                    lemma_level_with_identifier_at(new_levels, i);
                } else {
                    assert forall|i: int| 0 <= i < new_levels.len() implies #[trigger] new_levels[i].identifier@ != id by {
                        if i != at {
                            assert(old_levels[i].identifier@ != id);
                        }
                    }
                }
            }
            lemma_level_with_identifier_at(new_levels, at);
        }
        std::mem::swap(&mut levels, &mut self.levels);
    }
}

/// `i` is the first position of `s` whose element satisfies `pred`.
pub open spec fn is_first_where<T>(s: Seq<T>, pred: spec_fn(T) -> bool, i: int) -> bool {
    &&& 0 <= i < s.len()
    &&& pred(s[i])
    &&& forall|j: int| 0 <= j < i ==> !pred(#[trigger] s[j])
}

/// The first position of `s` whose element satisfies `pred`, if any.
pub open spec fn first_where<T>(s: Seq<T>, pred: spec_fn(T) -> bool) -> Option<int> {
    if exists|i: int| 0 <= i < s.len() && pred(#[trigger] s[i]) {
        Some(choose|i: int| is_first_where(s, pred, i))
    } else {
        None
    }
}

/// The first position satisfying `pred` is the one `first_where` names.
pub proof fn lemma_first_where<T>(s: Seq<T>, pred: spec_fn(T) -> bool, i: int)
    requires
        is_first_where(s, pred, i),
    ensures
        first_where(s, pred) == Some(i),
{
    assert(pred(s[i]));
    let c = choose|j: int| is_first_where(s, pred, j);
    assert(is_first_where(s, pred, c));
    if c < i {
        assert(!pred(s[c]));
    } else if i < c {
        assert(!pred(s[i]));
    }
}

/// When some element satisfies `pred`, [`first_where`] names the first one.
pub proof fn lemma_first_where_found<T>(s: Seq<T>, pred: spec_fn(T) -> bool)
    ensures
        first_where(s, pred) matches Some(i) ==> is_first_where(s, pred, i),
        first_where(s, pred) is None <==> forall|i: int| 0 <= i < s.len() ==> !pred(#[trigger] s[i]),
    decreases s.len(),
{
    if exists|i: int| 0 <= i < s.len() && pred(#[trigger] s[i]) {
        let prefix = s.drop_last();
        lemma_first_where_found(prefix, pred);
        match first_where(prefix, pred) {
            Some(i) => {
                assert(is_first_where(s, pred, i)) by {
                    assert forall|j: int| 0 <= j < i implies !pred(#[trigger] s[j]) by {
                        assert(s[j] == prefix[j]);
                    }
                    assert(s[i] == prefix[i]);
                }
            },
            None => {
                let last = s.len() - 1;
                assert forall|j: int| 0 <= j < last implies !pred(#[trigger] s[j]) by {
                    assert(s[j] == prefix[j]);
                }
                let k = choose|i: int| 0 <= i < s.len() && pred(#[trigger] s[i]);
                if k < last {
                    assert(s[k] == prefix[k]);
                }
                assert(is_first_where(s, pred, last));
            },
        }
    }
}

/// One IntGrid cell with collision data.
#[derive(Debug, Clone, Default)]
pub struct LdtkCollisionCell {
    /// Identifier of the level that holds the cell.
    pub level_identifier: String,
    /// IID of the level that holds the cell.
    pub level_iid: String,
    /// Identifier of the IntGrid layer that holds the cell.
    pub layer_identifier: String,
    /// Column/row of the cell in the layer grid.
    pub grid_position: IVec2,
    /// The IntGrid value of the cell.
    pub value: i32,
    /// Whether the cell blocks movement.
    pub solid: bool,
    /// Whether the cell is a sensor (trigger-only, non-blocking).
    pub sensor: bool,
    /// Tag of the collision rule that made the cell a sensor, if any.
    pub tag: Option<String>,
}

/// One IntGrid layer that contributed collision cells.
#[derive(Debug, Clone, Default)]
pub struct LdtkCollisionLayerInfo {
    /// Identifier of the level that holds the layer.
    pub level_identifier: String,
    /// Identifier of the layer.
    pub layer_identifier: String,
    /// Size of one grid cell in pixels.
    pub grid_size: i32,
}

/// Number of cells of `cells` that belong to level `level`.
pub open spec fn cells_in_level(cells: Seq<LdtkCollisionCell>, level: Seq<char>) -> nat
    decreases cells.len(),
{
    if cells.len() == 0 {
        0
    } else {
        cells_in_level(cells.drop_last(), level) + if cells.last().level_identifier@ == level {
            1nat
        } else {
            0nat
        }
    }
}

proof fn lemma_cells_in_level_bounded(cells: Seq<LdtkCollisionCell>, level: Seq<char>)
    ensures
        cells_in_level(cells, level) <= cells.len(),
    decreases cells.len(),
{
    if cells.len() > 0 {
        lemma_cells_in_level_bounded(cells.drop_last(), level);
    }
}

/// Every cell of a level counts, whatever its collision flags: one more cell
/// of level `level` adds one to the count, and a cell of another level adds
/// nothing.
pub proof fn law_every_cell_of_the_level_counts(cells: Seq<LdtkCollisionCell>, cell: LdtkCollisionCell, level: Seq<char>)
    ensures
        cell.level_identifier@ == level ==> cells_in_level(cells.push(cell), level) == cells_in_level(cells, level) + 1,
        cell.level_identifier@ != level ==> cells_in_level(cells.push(cell), level) == cells_in_level(cells, level),
{
    assert(cells.push(cell).drop_last() == cells);
}

/// The count of a level's cells is the number of cells whose level identifier
/// is that level.
pub proof fn law_cell_count_is_filter_length(cells: Seq<LdtkCollisionCell>, level: Seq<char>)
    ensures
        cells_in_level(cells, level) == cells.filter(|c: LdtkCollisionCell| c.level_identifier@ == level).len(),
    decreases cells.len(),
{
    if cells.len() > 0 {
        law_cell_count_is_filter_length(cells.drop_last(), level);
        assert(cells.drop_last().push(cells.last()) == cells);
        cells.drop_last().lemma_filter_push(cells.last(), |c: LdtkCollisionCell| c.level_identifier@ == level);
    }
}

/// Collision cells captured from the spawned levels.
#[derive(Debug, Clone, Default)]
pub struct LdtkCollisionCatalog {
    /// All captured cells.
    pub cells: Vec<LdtkCollisionCell>,
    /// The layers the cells came from.
    pub layers: Vec<LdtkCollisionLayerInfo>,
}

impl LdtkCollisionCatalog {
    /// Counts the cells that belong to level `level_identifier`.
    pub fn cells_in_level(&self, level_identifier: &str) -> (r: usize)
        ensures
            r == cells_in_level(self.cells@, level_identifier@),
    {
        let mut count: usize = 0;
        let mut i: usize = 0;
        while i < self.cells.len()
            invariant
                i <= self.cells@.len(),
                count == cells_in_level(self.cells@.take(i as int), level_identifier@),
            decreases self.cells@.len() - i,
        {
            proof {
                assert(self.cells@.take(i + 1).drop_last() == self.cells@.take(i as int));
                lemma_cells_in_level_bounded(self.cells@.take(i as int), level_identifier@);
            }
            if str_eq(self.cells[i].level_identifier.as_str(), level_identifier) {
                count = count + 1;
            }
            i = i + 1;
        }
        assert(self.cells@.take(self.cells@.len() as int) == self.cells@);
        count
    }
}

/// Snapshots of the entity instances captured from the spawned levels.
#[derive(Debug, Clone, Default)]
pub struct LdtkEntityCatalog {
    /// Position in `snapshots` of each captured entity, by entity IID.
    pub by_iid: Vec<(String, usize)>,
    /// All captured snapshots.
    pub snapshots: Vec<LdtkImportedEntity>,
}

/// Empties the runtime collision and entity catalogs, so that they are rebuilt
/// from scratch when levels spawn again.
pub fn clear_runtime_catalogs(
    collision_catalog: &mut LdtkCollisionCatalog,
    entity_catalog: &mut LdtkEntityCatalog,
)
    ensures
        final(collision_catalog).cells@.len() == 0,
        final(collision_catalog).layers@.len() == 0,
        final(entity_catalog).by_iid@.len() == 0,
        final(entity_catalog).snapshots@.len() == 0,
{
    collision_catalog.cells.clear();
    collision_catalog.layers.clear();
    entity_catalog.by_iid.clear();
    entity_catalog.snapshots.clear();
}

fn find_layer_index(layers: &Vec<LdtkLayerInfo>, iid: &str) -> (r: Option<usize>)
    ensures
        match r {
            Some(i) => i < layers@.len() && layers@[i as int].iid@ == iid@,
            None => forall|i: int| 0 <= i < layers@.len() ==> #[trigger] layers@[i].iid@ != iid@,
        },
{
    let mut i: usize = 0;
    while i < layers.len()
        invariant
            i <= layers@.len(),
            forall|j: int| 0 <= j < i ==> #[trigger] layers@[j].iid@ != iid@,
        decreases layers@.len() - i,
    {
        if str_eq(layers[i].iid.as_str(), iid) {
            return Some(i);
        }
        i = i + 1;
    }
    None
}

fn find_level_index(levels: &Vec<LdtkLevelInfo>, identifier: &str) -> (r: Option<usize>)
    ensures
        match r {
            Some(i) => i < levels@.len() && levels@[i as int].identifier@ == identifier@,
            None => forall|i: int| 0 <= i < levels@.len() ==> #[trigger] levels@[i].identifier@ != identifier@,
        },
{
    let mut i: usize = 0;
    while i < levels.len()
        invariant
            i <= levels@.len(),
            forall|j: int| 0 <= j < i ==> #[trigger] levels@[j].identifier@ != identifier@,
        decreases levels@.len() - i,
    {
        if str_eq(levels[i].identifier.as_str(), identifier) {
            return Some(i);
        }
        i = i + 1;
    }
    None
}

} // verus!
