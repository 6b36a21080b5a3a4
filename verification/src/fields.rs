//! Typed LDtk field values, the field map that entities carry, and the shared
//! [`LdtkFieldAccess`] accessor trait.
use vstd::prelude::*;
use bevy::color::Color;
use bevy::math::IVec2;
use crate::text::str_eq;

verus! {

/// Fully qualified cross-reference to another LDtk entity instance.
#[derive(Debug, Clone, Default, PartialEq, Eq)]
pub struct LdtkEntityReference {
    /// IID of the referenced entity instance.
    pub entity_iid: String,
    /// IID of the layer that contains the referenced entity.
    pub layer_iid: String,
    /// IID of the level that contains the referenced entity.
    pub level_iid: String,
    /// IID of the world that contains the referenced entity.
    pub world_iid: String,
}

/// A rectangular region inside a tileset, used by tile-typed LDtk field values.
#[derive(Debug, Clone, Default, PartialEq, Eq)]
pub struct LdtkTilesetRect {
    /// UID of the tileset this rectangle refers to.
    pub tileset_uid: i32,
    /// Top-left corner of the rectangle in pixels within the tileset image.
    pub position: IVec2,
    /// Width and height of the rectangle in pixels.
    pub size: IVec2,
}

/// Typed representation of any LDtk field value.
///
/// A floating-point value is held by the IEEE-754 bit pattern of its `f64`.
#[derive(Debug, PartialEq, Default)]
pub enum LdtkFieldValue {
    /// A boolean field value.
    Bool(bool),
    /// An integer field value stored as `i64` to accommodate all LDtk int ranges.
    Int(i64),
    /// A floating-point field value, as the bits of the `f64`.
    Float(u64),
    /// A string, file-path, or enum field value.
    String(String),
    /// A color field value.
    Color(Color),
    /// A point field value; `None` when the field is set to null in the editor.
    Point(Option<IVec2>),
    /// A tile-reference field value; `None` when unset.
    Tile(Option<LdtkTilesetRect>),
    /// A cross-reference to another entity instance.
    EntityRef(LdtkEntityReference),
    /// An array field containing zero or more values.
    Array(Vec<LdtkFieldValue>),
    /// A null / unset field value.
    #[default]
    Null,
}

/// Two field values hold the same data: equal, or both arrays of the same
/// length whose items, position by position, hold the same data.
pub open spec fn same_field_value(a: LdtkFieldValue, b: LdtkFieldValue) -> bool
    decreases a,
{
    match a {
        LdtkFieldValue::Array(x) => match b {
            LdtkFieldValue::Array(y) => x@.len() == y@.len() && forall|i: int|
                0 <= i < x@.len() ==> same_field_value(#[trigger] x@[i], y@[i]),
            _ => false,
        },
        _ => a == b,
    }
}

/// A copy of `v` that holds the same data.
pub fn clone_field_value(v: &LdtkFieldValue) -> (r: LdtkFieldValue)
    ensures
        same_field_value(r, *v),
    decreases v,
{
    let r = match v {
        LdtkFieldValue::Bool(b) => LdtkFieldValue::Bool(*b),
        LdtkFieldValue::Int(i) => LdtkFieldValue::Int(*i),
        LdtkFieldValue::Float(bits) => LdtkFieldValue::Float(*bits),
        LdtkFieldValue::String(s) => LdtkFieldValue::String(s.clone()),
        LdtkFieldValue::Color(c) => LdtkFieldValue::Color(c.clone()),
        LdtkFieldValue::Point(p) => LdtkFieldValue::Point(*p),
        LdtkFieldValue::Tile(t) => LdtkFieldValue::Tile(
            match t {
                Some(rect) => Some(LdtkTilesetRect {
                    tileset_uid: rect.tileset_uid,
                    position: rect.position,
                    size: rect.size,
                }),
                None => None,
            },
        ),
        LdtkFieldValue::EntityRef(e) => LdtkFieldValue::EntityRef(
            LdtkEntityReference {
                entity_iid: e.entity_iid.clone(),
                layer_iid: e.layer_iid.clone(),
                level_iid: e.level_iid.clone(),
                world_iid: e.world_iid.clone(),
            },
        ),
        LdtkFieldValue::Array(items) => {
            let mut out: Vec<LdtkFieldValue> = Vec::new();
            let mut i: usize = 0;
            while i < items.len()
                invariant
                    *v == LdtkFieldValue::Array(*items),
                    i <= items@.len(),
                    out@.len() == i,
                    forall|j: int| 0 <= j < i ==> same_field_value(#[trigger] out@[j], items@[j]),
                decreases items@.len() - i,
            {
                proof {
                    broadcast use vstd::std_specs::vec::axiom_vec_index_decreases;
                    assert(decreases_to!(*v => v->Array_0));
                    assert(decreases_to!(v->Array_0 => v->Array_0[i as int]));
                }
                let item = clone_field_value(&items[i]);
                let ghost before = out@;
                out.push(item);
                assert forall|j: int| 0 <= j < i + 1 implies same_field_value(#[trigger] out@[j], items@[j]) by {
                    if j < i {
                        assert(out@[j] == before[j]);
                    }
                }
                i = i + 1;
            }
            LdtkFieldValue::Array(out)
        },
        LdtkFieldValue::Null => LdtkFieldValue::Null,
    };
    r
}

impl Clone for LdtkFieldValue {
    /// See [`clone_field_value`].
    fn clone(&self) -> (r: Self)
        ensures
            same_field_value(r, *self),
    {
        clone_field_value(self)
    }
}

impl LdtkFieldValue {
    /// Returns the inner `bool` of a `Bool` value, otherwise `None`.
    pub fn as_bool(&self) -> (r: Option<bool>)
        ensures
            r == (match self {
                LdtkFieldValue::Bool(v) => Some(*v),
                _ => None,
            }),
    {
        match self {
            LdtkFieldValue::Bool(value) => Some(*value),
            _ => None,
        }
    }

    /// Returns the inner `i64` of an `Int` value, otherwise `None`.
    pub fn as_i64(&self) -> (r: Option<i64>)
        ensures
            r == (match self {
                LdtkFieldValue::Int(v) => Some(*v),
                _ => None,
            }),
    {
        match self {
            LdtkFieldValue::Int(value) => Some(*value),
            _ => None,
        }
    }

    /// Returns the text of a `String` value, otherwise `None`.
    pub fn as_str(&self) -> (r: Option<&str>)
        ensures
            match self {
                LdtkFieldValue::String(v) => r is Some && r->0@ == v@,
                _ => r is None,
            },
    {
        match self {
            LdtkFieldValue::String(value) => Some(value.as_str()),
            _ => None,
        }
    }

    /// Returns `Some(inner)` for a `Point` value (the inner point may itself be
    /// `None`), otherwise `None`.
    pub fn as_point(&self) -> (r: Option<Option<IVec2>>)
        ensures
            r == (match self {
                LdtkFieldValue::Point(v) => Some(*v),
                _ => None,
            }),
    {
        match self {
            LdtkFieldValue::Point(value) => Some(*value),
            _ => None,
        }
    }

    /// Returns `Some(inner)` for a `Tile` value (the inner rectangle may itself
    /// be `None`), otherwise `None`.
    pub fn as_tile(&self) -> (r: Option<Option<&LdtkTilesetRect>>)
        ensures
            match self {
                LdtkFieldValue::Tile(v) => r is Some && match v {
                    Some(rect) => r->0 is Some && *r->0->0 == *rect,
                    None => r->0 is None,
                },
                _ => r is None,
            },
    {
        match self {
            LdtkFieldValue::Tile(value) => Some(value.as_ref()),
            _ => None,
        }
    }
}

/// The custom field values of an entity, keyed by field identifier.
#[derive(Debug)]
pub struct LdtkFieldMap {
    entries: Vec<(String, LdtkFieldValue)>,
}

/// No two entries share a key.
pub open spec fn keys_distinct(entries: Seq<(String, LdtkFieldValue)>) -> bool {
    forall|i: int, j: int|
        0 <= i < entries.len() && 0 <= j < entries.len() && i != j
            ==> #[trigger] entries[i].0@ != #[trigger] entries[j].0@
}

/// The map that a list of entries with distinct keys stands for.
pub open spec fn entries_map(entries: Seq<(String, LdtkFieldValue)>) -> Map<Seq<char>, LdtkFieldValue> {
    Map::new(
        |k: Seq<char>| exists|i: int| 0 <= i < entries.len() && entries[i].0@ == k,
        |k: Seq<char>| entries[choose|i: int| 0 <= i < entries.len() && entries[i].0@ == k].1,
    )
}

impl View for LdtkFieldMap {
    type V = Map<Seq<char>, LdtkFieldValue>;

    closed spec fn view(&self) -> Map<Seq<char>, LdtkFieldValue> {
        entries_map(self.entries@)
    }
}

proof fn lemma_entry_in_map(entries: Seq<(String, LdtkFieldValue)>, i: int)
    requires
        keys_distinct(entries),
        0 <= i < entries.len(),
    ensures
        entries_map(entries).contains_key(entries[i].0@),
        entries_map(entries)[entries[i].0@] == entries[i].1,
{
    let k = entries[i].0@;
    assert(exists|j: int| 0 <= j < entries.len() && entries[j].0@ == k);
    let c = choose|j: int| 0 <= j < entries.len() && entries[j].0@ == k;
    assert(c == i);
}

proof fn lemma_update_entry(
    entries: Seq<(String, LdtkFieldValue)>,
    i: int,
    key: String,
    value: LdtkFieldValue,
)
    requires
        keys_distinct(entries),
        0 <= i < entries.len(),
        entries[i].0@ == key@,
    ensures
        keys_distinct(entries.update(i, (key, value))),
        entries_map(entries.update(i, (key, value))) == entries_map(entries).insert(key@, value),
{
    let e2 = entries.update(i, (key, value));
    assert(keys_distinct(e2)) by {
        assert forall|a: int, b: int|
            0 <= a < e2.len() && 0 <= b < e2.len() && a != b implies #[trigger] e2[a].0@ != #[trigger] e2[b].0@ by {
            assert(entries[a].0@ != entries[b].0@);
        }
    }
    let m1 = entries_map(entries).insert(key@, value);
    let m2 = entries_map(e2);
    assert forall|k: Seq<char>| m1.contains_key(k) <==> m2.contains_key(k) by {
        if k == key@ {
            assert(e2[i].0@ == k);
        } else if m1.contains_key(k) {
            let j = choose|j: int| 0 <= j < entries.len() && entries[j].0@ == k;
            assert(e2[j].0@ == k);
        } else if m2.contains_key(k) {
            let j = choose|j: int| 0 <= j < e2.len() && e2[j].0@ == k;
            assert(entries[j].0@ == k);
        }
    }
    assert forall|k: Seq<char>| #[trigger] m2.contains_key(k) implies m1[k] == m2[k] by {
        let j = choose|j: int| 0 <= j < e2.len() && e2[j].0@ == k;
        lemma_entry_in_map(e2, j);
        if k != key@ {
            assert(j != i);
            lemma_entry_in_map(entries, j);
        }
    }
    assert(m1 =~= m2);
}

proof fn lemma_push_entry(entries: Seq<(String, LdtkFieldValue)>, key: String, value: LdtkFieldValue)
    requires
        keys_distinct(entries),
        !entries_map(entries).contains_key(key@),
    ensures
        keys_distinct(entries.push((key, value))),
        entries_map(entries.push((key, value))) == entries_map(entries).insert(key@, value),
{
    let e2 = entries.push((key, value));
    let n = entries.len() as int;
    assert forall|j: int| 0 <= j < n implies entries[j].0@ != key@ by {
        if entries[j].0@ == key@ {
            assert(entries_map(entries).contains_key(key@));
        }
    }
    assert(keys_distinct(e2)) by {
        assert forall|a: int, b: int|
            0 <= a < e2.len() && 0 <= b < e2.len() && a != b implies #[trigger] e2[a].0@ != #[trigger] e2[b].0@ by {
            if a < n && b < n {
                assert(entries[a].0@ != entries[b].0@);
            }
        }
    }
    let m1 = entries_map(entries).insert(key@, value);
    let m2 = entries_map(e2);
    assert forall|k: Seq<char>| m1.contains_key(k) <==> m2.contains_key(k) by {
        if k == key@ {
            assert(e2[n].0@ == k);
        } else if m1.contains_key(k) {
            let j = choose|j: int| 0 <= j < entries.len() && entries[j].0@ == k;
            assert(e2[j].0@ == k);
        } else if m2.contains_key(k) {
            let j = choose|j: int| 0 <= j < e2.len() && e2[j].0@ == k;
            assert(entries[j].0@ == k);
        }
    }
    assert forall|k: Seq<char>| #[trigger] m2.contains_key(k) implies m1[k] == m2[k] by {
        let j = choose|j: int| 0 <= j < e2.len() && e2[j].0@ == k;
        lemma_entry_in_map(e2, j);
        if k != key@ {
            assert(j != n);
            lemma_entry_in_map(entries, j);
        }
    }
    assert(m1 =~= m2);
}

impl LdtkFieldMap {
    #[verifier::type_invariant]
    spec fn wf(self) -> bool {
        keys_distinct(self.entries@)
    }

    /// An empty map.
    pub fn new() -> (r: Self)
        ensures
            r@ == Map::<Seq<char>, LdtkFieldValue>::empty(),
    {
        let r = LdtkFieldMap { entries: Vec::new() };
        assert(r@ =~= Map::<Seq<char>, LdtkFieldValue>::empty());
        r
    }

    fn index_of(&self, key: &str) -> (r: Option<usize>)
        ensures
            match r {
                Some(i) => i < self.entries@.len() && self.entries@[i as int].0@ == key@,
                None => forall|i: int| 0 <= i < self.entries@.len() ==> self.entries@[i].0@ != key@,
            },
    {
        let mut i: usize = 0;
        while i < self.entries.len()
            invariant
                i <= self.entries@.len(),
                forall|j: int| 0 <= j < i ==> self.entries@[j].0@ != key@,
            decreases self.entries@.len() - i,
        {
            if str_eq(self.entries[i].0.as_str(), key) {
                return Some(i);
            }
            i = i + 1;
        }
        None
    }

    /// The entries, in insertion order.
    pub closed spec fn entries_seq(self) -> Seq<(String, LdtkFieldValue)> {
        self.entries@
    }

    /// Looks up a field by `identifier`, returning `None` when absent.
    pub fn get(&self, identifier: &str) -> (r: Option<&LdtkFieldValue>)
        ensures
            match r {
                Some(v) => self@.contains_key(identifier@) && *v == self@[identifier@],
                None => !self@.contains_key(identifier@),
            },
    {
        proof {
            use_type_invariant(self);
        }
        match self.index_of(identifier) {
            Some(i) => {
                proof {
                    lemma_entry_in_map(self.entries@, i as int);
                }
                Some(&self.entries[i].1)
            },
            None => None,
        }
    }

    /// Sets the value of `identifier`, returning the value it replaced.
    pub fn insert(&mut self, identifier: String, value: LdtkFieldValue) -> (r: Option<LdtkFieldValue>)
        ensures
            final(self)@ == old(self)@.insert(identifier@, value),
            match r {
                Some(v) => old(self)@.contains_key(identifier@) && v == old(self)@[identifier@],
                None => !old(self)@.contains_key(identifier@),
            },
    {
        proof {
            use_type_invariant(&*self);
        }
        let ghost old_entries = self.entries@;
        let ghost key = identifier@;
        match self.index_of(identifier.as_str()) {
            Some(i) => {
                proof {
                    lemma_entry_in_map(old_entries, i as int);
                }
                let mut entries: Vec<(String, LdtkFieldValue)> = Vec::new();
                std::mem::swap(&mut entries, &mut self.entries);
                let (_old_key, old_value) = entries.remove(i);
                entries.insert(i, (identifier, value));
                proof {
                    assert(entries@ == old_entries.update(i as int, (entries@[i as int].0, value)));
                    lemma_update_entry(old_entries, i as int, entries@[i as int].0, value);
                }
                std::mem::swap(&mut entries, &mut self.entries);
                Some(old_value)
            },
            None => {
                let mut entries: Vec<(String, LdtkFieldValue)> = Vec::new();
                std::mem::swap(&mut entries, &mut self.entries);
                let ghost key_string = identifier;
                entries.push((identifier, value));
                proof {
                    lemma_push_entry(old_entries, key_string, value);
                }
                std::mem::swap(&mut entries, &mut self.entries);
                None
            },
        }
    }
}

/// The `Bool` value of field `identifier`, if it has one.
pub open spec fn field_bool_of(fields: Map<Seq<char>, LdtkFieldValue>, identifier: Seq<char>) -> Option<bool> {
    if fields.contains_key(identifier) {
        match fields[identifier] {
            LdtkFieldValue::Bool(b) => Some(b),
            _ => None,
        }
    } else {
        None
    }
}

/// The `Int` value of field `identifier`, if it has one.
pub open spec fn field_i64_of(fields: Map<Seq<char>, LdtkFieldValue>, identifier: Seq<char>) -> Option<i64> {
    if fields.contains_key(identifier) {
        match fields[identifier] {
            LdtkFieldValue::Int(i) => Some(i),
            _ => None,
        }
    } else {
        None
    }
}

/// The text of the `String` value of field `identifier`, if it has one.
pub open spec fn field_str_of(fields: Map<Seq<char>, LdtkFieldValue>, identifier: Seq<char>) -> Option<Seq<char>> {
    if fields.contains_key(identifier) {
        match fields[identifier] {
            LdtkFieldValue::String(s) => Some(s@),
            _ => None,
        }
    } else {
        None
    }
}

/// Typed accessors for anything that carries LDtk field instances.
pub trait LdtkFieldAccess {
    /// The contents of [`Self::field_values`].
    spec fn field_map(&self) -> Map<Seq<char>, LdtkFieldValue>;

    /// Returns a reference to the underlying field-value map.
    fn field_values(&self) -> (r: &LdtkFieldMap)
        ensures
            r@ == self.field_map(),
    ;

    /// Looks up a field by `identifier`, returning `None` when absent.
    fn field(&self, identifier: &str) -> (r: Option<&LdtkFieldValue>)
        ensures
            match r {
                Some(v) => self.field_map().contains_key(identifier@) && *v == self.field_map()[identifier@],
                None => !self.field_map().contains_key(identifier@),
            },
    {
        self.field_values().get(identifier)
    }

    /// Returns the boolean value of `identifier`, or `None` if absent or of a
    /// different type.
    fn field_bool(&self, identifier: &str) -> (r: Option<bool>)
        ensures
            r == field_bool_of(self.field_map(), identifier@),
    {
        match self.field(identifier) {
            Some(v) => v.as_bool(),
            None => None,
        }
    }

    /// Returns the integer value of `identifier`, or `None` if absent or of a
    /// different type.
    fn field_i64(&self, identifier: &str) -> (r: Option<i64>)
        ensures
            r == field_i64_of(self.field_map(), identifier@),
    {
        match self.field(identifier) {
            Some(v) => v.as_i64(),
            None => None,
        }
    }

    /// Returns the text of `identifier`'s value, or `None` if absent or not a
    /// string.
    fn field_str(&self, identifier: &str) -> (r: Option<&str>)
        ensures
            match r {
                Some(s) => field_str_of(self.field_map(), identifier@) == Some(s@),
                None => field_str_of(self.field_map(), identifier@) is None,
            },
    {
        match self.field(identifier) {
            Some(v) => v.as_str(),
            None => None,
        }
    }
}

impl Default for LdtkFieldMap {
    fn default() -> (r: Self)
        ensures
            r@ == Map::<Seq<char>, LdtkFieldValue>::empty(),
    {
        LdtkFieldMap::new()
    }
}

impl Clone for LdtkFieldMap {
    /// A copy with the same fields, each value copied by [`clone_field_value`].
    fn clone(&self) -> (r: Self)
        ensures
            r@.dom() == self@.dom(),
            forall|k: Seq<char>| #[trigger] r@.contains_key(k) ==> same_field_value(r@[k], self@[k]),
    {
        proof {
            use_type_invariant(self);
        }
        let mut entries: Vec<(String, LdtkFieldValue)> = Vec::new();
        let mut i: usize = 0;
        while i < self.entries.len()
            invariant
                keys_distinct(self.entries@),
                i <= self.entries@.len(),
                entries@.len() == i,
                forall|j: int| 0 <= j < i ==> #[trigger] entries@[j].0@ == self.entries@[j].0@,
                forall|j: int| 0 <= j < i ==> same_field_value(#[trigger] entries@[j].1, self.entries@[j].1),
            decreases self.entries@.len() - i,
        {
            let key = self.entries[i].0.clone();
            let value = clone_field_value(&self.entries[i].1);
            entries.push((key, value));
            i = i + 1;
        }
        let ghost old_e = self.entries@;
        let ghost new_e = entries@;
        proof {
            assert(keys_distinct(new_e)) by {
                assert forall|a: int, b: int|
                    0 <= a < new_e.len() && 0 <= b < new_e.len() && a != b implies #[trigger] new_e[a].0@ != #[trigger] new_e[b].0@ by {
                    assert(old_e[a].0@ != old_e[b].0@);
                }
            }
            assert forall|k: Seq<char>| entries_map(new_e).contains_key(k) <==> entries_map(old_e).contains_key(k) by {
                if entries_map(new_e).contains_key(k) {
                    let j = choose|j: int| 0 <= j < new_e.len() && new_e[j].0@ == k;
                    assert(old_e[j].0@ == k);
                }
                if entries_map(old_e).contains_key(k) {
                    let j = choose|j: int| 0 <= j < old_e.len() && old_e[j].0@ == k;
                    assert(new_e[j].0@ == k);
                }
            }
            assert(entries_map(new_e).dom() =~= entries_map(old_e).dom());
            assert forall|k: Seq<char>| #[trigger] entries_map(new_e).contains_key(k) implies same_field_value(
                entries_map(new_e)[k],
                entries_map(old_e)[k],
            ) by {
                let j = choose|j: int| 0 <= j < new_e.len() && new_e[j].0@ == k;
                lemma_entry_in_map(new_e, j);
                lemma_entry_in_map(old_e, j);
            }
        }
        LdtkFieldMap { entries }
    }
}


/// A field value as LDtk stores it, before unset values are filled in:
/// single values may be unset, and so may array entries. A floating-point
/// value is held by the bits of its `f64`.
#[derive(Debug, Clone)]
pub enum LdtkRawFieldValue {
    /// An integer, if set.
    Int(Option<i32>),
    /// A floating-point number (bits of the `f64`), if set.
    Float(Option<u64>),
    /// A boolean.
    Bool(bool),
    /// A string, if set.
    String(Option<String>),
    /// A colour.
    Color(Color),
    /// A file path, if set.
    FilePath(Option<String>),
    /// An enum value, if set.
    Enum(Option<String>),
    /// A tileset rectangle, if set.
    Tile(Option<LdtkTilesetRect>),
    /// An entity reference, if set.
    EntityRef(Option<LdtkEntityReference>),
    /// A grid point, if set.
    Point(Option<IVec2>),
    /// Integers, each possibly unset.
    Ints(Vec<Option<i32>>),
    /// Floating-point numbers (bits of each `f64`), each possibly unset.
    Floats(Vec<Option<u64>>),
    /// Booleans.
    Bools(Vec<bool>),
    /// Strings, each possibly unset.
    Strings(Vec<Option<String>>),
    /// File paths, each possibly unset.
    FilePaths(Vec<Option<String>>),
    /// Enum values, each possibly unset.
    Enums(Vec<Option<String>>),
    /// Colours.
    Colors(Vec<Color>),
    /// Tileset rectangles, each possibly unset.
    Tiles(Vec<Option<LdtkTilesetRect>>),
    /// Entity references, each possibly unset.
    EntityRefs(Vec<Option<LdtkEntityReference>>),
    /// Grid points, each possibly unset.
    Points(Vec<Option<IVec2>>),
}

/// `a` and `b` name the same entity instance: the same four IIDs.
pub open spec fn same_reference(a: LdtkEntityReference, b: LdtkEntityReference) -> bool {
    &&& a.entity_iid@ == b.entity_iid@
    &&& a.layer_iid@ == b.layer_iid@
    &&& a.level_iid@ == b.level_iid@
    &&& a.world_iid@ == b.world_iid@
}

/// `v` is a string value with the characters `text`.
pub open spec fn is_text(v: LdtkFieldValue, text: Seq<char>) -> bool {
    v matches LdtkFieldValue::String(s) && s@ == text
}

/// The text of an optional string, an unset one read as empty.
pub open spec fn text_or_empty(s: Option<String>) -> Seq<char> {
    match s {
        Some(t) => t@,
        None => Seq::empty(),
    }
}

/// `v` is the item of a string array entry `x`: its text, or `Null` when
/// unset.
pub open spec fn text_item_matches(v: LdtkFieldValue, x: Option<String>) -> bool {
    match x {
        Some(s) => is_text(v, s@),
        None => v == LdtkFieldValue::Null,
    }
}

/// `v` is the item of an entity-reference array entry `x`: the same
/// reference, or `Null` when unset.
pub open spec fn reference_item_matches(v: LdtkFieldValue, x: Option<LdtkEntityReference>) -> bool {
    match x {
        Some(e) => v matches LdtkFieldValue::EntityRef(got) && same_reference(got, e),
        None => v == LdtkFieldValue::Null,
    }
}

/// `v` is an entity-reference value for `x`: the same reference, or one
/// with four empty IIDs when unset.
pub open spec fn reference_value_matches(v: LdtkFieldValue, x: Option<LdtkEntityReference>) -> bool {
    v matches LdtkFieldValue::EntityRef(got) && match x {
        Some(e) => same_reference(got, e),
        None => got.entity_iid@.len() == 0 && got.layer_iid@.len() == 0 && got.level_iid@.len() == 0
            && got.world_iid@.len() == 0,
    }
}

/// The item of a raw array entry `x`.
pub open spec fn int_item(x: Option<i32>) -> LdtkFieldValue {
    match x { Some(i) => LdtkFieldValue::Int(i as i64), None => LdtkFieldValue::Null }
}

/// The item of a raw array entry `x`.
pub open spec fn float_item(x: Option<u64>) -> LdtkFieldValue {
    match x { Some(b) => LdtkFieldValue::Float(b), None => LdtkFieldValue::Null }
}

/// The item of a raw array entry `x`.
pub open spec fn bool_item(x: bool) -> LdtkFieldValue {
    LdtkFieldValue::Bool(x)
}

/// The item of a raw array entry `x`.
pub open spec fn color_item(x: Color) -> LdtkFieldValue {
    LdtkFieldValue::Color(x)
}

/// The item of a raw array entry `x`.
pub open spec fn tile_item(x: Option<LdtkTilesetRect>) -> LdtkFieldValue {
    LdtkFieldValue::Tile(x)
}

/// The item of a raw array entry `x`.
pub open spec fn point_item(x: Option<IVec2>) -> LdtkFieldValue {
    LdtkFieldValue::Point(x)
}

/// `items` are the items of the raw array `raw`, position by position.
pub open spec fn items_match<T>(items: Seq<LdtkFieldValue>, raw: Seq<T>, item_ok: spec_fn(LdtkFieldValue, T) -> bool) -> bool {
    items.len() == raw.len() && forall|i: int| 0 <= i < raw.len() ==> #[trigger] item_ok(items[i], raw[i])
}

/// The typed value of a raw field value: an unset integer, number or string
/// (also a file path or an enum value) is `0` or empty, an unset entity
/// reference has empty IIDs, and each array holds its entries in order, an
/// unset entry as `Null`.
pub open spec fn raw_value_matches(raw: LdtkRawFieldValue, r: LdtkFieldValue) -> bool {
    match raw {
        LdtkRawFieldValue::Int(v) => r == LdtkFieldValue::Int(match v { Some(i) => i as i64, None => 0 }),
        LdtkRawFieldValue::Float(v) => r == LdtkFieldValue::Float(match v { Some(b) => b, None => 0 }),
        LdtkRawFieldValue::Bool(b) => r == LdtkFieldValue::Bool(b),
        LdtkRawFieldValue::String(v) => is_text(r, text_or_empty(v)),
        LdtkRawFieldValue::Color(c) => r == LdtkFieldValue::Color(c),
        LdtkRawFieldValue::FilePath(v) => is_text(r, text_or_empty(v)),
        LdtkRawFieldValue::Enum(v) => is_text(r, text_or_empty(v)),
        LdtkRawFieldValue::Tile(t) => r == LdtkFieldValue::Tile(t),
        LdtkRawFieldValue::EntityRef(e) => reference_value_matches(r, e),
        LdtkRawFieldValue::Point(p) => r == LdtkFieldValue::Point(p),
        LdtkRawFieldValue::Ints(v) => r matches LdtkFieldValue::Array(items) && items_match(items@, v@, |a: LdtkFieldValue, x: Option<i32>| a == int_item(x)),
        LdtkRawFieldValue::Floats(v) => r matches LdtkFieldValue::Array(items) && items_match(items@, v@, |a: LdtkFieldValue, x: Option<u64>| a == float_item(x)),
        LdtkRawFieldValue::Bools(v) => r matches LdtkFieldValue::Array(items) && items_match(items@, v@, |a: LdtkFieldValue, x: bool| a == bool_item(x)),
        LdtkRawFieldValue::Strings(v) => r matches LdtkFieldValue::Array(items) && items_match(items@, v@, |a: LdtkFieldValue, x: Option<String>| text_item_matches(a, x)),
        LdtkRawFieldValue::FilePaths(v) => r matches LdtkFieldValue::Array(items) && items_match(items@, v@, |a: LdtkFieldValue, x: Option<String>| text_item_matches(a, x)),
        LdtkRawFieldValue::Enums(v) => r matches LdtkFieldValue::Array(items) && items_match(items@, v@, |a: LdtkFieldValue, x: Option<String>| text_item_matches(a, x)),
        LdtkRawFieldValue::Colors(v) => r matches LdtkFieldValue::Array(items) && items_match(items@, v@, |a: LdtkFieldValue, x: Color| a == color_item(x)),
        LdtkRawFieldValue::Tiles(v) => r matches LdtkFieldValue::Array(items) && items_match(items@, v@, |a: LdtkFieldValue, x: Option<LdtkTilesetRect>| a == tile_item(x)),
        LdtkRawFieldValue::EntityRefs(v) => r matches LdtkFieldValue::Array(items) && items_match(items@, v@, |a: LdtkFieldValue, x: Option<LdtkEntityReference>| reference_item_matches(a, x)),
        LdtkRawFieldValue::Points(v) => r matches LdtkFieldValue::Array(items) && items_match(items@, v@, |a: LdtkFieldValue, x: Option<IVec2>| a == point_item(x)),
    }
}

fn copy_rect(x: &Option<LdtkTilesetRect>) -> (r: Option<LdtkTilesetRect>)
    ensures
        r == *x,
{
    match x {
        Some(rect) => Some(LdtkTilesetRect { tileset_uid: rect.tileset_uid, position: rect.position, size: rect.size }),
        None => None,
    }
}

fn copy_reference(e: &LdtkEntityReference) -> (r: LdtkEntityReference)
    ensures
        same_reference(r, *e),
{
    LdtkEntityReference {
        entity_iid: e.entity_iid.clone(),
        layer_iid: e.layer_iid.clone(),
        level_iid: e.level_iid.clone(),
        world_iid: e.world_iid.clone(),
    }
}

fn text_or_empty_string(s: &Option<String>) -> (r: String)
    ensures
        r@ == text_or_empty(*s),
{
    match s {
        Some(t) => t.clone(),
        None => String::new(),
    }
}

fn int_items(v: &Vec<Option<i32>>) -> (r: Vec<LdtkFieldValue>)
    ensures
        r@.len() == v@.len(),
        forall|i: int| 0 <= i < v@.len() ==> #[trigger] r@[i] == int_item(v@[i]),
{
    let mut r: Vec<LdtkFieldValue> = Vec::new();
    let mut i: usize = 0;
    while i < v.len()
        invariant
            i <= v@.len(),
            r@.len() == i,
            forall|j: int| 0 <= j < i ==> #[trigger] r@[j] == int_item(v@[j]),
        decreases v@.len() - i,
    {
        let x = &v[i];
        let item = match x { Some(i) => LdtkFieldValue::Int(*i as i64), None => LdtkFieldValue::Null };
        r.push(item);
        i = i + 1;
    }
    r
}

fn float_items(v: &Vec<Option<u64>>) -> (r: Vec<LdtkFieldValue>)
    ensures
        r@.len() == v@.len(),
        forall|i: int| 0 <= i < v@.len() ==> #[trigger] r@[i] == float_item(v@[i]),
{
    let mut r: Vec<LdtkFieldValue> = Vec::new();
    let mut i: usize = 0;
    while i < v.len()
        invariant
            i <= v@.len(),
            r@.len() == i,
            forall|j: int| 0 <= j < i ==> #[trigger] r@[j] == float_item(v@[j]),
        decreases v@.len() - i,
    {
        let x = &v[i];
        let item = match x { Some(b) => LdtkFieldValue::Float(*b), None => LdtkFieldValue::Null };
        r.push(item);
        i = i + 1;
    }
    r
}

fn bool_items(v: &Vec<bool>) -> (r: Vec<LdtkFieldValue>)
    ensures
        r@.len() == v@.len(),
        forall|i: int| 0 <= i < v@.len() ==> #[trigger] r@[i] == bool_item(v@[i]),
{
    let mut r: Vec<LdtkFieldValue> = Vec::new();
    let mut i: usize = 0;
    while i < v.len()
        invariant
            i <= v@.len(),
            r@.len() == i,
            forall|j: int| 0 <= j < i ==> #[trigger] r@[j] == bool_item(v@[j]),
        decreases v@.len() - i,
    {
        let x = &v[i];
        let item = LdtkFieldValue::Bool(*x);
        r.push(item);
        i = i + 1;
    }
    r
}

fn color_items(v: &Vec<Color>) -> (r: Vec<LdtkFieldValue>)
    ensures
        r@.len() == v@.len(),
        forall|i: int| 0 <= i < v@.len() ==> #[trigger] r@[i] == color_item(v@[i]),
{
    let mut r: Vec<LdtkFieldValue> = Vec::new();
    let mut i: usize = 0;
    while i < v.len()
        invariant
            i <= v@.len(),
            r@.len() == i,
            forall|j: int| 0 <= j < i ==> #[trigger] r@[j] == color_item(v@[j]),
        decreases v@.len() - i,
    {
        let x = &v[i];
        let item = LdtkFieldValue::Color(x.clone());
        r.push(item);
        i = i + 1;
    }
    r
}

fn tile_items(v: &Vec<Option<LdtkTilesetRect>>) -> (r: Vec<LdtkFieldValue>)
    ensures
        r@.len() == v@.len(),
        forall|i: int| 0 <= i < v@.len() ==> #[trigger] r@[i] == tile_item(v@[i]),
{
    let mut r: Vec<LdtkFieldValue> = Vec::new();
    let mut i: usize = 0;
    while i < v.len()
        invariant
            i <= v@.len(),
            r@.len() == i,
            forall|j: int| 0 <= j < i ==> #[trigger] r@[j] == tile_item(v@[j]),
        decreases v@.len() - i,
    {
        let x = &v[i];
        let item = LdtkFieldValue::Tile(copy_rect(x));
        r.push(item);
        i = i + 1;
    }
    r
}

fn point_items(v: &Vec<Option<IVec2>>) -> (r: Vec<LdtkFieldValue>)
    ensures
        r@.len() == v@.len(),
        forall|i: int| 0 <= i < v@.len() ==> #[trigger] r@[i] == point_item(v@[i]),
{
    let mut r: Vec<LdtkFieldValue> = Vec::new();
    let mut i: usize = 0;
    while i < v.len()
        invariant
            i <= v@.len(),
            r@.len() == i,
            forall|j: int| 0 <= j < i ==> #[trigger] r@[j] == point_item(v@[j]),
        decreases v@.len() - i,
    {
        let x = &v[i];
        let item = LdtkFieldValue::Point(*x);
        r.push(item);
        i = i + 1;
    }
    r
}

fn text_items(v: &Vec<Option<String>>) -> (r: Vec<LdtkFieldValue>)
    ensures
        r@.len() == v@.len(),
        forall|i: int| 0 <= i < v@.len() ==> text_item_matches(#[trigger] r@[i], v@[i]),
{
    let mut r: Vec<LdtkFieldValue> = Vec::new();
    let mut i: usize = 0;
    while i < v.len()
        invariant
            i <= v@.len(),
            r@.len() == i,
            forall|j: int| 0 <= j < i ==> text_item_matches(#[trigger] r@[j], v@[j]),
        decreases v@.len() - i,
    {
        let x = &v[i];
        let item = match x { Some(s) => LdtkFieldValue::String(s.clone()), None => LdtkFieldValue::Null };
        r.push(item);
        i = i + 1;
    }
    r
}

fn reference_items(v: &Vec<Option<LdtkEntityReference>>) -> (r: Vec<LdtkFieldValue>)
    ensures
        r@.len() == v@.len(),
        forall|i: int| 0 <= i < v@.len() ==> reference_item_matches(#[trigger] r@[i], v@[i]),
{
    let mut r: Vec<LdtkFieldValue> = Vec::new();
    let mut i: usize = 0;
    while i < v.len()
        invariant
            i <= v@.len(),
            r@.len() == i,
            forall|j: int| 0 <= j < i ==> reference_item_matches(#[trigger] r@[j], v@[j]),
        decreases v@.len() - i,
    {
        let x = &v[i];
        let item = match x { Some(e) => LdtkFieldValue::EntityRef(copy_reference(e)), None => LdtkFieldValue::Null };
        r.push(item);
        i = i + 1;
    }
    r
}

/// The typed value of a raw field value; see [`raw_value_matches`].
pub fn field_value_from_raw(raw: &LdtkRawFieldValue) -> (r: LdtkFieldValue)
    ensures
        raw_value_matches(*raw, r),
{
    match raw {
        LdtkRawFieldValue::Int(v) => LdtkFieldValue::Int(match v { Some(i) => *i as i64, None => 0 }),
        LdtkRawFieldValue::Float(v) => LdtkFieldValue::Float(match v { Some(b) => *b, None => 0 }),
        LdtkRawFieldValue::Bool(b) => LdtkFieldValue::Bool(*b),
        LdtkRawFieldValue::String(v) => LdtkFieldValue::String(text_or_empty_string(v)),
        LdtkRawFieldValue::Color(c) => LdtkFieldValue::Color(c.clone()),
        LdtkRawFieldValue::FilePath(v) => LdtkFieldValue::String(text_or_empty_string(v)),
        LdtkRawFieldValue::Enum(v) => LdtkFieldValue::String(text_or_empty_string(v)),
        LdtkRawFieldValue::Tile(t) => LdtkFieldValue::Tile(copy_rect(t)),
        LdtkRawFieldValue::EntityRef(e) => LdtkFieldValue::EntityRef(
            match e {
                Some(e) => copy_reference(e),
                None => LdtkEntityReference {
                    entity_iid: String::new(),
                    layer_iid: String::new(),
                    level_iid: String::new(),
                    world_iid: String::new(),
                },
            },
        ),
        LdtkRawFieldValue::Point(p) => LdtkFieldValue::Point(*p),
        LdtkRawFieldValue::Ints(v) => LdtkFieldValue::Array(int_items(v)),
        LdtkRawFieldValue::Floats(v) => LdtkFieldValue::Array(float_items(v)),
        LdtkRawFieldValue::Bools(v) => LdtkFieldValue::Array(bool_items(v)),
        LdtkRawFieldValue::Strings(v) => LdtkFieldValue::Array(text_items(v)),
        LdtkRawFieldValue::FilePaths(v) => LdtkFieldValue::Array(text_items(v)),
        LdtkRawFieldValue::Enums(v) => LdtkFieldValue::Array(text_items(v)),
        LdtkRawFieldValue::Colors(v) => LdtkFieldValue::Array(color_items(v)),
        LdtkRawFieldValue::Tiles(v) => LdtkFieldValue::Array(tile_items(v)),
        LdtkRawFieldValue::EntityRefs(v) => LdtkFieldValue::Array(reference_items(v)),
        LdtkRawFieldValue::Points(v) => LdtkFieldValue::Array(point_items(v)),
    }
}

} // verus!
