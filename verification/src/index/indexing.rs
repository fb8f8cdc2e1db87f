//! Indices: from the value of one property of the vertices of one type to
//! the vertex that holds it.
use vstd::prelude::*;
use vstd::string::*;
use std::collections::BTreeMap;
use crate::base_types::ID;
use crate::constants::INDEX_START_ENTRIES;
use crate::encoding;
use crate::objects::vertex::Vertex;
use crate::base_types::TypeID;
use crate::db::db::DB;
use crate::db::db_methods::{type_by_name, type_lookup_ok};
use crate::iterator::node_iterator::all_nodes;
use crate::objects::objects::ObjectType;
use crate::types::type_management::{IndexAbleType, IndexType};
use serde_json::Value;

verus! {

/// The rules an index was built under.
#[derive(Debug, Clone, Copy, PartialEq, Eq)]
pub struct IndexConstraints {
    nullable: bool,
    no_duplicates: bool,
    auto_increment: bool,
}

impl IndexConstraints {
    pub closed spec fn spec_nullable(self) -> bool {
        self.nullable
    }

    pub closed spec fn spec_no_duplicates(self) -> bool {
        self.no_duplicates
    }

    pub closed spec fn spec_auto_increment(self) -> bool {
        self.auto_increment
    }

    pub fn new(nullable: bool, no_duplicates: bool, auto_increment: bool) -> (r: Self)
        ensures
            r.spec_nullable() == nullable,
            r.spec_no_duplicates() == no_duplicates,
            r.spec_auto_increment() == auto_increment,
    {
        IndexConstraints { nullable, no_duplicates, auto_increment }
    }
}

/// The id stored for key `k` among `pairs`: that of the first pair with
/// that key.
pub open spec fn first_id<K>(pairs: Seq<(K, ID)>, k: K) -> Option<ID>
    decreases pairs.len(),
{
    if pairs.len() == 0 {
        None
    } else if pairs[0].0 == k {
        Some(pairs[0].1)
    } else {
        first_id(pairs.drop_first(), k)
    }
}

/// The map that inserting `pairs` in order builds: a later pair with the
/// same key replaces an earlier one.
pub open spec fn pairs_map<K>(pairs: Seq<(K, ID)>) -> Map<K, ID>
    decreases pairs.len(),
{
    if pairs.len() == 0 {
        Map::empty()
    } else {
        pairs_map(pairs.drop_last()).insert(pairs.last().0, pairs.last().1)
    }
}

/// The entries of an index, by the kind of their keys. Each key occurs
/// once (see `Index::wf`). String keys are held in a vector of pairs: vstd
/// specifies `BTreeMap` only for keys whose ordering laws it knows, and
/// `String` is not among them.
#[derive(Debug)]
pub enum TypeBasedIndex {
    STRING(Vec<(String, ID)>),
    U64(BTreeMap<u64, ID>),
}

/// No key occurs twice.
pub open spec fn keys_distinct<K>(pairs: Seq<(K, ID)>) -> bool {
    forall|i: int, j: int| 0 <= i < j < pairs.len() ==> pairs[i].0 != pairs[j].0
}

/// The keys of the string entries, by their characters.
pub open spec fn str_pairs(v: Seq<(String, ID)>) -> Seq<(Seq<char>, ID)> {
    v.map_values(|p: (String, ID)| (p.0@, p.1))
}

impl TypeBasedIndex {
    /// The name of the kind of keys.
    pub fn type_to_str(&self) -> (r: &str)
        ensures
            r@ == (match self {
                TypeBasedIndex::STRING(_) => "STRING"@,
                TypeBasedIndex::U64(_) => "U64"@,
            }),
    {
        match self {
            TypeBasedIndex::STRING(_) => "STRING",
            TypeBasedIndex::U64(_) => "U64",
        }
    }
}

/// An index over one property.
#[derive(Debug)]
pub struct Index {
    pub constraints: IndexConstraints,
    pub variable_len: bool,
    start_entries: usize,
    tbi: TypeBasedIndex,
}

/// The text of a searched value in an error message: the string itself, or
/// the decimal digits of the number.
pub open spec fn value_text(v: IndexAbleType) -> Seq<char> {
    match v {
        IndexAbleType::STRING(s) => s@,
        IndexAbleType::U64(n) => encoding::decimal_chars(n as nat),
    }
}

/// The error returned for a value of the wrong kind.
pub open spec fn kind_error_text(index_kind: Seq<char>, v: IndexAbleType, value_kind: Seq<char>) -> Seq<char> {
    "Expected index type "@ + index_kind + ", but got value "@ + value_text(v) + " which is of type "@
        + value_kind
}

impl Index {
    /// The entries with string keys, when the index has them.
    pub closed spec fn str_entries(self) -> Option<Seq<(Seq<char>, ID)>> {
        match self.tbi {
            TypeBasedIndex::STRING(v) => Some(str_pairs(v@)),
            TypeBasedIndex::U64(_) => None,
        }
    }

    /// The entries with number keys, when the index has them.
    pub closed spec fn u64_entries(self) -> Option<Map<u64, ID>> {
        match self.tbi {
            TypeBasedIndex::STRING(_) => None,
            TypeBasedIndex::U64(v) => Some(v@),
        }
    }

    pub closed spec fn spec_start_entries(self) -> usize {
        self.start_entries
    }

    pub closed spec fn spec_variable_len(self) -> bool {
        self.variable_len
    }

    pub closed spec fn spec_constraints(self) -> IndexConstraints {
        self.constraints
    }

    /// Each key of the index occurs once.
    pub open spec fn wf(self) -> bool {
        match self.str_entries() {
            Some(e) => keys_distinct(e),
            None => self.u64_entries() is Some,
        }
    }

    /// What looking up `v` gives: the id stored for it, or the error text
    /// for a value of the other kind than the index's keys.
    pub open spec fn lookup_result(self, v: IndexAbleType) -> Result<Option<ID>, Seq<char>> {
        match self.str_entries() {
            Some(e) => match v {
                IndexAbleType::STRING(s) => Ok(first_id(e, s@)),
                IndexAbleType::U64(_) => Err(kind_error_text("STRING"@, v, "U64"@)),
            },
            None => match v {
                IndexAbleType::U64(n) => Ok(map_get(self.u64_entries().unwrap(), n)),
                IndexAbleType::STRING(_) => Err(kind_error_text("U64"@, v, "STRING"@)),
            },
        }
    }

    /// Looks up the vertex id stored for `v`. A value of the other kind than
    /// the index's keys is an error.
    pub fn get(&self, v: IndexAbleType) -> (r: Result<Option<ID>, String>)
        ensures
            r is Ok <==> self.lookup_result(v) is Ok,
            r matches Ok(o) ==> self.lookup_result(v) == Ok::<Option<ID>, Seq<char>>(o),
            r matches Err(m) ==> self.lookup_result(v) == Err::<Option<ID>, Seq<char>>(m@),
    {
        match &self.tbi {
            TypeBasedIndex::STRING(btree) => {
                if let IndexAbleType::STRING(val_str) = &v {
                    Ok(lookup_str(btree, val_str.as_str()))
                } else {
                    Err(kind_error(self.tbi.type_to_str(), &v, v.type_to_str()))
                }
            },
            TypeBasedIndex::U64(btree) => {
                if let IndexAbleType::U64(val_u64) = &v {
                    Ok(lookup_u64(btree, *val_u64))
                } else {
                    Err(kind_error(self.tbi.type_to_str(), &v, v.type_to_str()))
                }
            },
        }
    }
}

/// The id stored for the string key `k`.
fn lookup_str(pairs: &Vec<(String, ID)>, k: &str) -> (r: Option<ID>)
    ensures
        r == first_id(str_pairs(pairs@), k@),
{
    assert(str_pairs(pairs@).skip(0) =~= str_pairs(pairs@));
    let mut i: usize = 0;
    while i < pairs.len()
        invariant
            i <= pairs@.len(),
            first_id(str_pairs(pairs@), k@) == first_id(str_pairs(pairs@).skip(i as int), k@),
        decreases pairs@.len() - i,
    {
        let ghost rest = str_pairs(pairs@).skip(i as int);
        assert(rest[0] == (pairs@[i as int].0@, pairs@[i as int].1));
        if encoding::str_eq(pairs[i].0.as_str(), k) {
            return Some(pairs[i].1);
        }
        assert(rest.drop_first() =~= str_pairs(pairs@).skip(i + 1));
        i += 1;
    }
    None
}

/// Stores `id` for the number key `k`, replacing the id stored for it.
fn insert_u64(map: &mut BTreeMap<u64, ID>, k: u64, id: ID)
    ensures
        final(map)@ == old(map)@.insert(k, id),
{
    broadcast use vstd::laws_cmp::group_laws_cmp, vstd::std_specs::btree::group_btree_axioms;

    map.insert(k, id);
}

/// The id stored for the number key `k`.
fn lookup_u64(map: &BTreeMap<u64, ID>, k: u64) -> (r: Option<ID>)
    ensures
        r == map_get(map@, k),
{
    broadcast use vstd::laws_cmp::group_laws_cmp, vstd::std_specs::btree::group_btree_axioms;

    match map.get(&k) {
        Some(id) => Some(*id),
        None => None,
    }
}

/// Builds the error for a value of the wrong kind.
fn kind_error(index_kind: &str, v: &IndexAbleType, value_kind: &str) -> (r: String)
    ensures
        r@ == kind_error_text(index_kind@, *v, value_kind@),
{
    let mut m = "Expected index type ".to_owned();
    m.append(index_kind);
    m.append(", but got value ");
    match v {
        IndexAbleType::STRING(s) => {
            m.append(s.as_str());
        },
        IndexAbleType::U64(n) => {
            encoding::push_decimal_str(&mut m, *n);
        },
    }
    m.append(" which is of type ");
    m.append(value_kind);
    m
}


/// `first_id` as a map lookup.
pub open spec fn map_get<K>(m: Map<K, ID>, k: K) -> Option<ID> {
    if m.contains_key(k) {
        Some(m[k])
    } else {
        None
    }
}

/// Appending a pair changes the lookup only of a key that was missing.
proof fn lemma_first_id_push<K>(s: Seq<(K, ID)>, p: (K, ID), k: K)
    ensures
        first_id(s.push(p), k) == (if first_id(s, k) is Some {
            first_id(s, k)
        } else if p.0 == k {
            Some(p.1)
        } else {
            None
        }),
    decreases s.len(),
{
    assert(s.push(p)[0] == (if s.len() > 0 {
        s[0]
    } else {
        p
    }));
    if s.len() > 0 {
        assert(s.push(p).drop_first() =~= s.drop_first().push(p));
        lemma_first_id_push(s.drop_first(), p, k);
        assert(first_id(s.push(p), k) == (if s[0].0 == k {
            Some(s[0].1)
        } else {
            first_id(s.drop_first().push(p), k)
        }));
        assert(first_id(s, k) == (if s[0].0 == k {
            Some(s[0].1)
        } else {
            first_id(s.drop_first(), k)
        }));
    } else {
        assert(s.push(p).drop_first() =~= Seq::<(K, ID)>::empty());
        assert(first_id(s.push(p).drop_first(), k) is None);
        assert(first_id(s.push(p), k) == (if p.0 == k {
            Some(p.1)
        } else {
            None
        }));
        assert(first_id(s, k) is None);
    }
}

/// Replacing the first pair with a key changes the lookup of that key only.
proof fn lemma_first_id_update<K>(s: Seq<(K, ID)>, j: int, p: (K, ID), k: K)
    requires
        0 <= j < s.len(),
        s[j].0 == p.0,
        forall|i: int| 0 <= i < j ==> s[i].0 != p.0,
    ensures
        first_id(s.update(j, p), k) == (if k == p.0 {
            Some(p.1)
        } else {
            first_id(s, k)
        }),
    decreases j,
{
    if j > 0 {
        assert(s.update(j, p)[0] == s[0]);
        assert(s.update(j, p).drop_first() =~= s.drop_first().update(j - 1, p));
        lemma_first_id_update(s.drop_first(), j - 1, p, k);
    } else {
        assert(s.update(0, p)[0] == p);
        assert(s.update(0, p).drop_first() =~= s.drop_first());
    }
}

/// Stores `id` for the string key `key`, replacing the id stored for it.
fn upsert_str(store: &mut Vec<(String, ID)>, key: String, id: ID)
    ensures
        keys_distinct(str_pairs(old(store)@)) ==> keys_distinct(str_pairs(final(store)@)),
        forall|k: Seq<char>|
            first_id(str_pairs(final(store)@), k) == (if k == key@ {
                Some(id)
            } else {
                first_id(str_pairs(old(store)@), k)
            }),
{
    let mut j: usize = 0;
    while j < store.len()
        invariant
            j <= store@.len(),
            store@ == old(store)@,
            forall|i: int| 0 <= i < j ==> store@[i].0@ != key@,
        decreases store@.len() - j,
    {
        if encoding::str_eq(store[j].0.as_str(), key.as_str()) {
            let ghost before = str_pairs(store@);
            let ghost kv = key@;
            store.set(j, (key, id));
            proof {
                assert(str_pairs(store@) =~= before.update(j as int, (kv, id)));
                assert(before[j as int].0 == kv);
                assert forall|k: Seq<char>| #[trigger] first_id(str_pairs(store@), k) == (if k == kv {
                    Some(id)
                } else {
                    first_id(before, k)
                }) by {
                    lemma_first_id_update(before, j as int, (kv, id), k);
                }
            }
            return ;
        }
        j += 1;
    }
    let ghost before = str_pairs(store@);
    let ghost kv = key@;
    proof {
        assert forall|k: Seq<char>| k == kv implies first_id(before, k) is None by {
            lemma_first_id_absent(before, k);
        }
    }
    store.push((key, id));
    proof {
        assert(str_pairs(store@) =~= before.push((kv, id)));
        assert forall|i: int| 0 <= i < before.len() implies before[i].0 != kv by {
            assert(before[i].0 == old(store)@[i].0@);
        }
        assert forall|k: Seq<char>| #[trigger] first_id(str_pairs(store@), k) == (if k == kv {
            Some(id)
        } else {
            first_id(before, k)
        }) by {
            lemma_first_id_push(before, (kv, id), k);
        }
    }
}

/// A key that no pair has is not found.
proof fn lemma_first_id_absent<K>(s: Seq<(K, ID)>, k: K)
    requires
        forall|i: int| 0 <= i < s.len() ==> s[i].0 != k,
    ensures
        first_id(s, k) is None,
    decreases s.len(),
{
    if s.len() > 0 {
        lemma_first_id_absent(s.drop_first(), k);
    }
}

/// The string key of entry `e`.
pub open spec fn str_key(e: (IndexAbleType, Vertex)) -> Seq<char> {
    match e.0 {
        IndexAbleType::STRING(s) => s@,
        IndexAbleType::U64(_) => Seq::empty(),
    }
}

/// The number key of entry `e`.
pub open spec fn u64_key(e: (IndexAbleType, Vertex)) -> u64 {
    match e.0 {
        IndexAbleType::STRING(_) => 0,
        IndexAbleType::U64(n) => n,
    }
}

/// Every key of `entries` is of the kind `idx_type` asks for.
pub open spec fn keys_of_kind(entries: Seq<(IndexAbleType, Vertex)>, idx_type: IndexType) -> bool {
    forall|i: int|
        0 <= i < entries.len() ==> match idx_type {
            IndexType::STRING => entries[i].0 is STRING,
            IndexType::U64 => entries[i].0 is U64,
            IndexType::INVALIDTYPE => true,
        }
}

/// The string-keyed entries that inserting `entries` in order builds: a
/// later entry with the same key replaces an earlier one.
fn build_btree_str(entries: &Vec<(IndexAbleType, Vertex)>) -> (r: Vec<(String, ID)>)
    requires
        keys_of_kind(entries@, IndexType::STRING),
    ensures
        keys_distinct(str_pairs(r@)),
        forall|k: Seq<char>|
            first_id(str_pairs(r@), k) == map_get(
                pairs_map(entries@.map_values(|x: (IndexAbleType, Vertex)| (str_key(x), x.1.id))),
                k,
            ),
{
    let ghost src = entries@.map_values(|x: (IndexAbleType, Vertex)| (str_key(x), x.1.id));
    let mut store: Vec<(String, ID)> = Vec::new();
    let mut i: usize = 0;
    while i < entries.len()
        invariant
            i <= entries@.len(),
            keys_of_kind(entries@, IndexType::STRING),
            src == entries@.map_values(|x: (IndexAbleType, Vertex)| (str_key(x), x.1.id)),
            keys_distinct(str_pairs(store@)),
            forall|k: Seq<char>| first_id(str_pairs(store@), k) == map_get(pairs_map(src.take(i as int)), k),
        decreases entries@.len() - i,
    {
        assert(entries@[i as int].0 is STRING);
        let key = match &entries[i].0 {
            IndexAbleType::STRING(s) => s.clone(),
            IndexAbleType::U64(_) => String::new(),
        };
        let id = entries[i].1.id;
        upsert_str(&mut store, key, id);
        assert(src.take(i + 1).drop_last() =~= src.take(i as int));
        i += 1;
    }
    assert(src.take(i as int) =~= src);
    store
}

/// The number-keyed entries that inserting `entries` in order builds: a
/// later entry with the same key replaces an earlier one.
fn build_btree_u64(entries: &Vec<(IndexAbleType, Vertex)>) -> (r: BTreeMap<u64, ID>)
    ensures
        r@ == pairs_map(entries@.map_values(|x: (IndexAbleType, Vertex)| (u64_key(x), x.1.id))),
{
    let ghost src = entries@.map_values(|x: (IndexAbleType, Vertex)| (u64_key(x), x.1.id));
    let mut store: BTreeMap<u64, ID> = BTreeMap::new();
    let mut i: usize = 0;
    assert(src.take(0) =~= Seq::<(u64, ID)>::empty());
    assert(store@ =~= pairs_map(src.take(0)));
    while i < entries.len()
        invariant
            i <= entries@.len(),
            src == entries@.map_values(|x: (IndexAbleType, Vertex)| (u64_key(x), x.1.id)),
            store@ == pairs_map(src.take(i as int)),
        decreases entries@.len() - i,
    {
        let key = match &entries[i].0 {
            IndexAbleType::STRING(_) => 0,
            IndexAbleType::U64(n) => *n,
        };
        let id = entries[i].1.id;
        insert_u64(&mut store, key, id);
        assert(src.take(i + 1).drop_last() =~= src.take(i as int));
        i += 1;
    }
    assert(src.take(i as int) =~= src);
    store
}

/// `idx` is the index that `Index::build` makes of `entries` with these
/// constraints: each key gives the id of the last entry with that key, and
/// each key occurs once.
pub open spec fn built_from(
    idx: Index,
    entries: Seq<(IndexAbleType, Vertex)>,
    constraints: IndexConstraints,
    idx_type: IndexType,
) -> bool {
    &&& idx.spec_constraints() == constraints
    &&& idx.spec_start_entries() == INDEX_START_ENTRIES
    &&& idx.wf()
    &&& idx_type == IndexType::STRING ==> idx.spec_variable_len() && idx.str_entries() is Some
        && forall|k: Seq<char>|
        first_id(idx.str_entries().unwrap(), k) == map_get(
            pairs_map(entries.map_values(|x: (IndexAbleType, Vertex)| (str_key(x), x.1.id))),
            k,
        )
    &&& idx_type == IndexType::U64 ==> !idx.spec_variable_len() && idx.u64_entries() == Some(
        pairs_map(entries.map_values(|x: (IndexAbleType, Vertex)| (u64_key(x), x.1.id))),
    )
}

/// What `serde_json` finds at field `key` of a property text, one case per
/// kind of JSON value, besides text that is not JSON, JSON that is not an
/// object, and an object without the field.
#[derive(Debug)]
pub enum JsonField {
    Invalid,
    NotObject,
    Absent,
    Null,
    Bool,
    Str(String),
    U64(u64),
    OtherNumber,
    Array,
    Object,
}

/// What `serde_json` reads as field `key` of the JSON text `text`.
pub uninterp spec fn spec_json_field(text: Seq<char>, key: Seq<char>) -> JsonField;

/// Parses `text` with `serde_json::from_str` into a `serde_json::Value`,
/// takes it as an object with `as_object` and reads field `key` with `get`.
/// A parse error gives `Invalid`, a value that is not an object
/// `NotObject`, a missing field `Absent`; a present field gives the case of
/// its kind, with the string, or with the number where `as_u64` accepts it.
/// The result is named `spec_json_field`.
#[verifier::external_body]
fn json_field(text: &str, key: &str) -> (r: JsonField)
    ensures
        r == spec_json_field(text@, key@),
{
    let v: Value = match serde_json::from_str(text) { Ok(v) => v, Err(_) => return JsonField::Invalid };
    let f = match v.as_object() { Some(m) => m.get(key), None => return JsonField::NotObject };
    match f {
        None => JsonField::Absent,
        Some(Value::Null) => JsonField::Null,
        Some(Value::Bool(_)) => JsonField::Bool,
        Some(Value::Number(n)) => match n.as_u64() { Some(u) => JsonField::U64(u), None => JsonField::OtherNumber },
        Some(Value::String(s)) => JsonField::Str(s.clone()),
        Some(Value::Array(_)) => JsonField::Array,
        Some(Value::Object(_)) => JsonField::Object,
    }
}

/// The text of the error for a field value of the wrong kind.
pub open spec fn wrong_kind_text() -> Seq<char> {
    "Value type does not match expected type for index."@
}

/// The text of the error for a property text that is not a JSON object.
pub open spec fn not_object_text() -> Seq<char> {
    "Properties of a vertex are not a JSON object."@
}

/// What an index of kind `expected` takes from a field read as `f`:
/// nothing for a missing field, the value for a string in a `STRING` index
/// or a `u64` number in a `U64` index; any other present value is of the
/// wrong kind, and a text that is not a JSON object is refused.
pub open spec fn field_entry(f: JsonField, expected: IndexType) -> Result<Option<IndexAbleType>, Seq<char>> {
    match f {
        JsonField::Invalid => Err(not_object_text()),
        JsonField::NotObject => Err(not_object_text()),
        JsonField::Absent => Ok(None),
        JsonField::Str(s) => match expected {
            IndexType::STRING => Ok(Some(IndexAbleType::STRING(s))),
            _ => Err(wrong_kind_text()),
        },
        JsonField::U64(u) => match expected {
            IndexType::U64 => Ok(Some(IndexAbleType::U64(u))),
            _ => Err(wrong_kind_text()),
        },
        _ => Err(wrong_kind_text()),
    }
}

/// The value that an index of kind `expected` takes from a field read as
/// `f`, as `field_entry` says.
pub fn field_index_value(f: JsonField, expected: IndexType) -> (r: Result<Option<IndexAbleType>, String>)
    ensures
        match field_entry(f, expected) {
            Ok(o) => r == Ok::<Option<IndexAbleType>, String>(o),
            Err(m) => r matches Err(e) && e@ == m,
        },
{
    proof {
        reveal_strlit("Value type does not match expected type for index.");
        reveal_strlit("Properties of a vertex are not a JSON object.");
    }
    match f {
        JsonField::Invalid => Err("Properties of a vertex are not a JSON object.".to_owned()),
        JsonField::NotObject => Err("Properties of a vertex are not a JSON object.".to_owned()),
        JsonField::Absent => Ok(None),
        JsonField::Str(s) => match expected {
            IndexType::STRING => Ok(Some(IndexAbleType::STRING(s))),
            _ => Err("Value type does not match expected type for index.".to_owned()),
        },
        JsonField::U64(u) => match expected {
            IndexType::U64 => Ok(Some(IndexAbleType::U64(u))),
            _ => Err("Value type does not match expected type for index.".to_owned()),
        },
        _ => Err("Value type does not match expected type for index.".to_owned()),
    }
}

/// The entries an index of kind `expected` over field `key` of the
/// vertices of type `type_id` takes from the first `n` vertices, in order:
/// each vertex of that type whose property text has the field, paired with
/// the field's value; the first refusal of `field_entry` is the error.
pub open spec fn entries_upto(
    vs: Seq<Vertex>,
    types: Seq<TypeID>,
    props: Seq<String>,
    type_id: TypeID,
    key: Seq<char>,
    expected: IndexType,
    n: int,
) -> Result<Seq<(IndexAbleType, Vertex)>, Seq<char>>
    decreases n,
{
    if n <= 0 {
        Ok(Seq::empty())
    } else {
        match entries_upto(vs, types, props, type_id, key, expected, n - 1) {
            Err(m) => Err(m),
            Ok(es) => if types[n - 1] != type_id {
                Ok(es)
            } else {
                match field_entry(spec_json_field(props[n - 1]@, key), expected) {
                    Err(m) => Err(m),
                    Ok(None) => Ok(es),
                    Ok(Some(v)) => Ok(es.push((v, vs[n - 1]))),
                }
            },
        }
    }
}

/// The entries for an index of kind `expected` over field `property_name`
/// of the vertices of type `type_id`: `types[i]` and `props[i]` are the
/// type and the property text (a JSON object) of `vertices[i]`. A vertex
/// of that type whose property text has the field contributes the field's
/// value; a value of another kind than `expected`, and a property text
/// that is not a JSON object, is an error.
pub fn index_entries(
    vertices: &Vec<Vertex>,
    types: &Vec<TypeID>,
    props: &Vec<String>,
    type_id: TypeID,
    property_name: &str,
    expected: IndexType,
) -> (r: Result<Vec<(IndexAbleType, Vertex)>, String>)
    requires
        types@.len() == vertices@.len(),
        props@.len() == vertices@.len(),
    ensures
        match entries_upto(vertices@, types@, props@, type_id, property_name@, expected, vertices@.len() as int) {
            Ok(es) => r matches Ok(v) && v@ == es && keys_of_kind(es, expected),
            Err(m) => r matches Err(e) && e@ == m,
        },
{
    let mut out: Vec<(IndexAbleType, Vertex)> = Vec::new();
    let mut i: usize = 0;
    while i < vertices.len()
        invariant
            i <= vertices@.len(),
            types@.len() == vertices@.len(),
            props@.len() == vertices@.len(),
            entries_upto(vertices@, types@, props@, type_id, property_name@, expected, i as int) == Ok::<
                Seq<(IndexAbleType, Vertex)>,
                Seq<char>,
            >(out@),
            keys_of_kind(out@, expected),
        decreases vertices@.len() - i,
    {
        if types[i] == type_id {
            let f = json_field(props[i].as_str(), property_name);
            match field_index_value(f, expected) {
                Ok(Some(v)) => {
                    out.push((v, vertices[i]));
                },
                Ok(None) => {},
                Err(e) => {
                    proof {
                        lemma_entries_upto_err_stays(vertices@, types@, props@, type_id, property_name@, expected, i as int + 1, vertices@.len() as int);
                    }
                    return Err(e);
                },
            }
        }
        i += 1;
    }
    Ok(out)
}

/// Once the entries fail, they fail with the same error for every longer
/// prefix.
proof fn lemma_entries_upto_err_stays(
    vs: Seq<Vertex>,
    types: Seq<TypeID>,
    props: Seq<String>,
    type_id: TypeID,
    key: Seq<char>,
    expected: IndexType,
    n: int,
    m: int,
)
    requires
        0 <= n <= m,
        entries_upto(vs, types, props, type_id, key, expected, n) is Err,
    ensures
        entries_upto(vs, types, props, type_id, key, expected, m) == entries_upto(vs, types, props, type_id, key, expected, n),
    decreases m - n,
{
    if n < m {
        lemma_entries_upto_err_stays(vs, types, props, type_id, key, expected, n, m - 1);
    }
}

impl Index {
    /// Builds an index from `entries`, in order: a later entry with the same
    /// key replaces an earlier one. Every key must be of the kind of the
    /// index; an invalid kind is an error.
    pub fn build(entries: Vec<(IndexAbleType, Vertex)>, constraints: IndexConstraints, idx_type: IndexType) -> (r: Result<Self, String>)
        requires
            keys_of_kind(entries@, idx_type),
        ensures
            r is Err <==> idx_type == IndexType::INVALIDTYPE,
            r matches Err(m) ==> m@ == "Found invalid type. Could not build index"@,
            r matches Ok(idx) ==> idx.spec_constraints() == constraints && idx.spec_start_entries()
                == INDEX_START_ENTRIES && idx.wf(),
            r matches Ok(idx) ==> built_from(idx, entries@, constraints, idx_type),
            idx_type == IndexType::STRING ==> r is Ok && r.unwrap().spec_variable_len()
                && r.unwrap().str_entries() is Some && forall|k: Seq<char>|
                first_id(r.unwrap().str_entries().unwrap(), k) == map_get(
                    pairs_map(entries@.map_values(|x: (IndexAbleType, Vertex)| (str_key(x), x.1.id))),
                    k,
                ),
            idx_type == IndexType::U64 ==> r is Ok && !r.unwrap().spec_variable_len()
                && r.unwrap().u64_entries() == Some(
                pairs_map(entries@.map_values(|x: (IndexAbleType, Vertex)| (u64_key(x), x.1.id))),
            ),
    {
        match idx_type {
            IndexType::STRING => {
                let store = build_btree_str(&entries);
                Ok(
                    Index {
                        constraints,
                        variable_len: true,
                        start_entries: INDEX_START_ENTRIES,
                        tbi: TypeBasedIndex::STRING(store),
                    },
                )
            },
            IndexType::U64 => {
                let store = build_btree_u64(&entries);
                Ok(
                    Index {
                        constraints,
                        variable_len: false,
                        start_entries: INDEX_START_ENTRIES,
                        tbi: TypeBasedIndex::U64(store),
                    },
                )
            },
            IndexType::INVALIDTYPE => Err("Found invalid type. Could not build index".to_owned()),
        }
    }
}


/// An index over property `property_name` of the vertices of type
/// `typename`.
#[derive(Debug)]
pub struct IndexFile {
    pub typename: String,
    pub property_name: String,
    pub idx: Index,
}


/// A key found in the map that inserting `pairs` builds comes from one of
/// the pairs.
proof fn lemma_pairs_map_found<K>(pairs: Seq<(K, ID)>, k: K, id: ID)
    requires
        map_get(pairs_map(pairs), k) == Some(id),
    ensures
        exists|i: int| 0 <= i < pairs.len() && pairs[i] == (k, id),
    decreases pairs.len(),
{
    if pairs.len() > 0 {
        let last = pairs.last();
        if last.0 == k {
            assert(pairs[pairs.len() - 1] == (k, id));
        } else {
            let rest = pairs.drop_last();
            assert(pairs_map(pairs) == pairs_map(rest).insert(last.0, last.1));
            assert(map_get(pairs_map(rest), k) == Some(id));
            lemma_pairs_map_found(rest, k, id);
            let i = choose|i: int| 0 <= i < rest.len() && rest[i] == (k, id);
            assert(pairs[i] == (k, id));
        }
    }
}

/// The entries of `entries_upto` where it succeeds, none where it fails.
pub open spec fn ok_entries(
    vs: Seq<Vertex>,
    types: Seq<TypeID>,
    props: Seq<String>,
    type_id: TypeID,
    key: Seq<char>,
    expected: IndexType,
    n: int,
) -> Seq<(IndexAbleType, Vertex)> {
    match entries_upto(vs, types, props, type_id, key, expected, n) {
        Ok(es) => es,
        Err(_) => Seq::empty(),
    }
}

/// Entry `e` comes from one of the first `n` vertices: one of type
/// `type_id` whose property text gives `e`'s value at field `key`.
pub open spec fn entry_traced(
    vs: Seq<Vertex>,
    types: Seq<TypeID>,
    props: Seq<String>,
    type_id: TypeID,
    key: Seq<char>,
    expected: IndexType,
    n: int,
    e: (IndexAbleType, Vertex),
) -> bool {
    exists|j: int|
        #![trigger vs[j]]
        0 <= j < n && types[j] == type_id && field_entry(spec_json_field(props[j]@, key), expected)
            == Ok::<Option<IndexAbleType>, Seq<char>>(Some(e.0)) && e.1 == vs[j]
}

/// Every entry comes from a vertex of the indexed type whose property
/// text holds the entry's value at the field.
proof fn lemma_entries_from_vertices(
    vs: Seq<Vertex>,
    types: Seq<TypeID>,
    props: Seq<String>,
    type_id: TypeID,
    key: Seq<char>,
    expected: IndexType,
    n: int,
)
    requires
        0 <= n <= vs.len(),
        n <= types.len(),
        n <= props.len(),
        entries_upto(vs, types, props, type_id, key, expected, n) is Ok,
    ensures
        forall|i: int|
            0 <= i < ok_entries(vs, types, props, type_id, key, expected, n).len() ==> #[trigger] entry_traced(
                vs,
                types,
                props,
                type_id,
                key,
                expected,
                n,
                ok_entries(vs, types, props, type_id, key, expected, n)[i],
            ),
    decreases n,
{
    if n > 0 {
        lemma_entries_from_vertices(vs, types, props, type_id, key, expected, n - 1);
        let prev = ok_entries(vs, types, props, type_id, key, expected, n - 1);
        let es = ok_entries(vs, types, props, type_id, key, expected, n);
        assert forall|i: int| 0 <= i < es.len() implies #[trigger] entry_traced(
            vs,
            types,
            props,
            type_id,
            key,
            expected,
            n,
            es[i],
        ) by {
            if i < prev.len() {
                assert(es[i] == prev[i]);
                assert(entry_traced(vs, types, props, type_id, key, expected, n - 1, prev[i]));
                let j = choose|j: int|
                    #![trigger vs[j]]
                    0 <= j < n - 1 && types[j] == type_id && field_entry(spec_json_field(props[j]@, key), expected)
                        == Ok::<Option<IndexAbleType>, Seq<char>>(Some(prev[i].0)) && prev[i].1 == vs[j];
                assert(0 <= j < n);
            } else {
                assert(types[n - 1] == type_id);
                assert(es[i].1 == vs[n - 1]);
                assert(field_entry(spec_json_field(props[n - 1]@, key), expected)
                    == Ok::<Option<IndexAbleType>, Seq<char>>(Some(es[i].0)));
            }
        }
    }
}

/// The field read as `f` holds the value searched for: the same string or
/// the same number.
pub open spec fn field_holds(f: JsonField, searched: IndexAbleType) -> bool {
    match (f, searched) {
        (JsonField::Str(a), IndexAbleType::STRING(b)) => a@ == b@,
        (JsonField::U64(a), IndexAbleType::U64(b)) => a == b,
        _ => false,
    }
}

/// A lookup in an index built from the entries of the stored vertices
/// finds a vertex of the indexed type whose property holds the searched
/// value: for index kinds STRING and U64, a vertex id that the lookup
/// returns is that of some vertex `vs[j]` with `types[j] == type_id` whose
/// property text `props[j]` holds the searched value at field `key`.
pub proof fn lemma_index_lookup_finds_indexed_vertex(
    vs: Seq<Vertex>,
    types: Seq<TypeID>,
    props: Seq<String>,
    type_id: TypeID,
    key: Seq<char>,
    expected: IndexType,
    idx: Index,
    c: IndexConstraints,
    v: IndexAbleType,
    id: ID,
)
    requires
        types.len() == vs.len(),
        props.len() == vs.len(),
        entries_upto(vs, types, props, type_id, key, expected, vs.len() as int) is Ok,
        built_from(idx, entries_upto(vs, types, props, type_id, key, expected, vs.len() as int)->Ok_0, c, expected),
        expected != IndexType::INVALIDTYPE,
        idx.lookup_result(v) == Ok::<Option<ID>, Seq<char>>(Some(id)),
    ensures
        exists|j: int|
            #![trigger vs[j]]
            0 <= j < vs.len() && types[j] == type_id && vs[j].id == id && field_holds(
                spec_json_field(props[j]@, key),
                v,
            ),
{
    let es = ok_entries(vs, types, props, type_id, key, expected, vs.len() as int);
    lemma_entries_from_vertices(vs, types, props, type_id, key, expected, vs.len() as int);
    if expected == IndexType::STRING {
        let k = match v { IndexAbleType::STRING(s) => s@, IndexAbleType::U64(_) => Seq::empty() };
        assert(v is STRING);
        let ps = es.map_values(|x: (IndexAbleType, Vertex)| (str_key(x), x.1.id));
        assert(first_id(idx.str_entries().unwrap(), k) == Some(id));
        lemma_pairs_map_found(ps, k, id);
        let i = choose|i: int| 0 <= i < ps.len() && ps[i] == (k, id);
        assert(ps[i] == (str_key(es[i]), es[i].1.id));
        assert(entry_traced(vs, types, props, type_id, key, expected, vs.len() as int, es[i]));
        let j = choose|j: int|
            #![trigger vs[j]]
            0 <= j < vs.len() && types[j] == type_id && field_entry(spec_json_field(props[j]@, key), expected)
                == Ok::<Option<IndexAbleType>, Seq<char>>(Some(es[i].0)) && es[i].1 == vs[j];
        assert(0 <= j < vs.len() && types[j] == type_id && vs[j].id == id);
        assert(field_holds(spec_json_field(props[j]@, key), v));
    } else {
        let k = match v { IndexAbleType::STRING(_) => 0u64, IndexAbleType::U64(n) => n };
        assert(v is U64);
        let ps = es.map_values(|x: (IndexAbleType, Vertex)| (u64_key(x), x.1.id));
        assert(map_get(idx.u64_entries().unwrap(), k) == Some(id));
        lemma_pairs_map_found(ps, k, id);
        let i = choose|i: int| 0 <= i < ps.len() && ps[i] == (k, id);
        assert(ps[i] == (u64_key(es[i]), es[i].1.id));
        assert(entry_traced(vs, types, props, type_id, key, expected, vs.len() as int, es[i]));
        let j = choose|j: int|
            #![trigger vs[j]]
            0 <= j < vs.len() && types[j] == type_id && field_entry(spec_json_field(props[j]@, key), expected)
                == Ok::<Option<IndexAbleType>, Seq<char>>(Some(es[i].0)) && es[i].1 == vs[j];
        assert(0 <= j < vs.len() && types[j] == type_id && vs[j].id == id);
        assert(field_holds(spec_json_field(props[j]@, key), v));
    }
}

impl IndexFile {
    /// Builds the index over property `property_name` of the vertices of
    /// type `typename`. The stored vertices are those of the vertex file,
    /// which must fit one page; `types[i]` and `props[i]` give the type and
    /// the property text of the `i`-th of them. An unknown type is answered
    /// with the type lookup's error; a property text that is not a JSON
    /// object, a field value of the wrong kind and an invalid index kind
    /// with their errors. Only vertices can be indexed.
    pub fn new(
        db_handle: &DB,
        typename: String,
        property_name: String,
        expected_type: IndexType,
        object_type: ObjectType,
        constraints: IndexConstraints,
        types: &Vec<TypeID>,
        props: &Vec<String>,
    ) -> (r: Result<Self, String>)
        requires
            type_lookup_ok(*db_handle, typename@),
            object_type == ObjectType::Vertex,
            db_handle.vert_data().len() <= 494,
            types@.len() == all_nodes(db_handle.vert_data()).len(),
            props@.len() == all_nodes(db_handle.vert_data()).len(),
        ensures
            type_by_name(*db_handle, typename@) matches Err(m) ==> (r matches Err(e) && e@ == m),
            type_by_name(*db_handle, typename@) is Ok ==> match entries_upto(
                all_nodes(db_handle.vert_data()),
                types@,
                props@,
                0,
                property_name@,
                expected_type,
                all_nodes(db_handle.vert_data()).len() as int,
            ) {
                Err(m) => r matches Err(e) && e@ == m,
                Ok(es) => if expected_type == IndexType::INVALIDTYPE {
                    r matches Err(e) && e@ == "Found invalid type. Could not build index"@
                } else {
                    r matches Ok(f) && f.typename@ == typename@ && f.property_name@ == property_name@
                        && built_from(f.idx, es, constraints, expected_type)
                },
            },
    {
        let type_id = match db_handle.get_type_by_str_with_id(typename.as_str()) {
            Ok((_, id)) => id,
            Err(e) => {
                return Err(e);
            },
        };
        let vertices = db_handle.get_all_nodes();
        let entries = match index_entries(&vertices, types, props, type_id, property_name.as_str(), expected_type) {
            Ok(es) => es,
            Err(e) => {
                return Err(e);
            },
        };
        let idx = match Index::build(entries, constraints, expected_type) {
            Ok(idx) => idx,
            Err(e) => {
                return Err(e);
            },
        };
        Ok(IndexFile { typename, property_name, idx })
    }
}

} // verus!
