//! The operations of the graph database as methods of its handle.
use vstd::prelude::*;
use crate::base_types::{PropertyId, RelationshipId, TypeID, VertexId};
use crate::db::db::{DB, DBInner};
use crate::errors::{RelationshipCreationError, VertexCreationError, VertexCreationFailure};
use crate::io::write::{rel_data_after, rel_storable, rel_writable, vert_data_after, vertex_writable};
use crate::methods;
use crate::io::file_image::read_ok;
use crate::io::write::{add_rel_ok, added_rel, lemma_vertex_read_after_write, linked_rd, linked_vd, new_vertex_record};
use crate::iterator::dfs_iterator::DfsIterator;
use crate::iterator::node_iterator::all_nodes;
use crate::iterator::relationship_iterator::{ring_rels, RelationshipIterator};
use crate::methods::{ingoing_rels, neighbor_ids, outgoing_rels, rel_lookup, ring_readable, stored_rel_count};
use crate::constants::{
    MAX_TYPE_IDS, PAGE_SIZE, RELATIONSHIP_NULL_ID, START_TYPES, START_TYPE_CONSTRAINTS, TYPE_NAME_LENGTH, TYPE_REF_BYTE_LENGTH,
    VERTEX_BYTE_LENGTH,
};
use crate::encoding;
use crate::index::indexing::{built_from, keys_of_kind, Index, IndexConstraints, IndexFile};
use crate::objects::relationship::rel_at;
use crate::types::type_management::{
    data_after_add,
    fields_bytes,
    fields_read,
    fields_readable,
    find_scan,
    find_scan_ok,
    type_offset,
    type_read,
    lemma_add_type_then_get,
    lemma_find_scan_finds_stored_name,
    page_of,
    lemma_add_type_then_get_constraints,
    ConstraintInfo,
    Constraints,
    IndexAbleType,
    IndexType,
    TypeRef,
};
use crate::objects::relationship::Relationship;
use crate::objects::vertex::{spec_offset_vert, vertex_at, vertex_in, Vertex};

verus! {

impl DB {
    /// A handle on the database with the given files.
    pub fn new(db: DBInner) -> (r: Self)
        ensures
            r.db == db,
    {
        DB { db }
    }

    pub fn get_node(&self, node_id: VertexId) -> (r: Result<Vertex, VertexCreationError>)
        requires
            vertex_in(self.vert_data(), node_id),
        ensures
            r matches Ok(v) && v == vertex_at(self.vert_data(), node_id),
    {
        methods::get_node(self, node_id)
    }

    pub fn update_node(&mut self, node_id: VertexId, new_node: Vertex) -> (r: Result<
        (),
        VertexCreationError,
    >)
        requires
            vertex_writable(node_id),
        ensures
            r is Ok,
            final(self).vert_data() == vert_data_after(
                old(self).vert_data(),
                Vertex { id: node_id, vertex: new_node.vertex },
            ),
            old(self).same_but_vert_data(*final(self)),
            vertex_in(final(self).vert_data(), node_id) && vertex_at(final(self).vert_data(), node_id)
                == (Vertex { id: node_id, vertex: new_node.vertex }),
            forall|id: VertexId|
                id != node_id && vertex_in(old(self).vert_data(), id) ==> vertex_in(
                    final(self).vert_data(),
                    id,
                ) && #[trigger] vertex_at(final(self).vert_data(), id) == vertex_at(
                    old(self).vert_data(),
                    id,
                ),
    {
        methods::update_node(self, node_id, new_node)
    }

    pub fn update_relationship(&mut self, rel_id: RelationshipId, new_rel: Relationship) -> (r:
        Result<(), RelationshipCreationError>)
        requires
            rel_writable(rel_id),
        ensures
            r is Ok <==> rel_storable(Relationship { id: rel_id, rel: new_rel.rel }),
            r is Ok ==> final(self).rel_data() == rel_data_after(
                old(self).rel_data(),
                Relationship { id: rel_id, rel: new_rel.rel },
            ),
            r is Err ==> final(self).rel_data() == old(self).rel_data(),
            old(self).same_but_rel_data(*final(self)),
    {
        methods::update_relationship(self, rel_id, new_rel)
    }

    pub fn get_relationship(&self, rel_id: RelationshipId) -> (r: Option<Relationship>)
        ensures
            r == rel_lookup(self.rel_data(), rel_id),
    {
        methods::get_relationship(self, rel_id)
    }

    /// Adds a vertex with the given first property; see `add_new_node`.
    pub fn add_node(&mut self, node_type: TypeID, first_prop: Option<PropertyId>) -> (r: Result<
        VertexId,
        VertexCreationError,
    >)
        requires
            old(self).db.f_vert.first_available_id < u32::MAX,
            vertex_writable(old(self).db.f_vert.first_available_id),
            type_node_ok(*old(self), node_type),
        ensures
            type_by_id(*old(self), node_type) is Err ==> (r matches Err(e) && e.reason
                == VertexCreationFailure::Other && e.message@ == "Getting type from type_id failed"@
                && *final(self) == *old(self)),
            type_by_id(*old(self), node_type) is Ok ==> ({
                let id = old(self).db.f_vert.first_available_id;
                &&& r == Ok::<VertexId, VertexCreationError>(id)
                &&& final(self).vert_data() == vert_data_after(
                    old(self).vert_data(),
                    Vertex { id, vertex: new_vertex_record(first_prop) },
                )
                &&& final(self).db.f_vert.first_available_id == id + 1
                &&& final(self).db.f_rel == old(self).db.f_rel
                &&& final(self).db.f_prop == old(self).db.f_prop
                &&& final(self).db.f_tp == old(self).db.f_tp
                &&& final(self).db.indices == old(self).db.indices
            }),
    {
        methods::add_node(self, node_type, first_prop)
    }

    /// Adds a relationship; see `add_new_relationship`.
    pub fn add_relationship(
        &mut self,
        start_vertex: VertexId,
        end_vertex: VertexId,
        rel_type: TypeID,
        first_prop: PropertyId,
    ) -> (r: Result<RelationshipId, RelationshipCreationError>)
        requires
            add_rel_ok(*old(self), start_vertex, end_vertex),
        ensures
            r is Ok <==> start_vertex != end_vertex,
            r matches Ok(id) ==> id == old(self).db.f_rel.first_available_id,
            final(self).vert_data() == linked_vd(*old(self), start_vertex, end_vertex),
            r is Ok ==> final(self).rel_data() == rel_data_after(
                linked_rd(*old(self), start_vertex, end_vertex),
                added_rel(*old(self), start_vertex, end_vertex, rel_type, first_prop),
            ),
            r is Err ==> final(self).rel_data() == linked_rd(*old(self), start_vertex, end_vertex),
            final(self).db.f_rel.first_available_id == old(self).db.f_rel.first_available_id + 1,
    {
        methods::add_relationship(self, start_vertex, end_vertex, rel_type, first_prop)
    }

    pub fn get_all_nodes(&self) -> (r: Vec<Vertex>)
        requires
            self.vert_data().len() <= 494,
        ensures
            r@ == all_nodes(self.vert_data()),
    {
        methods::get_all_nodes(self)
    }

    pub fn get_all_relationships(&self) -> (r: Vec<Relationship>)
        ensures
            r@ == Seq::new(
                stored_rel_count(self.rel_data()),
                |k: int| rel_at(self.rel_data(), k as RelationshipId),
            ),
    {
        methods::get_all_relationships(self)
    }

    pub fn get_ingoing_relationships(&self, node_id: VertexId) -> (r: Vec<Relationship>)
        requires
            ring_readable(*self, node_id),
        ensures
            r@ == ingoing_rels(*self, node_id),
    {
        methods::get_ingoing_relationships(self, node_id)
    }

    pub fn get_outgoing_relationships(&self, node_id: VertexId) -> (r: Vec<Relationship>)
        requires
            ring_readable(*self, node_id),
        ensures
            r@ == outgoing_rels(*self, node_id),
    {
        methods::get_outgoing_relationships(self, node_id)
    }

    pub fn get_neighboring_ids(&self, node_id: VertexId) -> (r: Vec<VertexId>)
        requires
            ring_readable(*self, node_id),
        ensures
            r@ == neighbor_ids(*self, node_id),
    {
        methods::get_neighboring_ids(self, node_id)
    }

    pub fn get_neighbors(&self, node_id: VertexId) -> (r: Vec<Vertex>)
        requires
            ring_readable(*self, node_id),
            forall|k: int|
                0 <= k < neighbor_ids(*self, node_id).len() ==> vertex_in(
                    self.vert_data(),
                    #[trigger] neighbor_ids(*self, node_id)[k],
                ),
        ensures
            r@ == neighbor_ids(*self, node_id).map_values(
                |id: VertexId| vertex_at(self.vert_data(), id),
            ),
            r@.map_values(|v: Vertex| v.id) == neighbor_ids(*self, node_id),
    {
        methods::get_neighbors(self, node_id)
    }

    /// An iterator over the ring of vertex `start_id`.
    pub fn rel_iter(&self, start_id: VertexId) -> (r: RelationshipIterator)
        requires
            vertex_in(self.vert_data(), start_id),
        ensures
            r.db() == *self,
            r.vertex() == start_id,
            r.start() is None,
            r.next_id() == vertex_at(self.vert_data(), start_id).vertex.first_rel,
    {
        RelationshipIterator::new(self, start_id)
    }

    /// A depth-first walk from `start_id`.
    pub fn dfs(&self, start_id: VertexId) -> (r: DfsIterator)
        ensures
            r.db() == *self,
            r.visited() == Seq::<VertexId>::empty(),
            r.stack() == seq![start_id],
    {
        DfsIterator::new(self, start_id)
    }

    /// The breadth-first walk; it visits nothing.
    pub fn bfs(&self, start_id: VertexId) -> (r: Vec<VertexId>)
        ensures
            r@ == Seq::<VertexId>::empty(),
    {
        methods::bfs(self, start_id)
    }
}


/// The type named `name` that the scan of the type file finds.
pub open spec fn found_type(db: DB, name: Seq<char>) -> Option<(Seq<char>, ConstraintInfo)> {
    find_scan(db.db.f_tp.data@, db.db.f_tp.last_offset(), name, START_TYPES as int)
}

/// Looking up type `name` runs to completion.
pub open spec fn type_lookup_ok(db: DB, name: Seq<char>) -> bool {
    &&& find_scan_ok(db.db.f_tp.data@, db.db.f_tp.last_offset(), name, START_TYPES as int)
    &&& found_type(db, name) matches Some((_, info)) ==> fields_readable(db.db.f_tp.data@, info)
}

/// What looking up type `name` gives: its name, its fields and where they
/// are stored, or the error text.
pub open spec fn type_by_name(db: DB, name: Seq<char>) -> Result<(Seq<char>, Seq<Seq<char>>, ConstraintInfo), Seq<char>> {
    match found_type(db, name) {
        None => Err("Type "@ + name + " does not exist"@),
        Some((n, info)) => match fields_read(db.db.f_tp.data@, info) {
            Ok(fs) => Ok((n, fs, info)),
            Err(m) => Err(m),
        },
    }
}

/// What reading type `type_id` with its fields gives.
pub open spec fn type_by_id(db: DB, type_id: TypeID) -> Result<(Seq<char>, Seq<Seq<char>>, ConstraintInfo), Seq<char>> {
    match type_read(db.db.f_tp.data@, type_id) {
        Err(m) => Err(m),
        Ok((n, info)) => match fields_read(db.db.f_tp.data@, info) {
            Ok(fs) => Ok((n, fs, info)),
            Err(m) => Err(m),
        },
    }
}

/// `r` is the type with fields that `s` describes, or an error with its text.
pub open spec fn full_type_is(r: Result<TypeRef, String>, s: Result<(Seq<char>, Seq<Seq<char>>, ConstraintInfo), Seq<char>>) -> bool {
    match (r, s) {
        (Ok(t), Ok((n, fs, info))) => t@ == (n, Some(fs), Some(info)),
        (Err(e), Err(m)) => e@ == m,
        _ => false,
    }
}

/// Type `type_id` can be looked up: the place of its record fits, and where
/// the record reads, its fields can be decoded.
pub open spec fn type_node_ok(db: DB, type_id: TypeID) -> bool {
    &&& type_offset(type_id) + TYPE_REF_BYTE_LENGTH <= usize::MAX
    &&& type_read(db.db.f_tp.data@, type_id) matches Ok((_, info)) ==> fields_readable(db.db.f_tp.data@, info)
}

/// Index `i` is over property `field` of type `name`.
pub open spec fn index_matches(indices: Seq<IndexFile>, i: int, name: Seq<char>, field: Seq<char>) -> bool {
    indices[i].typename@ == name && indices[i].property_name@ == field
}

/// The position of the first index over property `field` of type `name`.
pub open spec fn index_pos(indices: Seq<IndexFile>, name: Seq<char>, field: Seq<char>) -> Option<int>
    decreases indices.len(),
{
    if indices.len() == 0 {
        None
    } else if index_matches(indices, 0, name, field) {
        Some(0)
    } else {
        match index_pos(indices.drop_first(), name, field) {
            Some(i) => Some(i + 1),
            None => None,
        }
    }
}

/// The first match of a scan from the front is the first index position.
proof fn lemma_index_pos_scan(indices: Seq<IndexFile>, i: int, name: Seq<char>, field: Seq<char>)
    requires
        0 <= i <= indices.len(),
        forall|j: int| 0 <= j < i ==> !index_matches(indices, j, name, field),
    ensures
        i < indices.len() && index_matches(indices, i, name, field) ==> index_pos(indices, name, field)
            == Some(i),
        i == indices.len() ==> index_pos(indices, name, field) is None,
    decreases i,
{
    if i > 0 {
        let rest = indices.drop_first();
        assert forall|j: int| 0 <= j < i - 1 implies !index_matches(rest, j, name, field) by {
            assert(rest[j] == indices[j + 1]);
            assert(!index_matches(indices, j + 1, name, field));
        }
        assert(!index_matches(indices, 0, name, field));
        if i < indices.len() {
            assert(rest[i - 1] == indices[i]);
        }
        lemma_index_pos_scan(rest, i - 1, name, field);
    }
}

impl DB {
    /// Reads type `type_id` together with its fields.
    pub fn get_type_full(&self, type_id: TypeID) -> (r: Result<TypeRef, String>)
        requires
            type_offset(type_id) + TYPE_REF_BYTE_LENGTH <= usize::MAX,
            type_read(self.db.f_tp.data@, type_id) matches Ok((_, info)) ==> fields_readable(
                self.db.f_tp.data@,
                info,
            ),
        ensures
            full_type_is(r, type_by_id(*self, type_id)),
    {
        let tr = match self.db.f_tp.get_type(type_id) {
            Ok(t) => t,
            Err(e) => {
                return Err(e);
            },
        };
        let info = tr.constraints_info.unwrap();
        match self.db.f_tp.get_constraints(info) {
            Ok(c) => Ok(TypeRef::new(tr.typename, Some(c), Some(info))),
            Err(e) => Err(e),
        }
    }

    /// Looks up the type named `typename`, with its fields; a type that is
    /// found is given id 0.
    pub fn get_type_by_str_with_id(&self, typename: &str) -> (r: Result<(TypeRef, TypeID), String>)
        requires
            type_lookup_ok(*self, typename@),
        ensures
            r is Ok <==> type_by_name(*self, typename@) is Ok,
            r matches Ok((t, id)) ==> id == 0 && full_type_is(Ok(t), type_by_name(*self, typename@)),
            r matches Err(e) ==> full_type_is(Err(e), type_by_name(*self, typename@)),
    {
        match self.db.f_tp.find_type_name(typename) {
            Some((tr, id)) => {
                let info = tr.constraints_info.unwrap();
                match self.db.f_tp.get_constraints(info) {
                    Ok(c) => Ok((TypeRef::new(tr.typename, Some(c), Some(info)), id)),
                    Err(e) => Err(e),
                }
            },
            None => {
                let mut m = "Type ".to_owned();
                m.append(typename);
                m.append(" does not exist");
                Err(m)
            },
        }
    }

    /// Looks up the type named `typename`, with its fields.
    pub fn get_type_by_str(&self, typename: &str) -> (r: Result<TypeRef, String>)
        requires
            type_lookup_ok(*self, typename@),
        ensures
            full_type_is(r, type_by_name(*self, typename@)),
    {
        match self.get_type_by_str_with_id(typename) {
            Ok((t, _)) => Ok(t),
            Err(e) => Err(e),
        }
    }

    /// The id of the type named `typename`.
    pub fn get_type_id_by_str(&self, typename: &str) -> (r: Result<TypeID, String>)
        requires
            type_lookup_ok(*self, typename@),
        ensures
            r is Ok <==> type_by_name(*self, typename@) is Ok,
            r matches Ok(id) ==> id == 0,
            r matches Err(e) ==> full_type_is(Err(e), type_by_name(*self, typename@)),
    {
        match self.get_type_by_str_with_id(typename) {
            Ok((_, id)) => Ok(id),
            Err(e) => Err(e),
        }
    }

    /// Reads type `type_id`; its fields are left where they are stored.
    pub fn get_type(&self, type_id: TypeID) -> (r: Result<TypeRef, String>)
        requires
            type_offset(type_id) + TYPE_REF_BYTE_LENGTH <= usize::MAX,
        ensures
            crate::types::type_management::type_result_is(r, type_read(self.db.f_tp.data@, type_id)),
    {
        self.db.f_tp.get_type(type_id)
    }

    /// Reads the fields described by `constraints_info`.
    pub fn get_constraints(&self, constraints_info: ConstraintInfo) -> (r: Result<Constraints, String>)
        requires
            fields_readable(self.db.f_tp.data@, constraints_info),
        ensures
            r is Ok <==> fields_read(self.db.f_tp.data@, constraints_info) is Ok,
            r matches Ok(c) ==> fields_read(self.db.f_tp.data@, constraints_info) == Ok::<Seq<Seq<char>>, Seq<char>>(c@),
            r matches Err(e) ==> fields_read(self.db.f_tp.data@, constraints_info) == Err::<Seq<Seq<char>>, Seq<char>>(e@),
    {
        self.db.f_tp.get_constraints(constraints_info)
    }

    /// Adds type `typename` with the given fields and returns its id; a name
    /// that is already stored is refused.
    pub fn add_type(&mut self, typename: &str, constraints: Constraints) -> (r: Result<TypeID, String>)
        requires
            find_scan_ok(old(self).db.f_tp.data@, old(self).db.f_tp.last_offset(), typename@, START_TYPES as int),
            found_type(*old(self), typename@) is None ==> {
                &&& old(self).db.f_tp.mr_id < MAX_TYPE_IDS
                &&& fields_bytes(constraints@).len() + 1 <= u16::MAX
                &&& old(self).db.f_tp.data@.len() + fields_bytes(constraints@).len() + 1 <= usize::MAX
                &&& encoding::utf8(typename@).len() <= TYPE_NAME_LENGTH
            },
        ensures
            r is Ok <==> found_type(*old(self), typename@) is None,
            r matches Ok(id) ==> id == old(self).db.f_tp.mr_id && final(self).db.f_tp.mr_id == id + 1
                && final(self).db.f_tp.data@ == data_after_add(
                old(self).db.f_tp.data@,
                id,
                typename@,
                constraints@,
            ),
            r matches Err(e) ==> e@ == "Failed to add type: "@ + "Type '{name}' already exists"@,
            r is Err ==> final(self).db.f_tp == old(self).db.f_tp,
            final(self).db.f_rel == old(self).db.f_rel,
            final(self).db.f_vert == old(self).db.f_vert,
            final(self).db.f_prop == old(self).db.f_prop,
            final(self).db.indices == old(self).db.indices,
    {
        let new_type_id = self.db.f_tp.mr_id;
        match self.db.f_tp.add_type(typename, constraints) {
            Ok(()) => Ok(new_type_id),
            Err(err) => {
                let mut m = "Failed to add type: ".to_owned();
                m.append(err.as_str());
                Err(m)
            },
        }
    }

    /// Finds the vertex that the index over property `indexed_field` of type
    /// `typename` holds for `searched_val`. The type must exist, the index
    /// must exist, and the value must be of the index's kind; a value that
    /// the index holds no vertex for must not be searched.
    pub fn find_node_id_indexed(&self, typename: &str, indexed_field: &str, searched_val: IndexAbleType) -> (r: Result<VertexId, String>)
        requires
            type_lookup_ok(*self, typename@),
            type_by_name(*self, typename@) is Ok ==> (index_pos(self.db.indices@, typename@, indexed_field@) matches Some(i)
                ==> (self.db.indices@[i].idx.lookup_result(searched_val) matches Ok(o) ==> o is Some)),
        ensures
            type_by_name(*self, typename@) matches Err(m) ==> (r matches Err(e) && e@ == m),
            type_by_name(*self, typename@) is Ok && index_pos(self.db.indices@, typename@, indexed_field@) is None
                ==> (r matches Err(e) && e@ == "Field "@ + indexed_field@ + " for type "@ + typename@
                + " does not exist or is not indexed."@),
            type_by_name(*self, typename@) is Ok ==> (index_pos(self.db.indices@, typename@, indexed_field@) matches Some(i)
                ==> match self.db.indices@[i].idx.lookup_result(searched_val) {
                Ok(o) => r == Ok::<VertexId, String>(o.unwrap()),
                Err(m) => r matches Err(e) && e@ == m,
            }),
    {
        let tr = match self.get_type_by_str(typename) {
            Ok(t) => t,
            Err(e) => {
                return Err(e);
            },
        };
        let ghost name = typename@;
        let ghost field = indexed_field@;
        let mut pos: Option<usize> = None;
        let mut i: usize = 0;
        while i < self.db.indices.len()
            invariant_except_break
                i <= self.db.indices@.len(),
                name == typename@,
                field == indexed_field@,
                pos is None,
                forall|j: int| 0 <= j < i ==> !index_matches(self.db.indices@, j, name, field),
            ensures
                pos matches Some(p) ==> p < self.db.indices@.len() && index_pos(self.db.indices@, name, field)
                    == Some(p as int),
                pos is None ==> i == self.db.indices@.len(),
                pos is None ==> forall|j: int| 0 <= j < i ==> !index_matches(self.db.indices@, j, name, field),
            decreases self.db.indices@.len() - i,
        {
            if encoding::str_eq(self.db.indices[i].typename.as_str(), typename) && encoding::str_eq(
                self.db.indices[i].property_name.as_str(),
                indexed_field,
            ) {
                proof {
                    lemma_index_pos_scan(self.db.indices@, i as int, name, field);
                }
                pos = Some(i);
                break;
            }
            i += 1;
        }
        proof {
            if pos is None {
                lemma_index_pos_scan(self.db.indices@, i as int, name, field);
            }
        }
        let p = match pos {
            Some(p) => p,
            None => {
                let mut m = "Field ".to_owned();
                m.append(indexed_field);
                m.append(" for type ");
                m.append(typename);
                m.append(" does not exist or is not indexed.");
                return Err(m);
            },
        };
        match self.db.indices[p].idx.get(searched_val) {
            Ok(v) => Ok(v.unwrap()),
            Err(e) => Err(e),
        }
    }
}

/// The error for a second index over property `field` of type `name`.
pub open spec fn already_indexed_text(field: Seq<char>, name: Seq<char>) -> Seq<char> {
    "Property "@ + field + " of type "@ + name
        + " is already indexed. Cannot put multiple indices on single property."@
}

impl DB {
    /// Adds an index over property `property_name` of type `typename`,
    /// built from `entries` (see `IndexFile::new` for the entries of the
    /// stored vertices) without constraints. A second index over the same
    /// type and property is refused and nothing changes.
    pub fn add_index(
        &mut self,
        typename: &str,
        property_name: &str,
        entries: Vec<(IndexAbleType, Vertex)>,
        expected_type: IndexType,
    ) -> (r: Result<(), String>)
        requires
            index_pos(old(self).db.indices@, typename@, property_name@) is None ==> (keys_of_kind(
                entries@,
                expected_type,
            ) && expected_type != IndexType::INVALIDTYPE),
        ensures
            r is Err <==> index_pos(old(self).db.indices@, typename@, property_name@) is Some,
            r matches Err(e) ==> e@ == already_indexed_text(property_name@, typename@) && *final(self)
                == *old(self),
            r is Ok ==> ({
                let new_idx = final(self).db.indices@.last();
                &&& final(self).db.indices@.len() == old(self).db.indices@.len() + 1
                &&& final(self).db.indices@.drop_last() == old(self).db.indices@
                &&& new_idx.typename@ == typename@
                &&& new_idx.property_name@ == property_name@
                &&& !new_idx.idx.spec_constraints().spec_nullable()
                &&& !new_idx.idx.spec_constraints().spec_no_duplicates()
                &&& !new_idx.idx.spec_constraints().spec_auto_increment()
                &&& built_from(new_idx.idx, entries@, new_idx.idx.spec_constraints(), expected_type)
                &&& final(self).db.f_rel == old(self).db.f_rel
                &&& final(self).db.f_vert == old(self).db.f_vert
                &&& final(self).db.f_prop == old(self).db.f_prop
                &&& final(self).db.f_tp == old(self).db.f_tp
            }),
    {
        let ghost name = typename@;
        let ghost field = property_name@;
        let mut i: usize = 0;
        while i < self.db.indices.len()
            invariant
                i <= self.db.indices@.len(),
                name == typename@,
                field == property_name@,
                forall|j: int| 0 <= j < i ==> !index_matches(self.db.indices@, j, name, field),
            decreases self.db.indices@.len() - i,
        {
            if encoding::str_eq(self.db.indices[i].typename.as_str(), typename) && encoding::str_eq(
                self.db.indices[i].property_name.as_str(),
                property_name,
            ) {
                proof {
                    lemma_index_pos_scan(self.db.indices@, i as int, name, field);
                }
                let mut m = "Property ".to_owned();
                m.append(property_name);
                m.append(" of type ");
                m.append(typename);
                m.append(" is already indexed. Cannot put multiple indices on single property.");
                return Err(m);
            }
            i += 1;
        }
        proof {
            lemma_index_pos_scan(self.db.indices@, i as int, name, field);
        }
        let constraints = IndexConstraints::new(false, false, false);
        let idx = match Index::build(entries, constraints, expected_type) {
            Ok(idx) => idx,
            Err(_) => {
                proof {
                    assert(false);
                }
                return Ok(());
            },
        };
        let ghost old_indices = self.db.indices@;
        self.db.indices.push(
            IndexFile { typename: typename.to_owned(), property_name: property_name.to_owned(), idx },
        );
        assert(self.db.indices@.drop_last() =~= old_indices);
        Ok(())
    }
}

/// What `add_type` stored reads back: when `before.add_type(name, c)`
/// returned `Ok(id)` and left `after` (so `id` is `before`'s next type id and
/// `after`'s type file is `data_after_add` of `before`'s), `after.get_type(id)`
/// reads the record of `name`, whose constraints info `get_constraints`
/// accepts and reads back as the fields of `c`. This holds for a type file
/// that reaches past the type area, a name of fewer bytes than the name part
/// of a record and without zero bytes, and fields that are non-empty and
/// hold no zero byte.
pub proof fn lemma_add_type_reads_back(before: DB, after: DB, id: TypeID, name: Seq<char>, fs: Seq<Seq<char>>)
    requires
        id == before.db.f_tp.mr_id,
        id < MAX_TYPE_IDS,
        after.db.f_tp.data@ == data_after_add(before.db.f_tp.data@, id, name, fs),
        START_TYPES + START_TYPE_CONSTRAINTS <= before.db.f_tp.data@.len() <= u32::MAX,
        encoding::utf8(name).len() < TYPE_NAME_LENGTH,
        !encoding::utf8(name).contains(0u8),
        fields_bytes(fs).len() + 1 <= u16::MAX,
        forall|k: int| 0 <= k < fs.len() ==> encoding::utf8(#[trigger] fs[k]).len() > 0,
        forall|k: int| 0 <= k < fs.len() ==> !encoding::utf8(#[trigger] fs[k]).contains(0u8),
    ensures
        type_read(after.db.f_tp.data@, id) matches Ok((n, info)) && n == name && fields_readable(
            after.db.f_tp.data@,
            info,
        ) && fields_read(after.db.f_tp.data@, info) == Ok::<Seq<Seq<char>>, Seq<char>>(fs),
{
    lemma_add_type_then_get(before.db.f_tp.data@, id, name, fs);
    lemma_add_type_then_get_constraints(before.db.f_tp.data@, id, name, fs);
}

/// Every vertex record that the vertex file holds has an id below the next
/// free id.
pub open spec fn ids_below_next(db: DB) -> bool {
    forall|x: VertexId| #[trigger] vertex_in(db.vert_data(), x) ==> x < db.db.f_vert.first_available_id
}

/// A node that `add_node` adds gets an id that no stored vertex had: when
/// `before.add_node(t, first_prop)` returned `Ok(id)` and left `after`, and
/// every stored vertex of `before` has an id below its next free id, then
/// `id` was not stored before; vertex `id` is now stored, in use, without
/// relationships and with the given first property; and `after` keeps every
/// stored id below its next free id, so later nodes get fresh ids as well.
pub proof fn lemma_add_node_fresh_id(before: DB, after: DB, id: VertexId, first_prop: Option<PropertyId>)
    requires
        ids_below_next(before),
        id == before.db.f_vert.first_available_id,
        vertex_writable(id),
        after.vert_data() == vert_data_after(before.vert_data(), Vertex { id, vertex: new_vertex_record(first_prop) }),
        after.db.f_vert.first_available_id == id + 1,
    ensures
        !vertex_in(before.vert_data(), id),
        vertex_in(after.vert_data(), id),
        vertex_at(after.vert_data(), id) == (Vertex { id, vertex: new_vertex_record(first_prop) }),
        vertex_at(after.vert_data(), id).vertex.in_usage,
        vertex_at(after.vert_data(), id).vertex.first_rel == RELATIONSHIP_NULL_ID,
        ids_below_next(after),
{
    let v = Vertex { id, vertex: new_vertex_record(first_prop) };
    let d = before.vert_data();
    lemma_vertex_read_after_write(d, v);
    assert forall|x: VertexId| #[trigger] vertex_in(after.vert_data(), x) implies x < id + 1 by {
        if x > id {
            assert(spec_offset_vert(x) >= spec_offset_vert(id) + VERTEX_BYTE_LENGTH) by (nonlinear_arith)
                requires
                    x > id,
                    spec_offset_vert(x) == x * 13,
                    spec_offset_vert(id) == id * 13,
            ;
            assert(vertex_in(d, x));
        }
    }
}

/// A type that `add_type` added is found by its name afterwards, so a
/// second `add_type` of that name is refused: when `before.add_type(name, c)`
/// returned `Ok(id)` and left `after`, the name lookup of `after` finds a
/// record named `name`. This holds for a type file that reaches past the
/// type area, a name of fewer bytes than the name part of a record and
/// without zero bytes, a new record on a page that the lookup scans, and a
/// lookup that runs to completion.
pub proof fn lemma_add_type_then_found(before: DB, after: DB, id: TypeID, name: Seq<char>, fs: Seq<Seq<char>>)
    requires
        id == before.db.f_tp.mr_id,
        id < MAX_TYPE_IDS,
        after.db.f_tp.mr_id == id + 1,
        after.db.f_tp.data@ == data_after_add(before.db.f_tp.data@, id, name, fs),
        START_TYPES + START_TYPE_CONSTRAINTS <= before.db.f_tp.data@.len() <= u32::MAX,
        encoding::utf8(name).len() < TYPE_NAME_LENGTH,
        !encoding::utf8(name).contains(0u8),
        page_of(id as int) < START_TYPE_CONSTRAINTS,
        find_scan_ok(after.db.f_tp.data@, after.db.f_tp.last_offset(), name, START_TYPES as int),
    ensures
        found_type(after, name) matches Some((n, _)) && n == name,
{
    let d = after.db.f_tp.data@;
    lemma_add_type_then_get(before.db.f_tp.data@, id, name, fs);
    assert(d.len() >= before.db.f_tp.data@.len());
    assert(read_ok(d, page_of(id as int), PAGE_SIZE as int));
    assert(after.db.f_tp.last_offset() == type_offset(id) + TYPE_REF_BYTE_LENGTH);
    lemma_find_scan_finds_stored_name(d, after.db.f_tp.last_offset(), name, id as int);
}

} // verus!
