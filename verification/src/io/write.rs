//! Writing vertices and relationships, and adding new ones.
use vstd::prelude::*;
use crate::base_types::{PropertyId, RelationshipId, TypeID, VertexId};
use crate::constants::{RELATIONSHIP_BYTE_LENGTH, RELATIONSHIP_NULL_ID, VERTEX_BYTE_LENGTH};
use crate::db::db::DB;
use crate::errors::{
    RelationshipCreationError,
    RelationshipCreationFailure,
    VertexCreationError,
    VertexCreationFailure,
};
use crate::db::db_methods::{type_by_id, type_node_ok};
use crate::io::file_image::{write_all_at, write_at};
use crate::objects::objects::Object;
use crate::io::update_ptrs::{ring_new_rel, ring_ok, ring_rd, ring_vd, update_existing_rel_ptrs_2};
use crate::methods::get_node;
use crate::objects::relationship::{
    rel_at,
    rel_in,
    spec_offset_rel,
    FileRelationship,
    Relationship,
    RelationshipFile,
    RelationshipVertexRefs,
};
use crate::objects::vertex::{prev_next, spec_offset_vert, vertex_at, vertex_in, FileVertex, Vertex, VertexFile};

verus! {

/// A vertex record can be written at the place of `id`.
pub open spec fn vertex_writable(id: VertexId) -> bool {
    &&& id * VERTEX_BYTE_LENGTH <= u32::MAX
    &&& spec_offset_vert(id) + VERTEX_BYTE_LENGTH <= usize::MAX
}

/// A relationship record can be written at the place of `id`.
pub open spec fn rel_writable(id: RelationshipId) -> bool {
    spec_offset_rel(id) + RELATIONSHIP_BYTE_LENGTH <= usize::MAX
}

/// The vertex file after storing vertex `v` at its place.
pub open spec fn vert_data_after(data: Seq<u8>, v: Vertex) -> Seq<u8> {
    write_at(data, spec_offset_vert(v.id), v.vertex.spec_to_bytes())
}

/// The relationship file after storing relationship `r` at its place.
pub open spec fn rel_data_after(data: Seq<u8>, r: Relationship) -> Seq<u8> {
    write_at(data, spec_offset_rel(r.id), r.rel.spec_to_bytes())
}

/// Stores vertex `v` at the place of its id and returns the id.
pub fn write_vertex_locked(db_handle: &mut DB, v: Vertex) -> (r: Result<VertexId, VertexCreationError>)
    requires
        vertex_writable(v.id),
    ensures
        r matches Ok(id) && id == v.id,
        final(db_handle).vert_data() == vert_data_after(old(db_handle).vert_data(), v),
        old(db_handle).same_but_vert_data(*final(db_handle)),
        vertex_in(final(db_handle).vert_data(), v.id) && vertex_at(final(db_handle).vert_data(), v.id)
            == v,
        forall|id: VertexId|
            id != v.id && vertex_in(old(db_handle).vert_data(), id) ==> vertex_in(
                final(db_handle).vert_data(),
                id,
            ) && #[trigger] vertex_at(final(db_handle).vert_data(), id) == vertex_at(
                old(db_handle).vert_data(),
                id,
            ),
{
    let offset = VertexFile::get_offset_vert(v.id);
    let bytes = v.vertex.to_bytes();
    write_all_at(&mut db_handle.db.f_vert.data, bytes.as_slice(), offset);
    proof {
        lemma_vertex_read_after_write(old(db_handle).vert_data(), v);
        assert forall|id: VertexId|
            id != v.id && vertex_in(old(db_handle).vert_data(), id) implies vertex_in(
                db_handle.vert_data(),
                id,
            ) && #[trigger] vertex_at(db_handle.vert_data(), id) == vertex_at(old(db_handle).vert_data(), id) by {
            lemma_vertex_write_keeps_others(old(db_handle).vert_data(), v, id);
        }
    }
    Ok(v.id)
}

/// A relationship can be stored: it joins two different vertices and its id
/// is not the null id.
pub open spec fn rel_storable(r: Relationship) -> bool {
    r.rel.vertex_refs.start_vertex != r.rel.vertex_refs.end_vertex && r.id != RELATIONSHIP_NULL_ID
}

/// Stores relationship `r` at the place of its id. A relationship of a vertex
/// with itself and one with the null id are refused, in that order, and the
/// database is then unchanged.
pub fn write_relationship_locked(db_handle: &mut DB, r: Relationship) -> (res: Result<
    (),
    RelationshipCreationError,
>)
    requires
        rel_writable(r.id),
    ensures
        res is Ok <==> rel_storable(r),
        r.rel.vertex_refs.start_vertex == r.rel.vertex_refs.end_vertex ==> (res matches Err(e)
            && e.reason == RelationshipCreationFailure::Other && e.message@
            == "Cannot write relationship where start == end (vertex cannot have a relationship with itself)"@),
        r.rel.vertex_refs.start_vertex != r.rel.vertex_refs.end_vertex && r.id
            == RELATIONSHIP_NULL_ID ==> (res matches Err(e) && e.reason
            == RelationshipCreationFailure::Other && e.message@
            == "Cannot write relationship with NULL ID (check constant RELATIONSHIP_NULL_ID in constants.rs)"@),
        res is Ok ==> final(db_handle).rel_data() == rel_data_after(old(db_handle).rel_data(), r),
        res is Err ==> final(db_handle).rel_data() == old(db_handle).rel_data(),
        old(db_handle).same_but_rel_data(*final(db_handle)),
{
    if r.rel.vertex_refs.start_vertex == r.rel.vertex_refs.end_vertex {
        return Err(
            RelationshipCreationError::new(
                "Cannot write relationship where start == end (vertex cannot have a relationship with itself)",
                RelationshipCreationFailure::Other,
            ),
        );
    } else if r.id == RELATIONSHIP_NULL_ID {
        return Err(
            RelationshipCreationError::new(
                "Cannot write relationship with NULL ID (check constant RELATIONSHIP_NULL_ID in constants.rs)",
                RelationshipCreationFailure::Other,
            ),
        );
    }
    let offset = RelationshipFile::get_offset_rel(r.id);
    let bytes = r.rel.to_bytes();
    write_all_at(&mut db_handle.db.f_rel.data, bytes.as_slice(), offset);
    Ok(())
}


/// Where the new relationship is linked into the ring of vertex `v`: the
/// last and the first relationship of that ring in `db`.
pub open spec fn ring_place(db: DB, v: VertexId) -> (RelationshipId, RelationshipId) {
    prev_next(vertex_at(db.vert_data(), v), db.rel_data()).unwrap()
}

/// The relationship that `add_new_relationship` builds before linking it:
/// the next free id, the two vertices and the places in their rings.
pub open spec fn fresh_rel(
    db: DB,
    start_vertex: VertexId,
    end_vertex: VertexId,
    rel_type: TypeID,
    first_prop: PropertyId,
) -> Relationship {
    let (sp, sn) = ring_place(db, start_vertex);
    let (ep, en) = ring_place(db, end_vertex);
    Relationship {
        id: db.db.f_rel.first_available_id,
        rel: FileRelationship {
            vertex_refs: RelationshipVertexRefs {
                start_vertex,
                end_vertex,
                start_prev: sp,
                start_next: sn,
                end_prev: ep,
                end_next: en,
            },
            first_prop,
            rel_type,
            in_usage: true,
        },
    }
}

/// The relationship that `add_new_relationship` stores: the fresh one after
/// linking it into both rings.
pub open spec fn added_rel(
    db: DB,
    start_vertex: VertexId,
    end_vertex: VertexId,
    rel_type: TypeID,
    first_prop: PropertyId,
) -> Relationship {
    let (sp, sn) = ring_place(db, start_vertex);
    let (ep, en) = ring_place(db, end_vertex);
    ring_new_rel(
        ring_new_rel(fresh_rel(db, start_vertex, end_vertex, rel_type, first_prop), sp, sn),
        ep,
        en,
    )
}

/// The vertex file once the new relationship is linked into both rings.
pub open spec fn linked_vd(db: DB, start_vertex: VertexId, end_vertex: VertexId) -> Seq<u8> {
    let id = db.db.f_rel.first_available_id;
    let (sp, sn) = ring_place(db, start_vertex);
    let (ep, en) = ring_place(db, end_vertex);
    ring_vd(
        ring_vd(db.vert_data(), vertex_at(db.vert_data(), start_vertex), start_vertex, id, sn),
        vertex_at(db.vert_data(), end_vertex),
        end_vertex,
        id,
        en,
    )
}

/// The relationship file once the new relationship is linked into both
/// rings, before it is itself stored.
pub open spec fn linked_rd(db: DB, start_vertex: VertexId, end_vertex: VertexId) -> Seq<u8> {
    let id = db.db.f_rel.first_available_id;
    let (sp, sn) = ring_place(db, start_vertex);
    let (ep, en) = ring_place(db, end_vertex);
    ring_rd(ring_rd(db.rel_data(), start_vertex, id, sp, sn), end_vertex, id, ep, en)
}

/// `add_new_relationship` runs to completion on `db`: both vertices lie in
/// the vertex file, their rings can be read, a relationship id is left, and
/// every record that linking reads or writes lies where it may.
pub open spec fn add_rel_ok(db: DB, start_vertex: VertexId, end_vertex: VertexId) -> bool {
    let id = db.db.f_rel.first_available_id;
    let (sp, sn) = ring_place(db, start_vertex);
    let (ep, en) = ring_place(db, end_vertex);
    &&& vertex_in(db.vert_data(), start_vertex)
    &&& vertex_in(db.vert_data(), end_vertex)
    &&& prev_next(vertex_at(db.vert_data(), start_vertex), db.rel_data()) is Some
    &&& prev_next(vertex_at(db.vert_data(), end_vertex), db.rel_data()) is Some
    &&& id < u32::MAX
    &&& rel_writable(id)
    &&& ring_ok(db.rel_data(), id, start_vertex, sp, sn)
    &&& ring_ok(ring_rd(db.rel_data(), start_vertex, id, sp, sn), id, end_vertex, ep, en)
}

/// Adds a relationship from `start_vertex` to `end_vertex` with the given
/// type and first property: takes the next free relationship id, links the
/// relationship into the rings of both vertices and stores it. A
/// relationship of a vertex with itself is linked but not stored, and is
/// answered with the error of `write_relationship_locked`.
pub fn add_new_relationship(
    db_handle: &mut DB,
    start_vertex: VertexId,
    end_vertex: VertexId,
    rel_type: TypeID,
    first_prop: PropertyId,
) -> (r: Result<RelationshipId, RelationshipCreationError>)
    requires
        add_rel_ok(*old(db_handle), start_vertex, end_vertex),
    ensures
        r is Ok <==> start_vertex != end_vertex,
        r matches Ok(id) ==> id == old(db_handle).db.f_rel.first_available_id,
        start_vertex == end_vertex ==> (r matches Err(e) && e.reason
            == RelationshipCreationFailure::Other && e.message@
            == "Cannot write relationship where start == end (vertex cannot have a relationship with itself)"@),
        final(db_handle).vert_data() == linked_vd(*old(db_handle), start_vertex, end_vertex),
        r is Ok ==> final(db_handle).rel_data() == rel_data_after(
            linked_rd(*old(db_handle), start_vertex, end_vertex),
            added_rel(*old(db_handle), start_vertex, end_vertex, rel_type, first_prop),
        ),
        r is Err ==> final(db_handle).rel_data() == linked_rd(
            *old(db_handle),
            start_vertex,
            end_vertex,
        ),
        r matches Ok(id) ==> rel_in(final(db_handle).rel_data(), id) && rel_at(
            final(db_handle).rel_data(),
            id,
        ) == added_rel(*old(db_handle), start_vertex, end_vertex, rel_type, first_prop),
        final(db_handle).db.f_rel.first_available_id == old(db_handle).db.f_rel.first_available_id
            + 1,
        final(db_handle).db.f_prop == old(db_handle).db.f_prop,
        final(db_handle).db.f_tp == old(db_handle).db.f_tp,
        final(db_handle).db.indices == old(db_handle).db.indices,
        final(db_handle).db.f_vert.first_available_id == old(db_handle).db.f_vert.first_available_id,
{
    let ghost db0 = *db_handle;
    let v_start = get_node(db_handle, start_vertex).unwrap();
    let (s_prev, s_next) = v_start.get_prev_next(db_handle).unwrap();
    let v_end = get_node(db_handle, end_vertex).unwrap();
    let (e_prev, e_next) = v_end.get_prev_next(db_handle).unwrap();
    let new_rel_id = RelationshipFile::get_first_available_id(db_handle).unwrap();
    let mut new_rel = Relationship {
        id: new_rel_id,
        rel: FileRelationship::new(
            first_prop,
            rel_type,
            true,
            RelationshipVertexRefs::new(start_vertex, end_vertex, s_prev, s_next, e_prev, e_next),
        ),
    };
    assert(new_rel == fresh_rel(db0, start_vertex, end_vertex, rel_type, first_prop));
    update_existing_rel_ptrs_2(
        db_handle,
        &mut new_rel,
        v_start,
        start_vertex,
        v_end,
        end_vertex,
        (s_prev, s_next, e_prev, e_next),
    ).unwrap();
    let ghost before_write = db_handle.rel_data();
    match write_relationship_locked(db_handle, new_rel) {
        Ok(_) => {
            proof {
                lemma_rel_read_after_write(before_write, new_rel);
            }
            Ok(new_rel_id)
        },
        Err(e) => Err(e),
    }
}


/// The record of a new vertex: in use, no relationship, the given first
/// property (the null id when there is none).
pub open spec fn new_vertex_record(first_prop: Option<PropertyId>) -> FileVertex {
    FileVertex {
        first_rel: RELATIONSHIP_NULL_ID,
        first_prop: match first_prop {
            Some(p) => p,
            None => RELATIONSHIP_NULL_ID,
        },
        in_usage: true,
    }
}

/// Adds a vertex of type `type_id` under the next free vertex id and stores
/// it; reading that id afterwards gives the new vertex back. An unknown type
/// is refused before anything is written. (The stored record has no place
/// for the type.)
pub fn add_new_node(db_handle: &mut DB, type_id: TypeID, first_prop: Option<PropertyId>) -> (r: Result<
    VertexId,
    VertexCreationError,
>)
    requires
        old(db_handle).db.f_vert.first_available_id < u32::MAX,
        vertex_writable(old(db_handle).db.f_vert.first_available_id),
        type_node_ok(*old(db_handle), type_id),
    ensures
        type_by_id(*old(db_handle), type_id) is Err ==> (r matches Err(e) && e.reason
            == VertexCreationFailure::Other && e.message@ == "Getting type from type_id failed"@
            && *final(db_handle) == *old(db_handle)),
        type_by_id(*old(db_handle), type_id) is Ok ==> ({
            let id = old(db_handle).db.f_vert.first_available_id;
            &&& r == Ok::<VertexId, VertexCreationError>(id)
            &&& final(db_handle).vert_data() == vert_data_after(
                old(db_handle).vert_data(),
                Vertex { id, vertex: new_vertex_record(first_prop) },
            )
            &&& vertex_in(final(db_handle).vert_data(), id)
            &&& vertex_at(final(db_handle).vert_data(), id) == (Vertex { id, vertex: new_vertex_record(first_prop) })
            &&& final(db_handle).db.f_vert.first_available_id == id + 1
            &&& final(db_handle).db.f_rel == old(db_handle).db.f_rel
            &&& final(db_handle).db.f_prop == old(db_handle).db.f_prop
            &&& final(db_handle).db.f_tp == old(db_handle).db.f_tp
            &&& final(db_handle).db.indices == old(db_handle).db.indices
        }),
{
    match db_handle.get_type_full(type_id) {
        Ok(_) => {},
        Err(_) => {
            return Err(VertexCreationError::new("Getting type from type_id failed", VertexCreationFailure::Other));
        },
    }
    let new_id = VertexFile::get_first_available_id(db_handle).unwrap();
    let v = Vertex::new(new_id, FileVertex::new(true, None, first_prop));
    let r = write_vertex_locked(db_handle, v);
    proof {
        lemma_vertex_read_after_write(old(db_handle).vert_data(), v);
    }
    r
}

/// After storing vertex `v`, its record lies in the vertex file and reads
/// back as `v`.
pub proof fn lemma_vertex_read_after_write(data: Seq<u8>, v: Vertex)
    requires
        vertex_writable(v.id),
    ensures
        vertex_in(vert_data_after(data, v), v.id),
        vertex_at(vert_data_after(data, v), v.id) == v,
{
    let off = spec_offset_vert(v.id);
    crate::io::file_image::lemma_read_after_write(data, off, v.vertex.spec_to_bytes());
    crate::objects::vertex::lemma_file_vertex_roundtrip(v.vertex, 0);
    let w = vert_data_after(data, v);
    assert(w.subrange(off, off + VERTEX_BYTE_LENGTH) == v.vertex.spec_to_bytes());
}

/// After storing relationship `r`, its record lies in the relationship file
/// and reads back as `r`.
pub proof fn lemma_rel_read_after_write(data: Seq<u8>, r: Relationship)
    ensures
        rel_in(rel_data_after(data, r), r.id),
        rel_at(rel_data_after(data, r), r.id) == r,
{
    let off = spec_offset_rel(r.id);
    crate::io::file_image::lemma_read_after_write(data, off, r.rel.spec_to_bytes());
    crate::objects::relationship::lemma_file_relationship_roundtrip(r.rel, 0);
    let w = rel_data_after(data, r);
    assert(w.subrange(off, off + RELATIONSHIP_BYTE_LENGTH) == r.rel.spec_to_bytes());
}


/// Adding a relationship between two vertices that have none makes it the
/// first relationship of both, and the stored relationship points at no
/// other relationship in either ring.
pub proof fn lemma_first_relationship(
    db: DB,
    start_vertex: VertexId,
    end_vertex: VertexId,
    rel_type: TypeID,
    first_prop: PropertyId,
)
    requires
        add_rel_ok(db, start_vertex, end_vertex),
        start_vertex != end_vertex,
        vertex_at(db.vert_data(), start_vertex).vertex.first_rel == RELATIONSHIP_NULL_ID,
        vertex_at(db.vert_data(), end_vertex).vertex.first_rel == RELATIONSHIP_NULL_ID,
    ensures
        vertex_at(linked_vd(db, start_vertex, end_vertex), start_vertex).vertex.first_rel
            == db.db.f_rel.first_available_id,
        vertex_at(linked_vd(db, start_vertex, end_vertex), end_vertex).vertex.first_rel
            == db.db.f_rel.first_available_id,
        added_rel(db, start_vertex, end_vertex, rel_type, first_prop).rel.vertex_refs == (
        RelationshipVertexRefs {
            start_vertex,
            end_vertex,
            start_prev: RELATIONSHIP_NULL_ID,
            start_next: RELATIONSHIP_NULL_ID,
            end_prev: RELATIONSHIP_NULL_ID,
            end_next: RELATIONSHIP_NULL_ID,
        }),
{
    let id = db.db.f_rel.first_available_id;
    let vd = db.vert_data();
    let vs = Vertex {
        id: start_vertex,
        vertex: FileVertex { first_rel: id, ..vertex_at(vd, start_vertex).vertex },
    };
    let ve = Vertex {
        id: end_vertex,
        vertex: FileVertex { first_rel: id, ..vertex_at(vd, end_vertex).vertex },
    };
    let vd1 = vert_data_after(vd, vs);
    lemma_vertex_read_after_write(vd, vs);
    lemma_vertex_read_after_write(vd1, ve);
    let off_s = spec_offset_vert(start_vertex);
    let off_e = spec_offset_vert(end_vertex);
    assert(off_s + VERTEX_BYTE_LENGTH <= off_e || off_e + VERTEX_BYTE_LENGTH <= off_s) by (
    nonlinear_arith)
        requires
            start_vertex != end_vertex,
            off_s == start_vertex * 13,
            off_e == end_vertex * 13,
    ;
    crate::io::file_image::lemma_read_other_after_write(
        vd1,
        off_e,
        ve.vertex.spec_to_bytes(),
        off_s,
        VERTEX_BYTE_LENGTH as int,
    );
    lemma_file_vertex_len(ve.vertex);
    assert(linked_vd(db, start_vertex, end_vertex) == vert_data_after(vd1, ve));
}

proof fn lemma_file_vertex_len(v: FileVertex)
    ensures
        v.spec_to_bytes().len() == VERTEX_BYTE_LENGTH,
{
    crate::objects::vertex::lemma_file_vertex_roundtrip(v, 0);
}


/// Storing vertex `v` leaves every other vertex record as it was.
pub proof fn lemma_vertex_write_keeps_others(data: Seq<u8>, v: Vertex, id: VertexId)
    requires
        vertex_writable(v.id),
        vertex_in(data, id),
        id != v.id,
    ensures
        vertex_in(vert_data_after(data, v), id),
        vertex_at(vert_data_after(data, v), id) == vertex_at(data, id),
{
    let off = spec_offset_vert(v.id);
    let off2 = spec_offset_vert(id);
    crate::objects::vertex::lemma_file_vertex_roundtrip(v.vertex, 0);
    assert(off2 + VERTEX_BYTE_LENGTH <= off || off + VERTEX_BYTE_LENGTH <= off2) by (nonlinear_arith)
        requires
            id != v.id,
            off == v.id * 13,
            off2 == id * 13,
    ;
    crate::io::file_image::lemma_read_other_after_write(
        data,
        off,
        v.vertex.spec_to_bytes(),
        off2,
        VERTEX_BYTE_LENGTH as int,
    );
}

/// Storing relationship `r` leaves the record of relationship `id` as it
/// was when the two records do not overlap. Records are placed at their id,
/// so two ids closer than a record's length share bytes.
pub proof fn lemma_rel_write_keeps_others(data: Seq<u8>, r: Relationship, id: RelationshipId)
    requires
        rel_in(data, id),
        id + RELATIONSHIP_BYTE_LENGTH <= r.id || r.id + RELATIONSHIP_BYTE_LENGTH <= id,
    ensures
        rel_in(rel_data_after(data, r), id),
        rel_at(rel_data_after(data, r), id) == rel_at(data, id),
{
    crate::objects::relationship::lemma_file_relationship_roundtrip(r.rel, 0);
    crate::io::file_image::lemma_read_other_after_write(
        data,
        spec_offset_rel(r.id),
        r.rel.spec_to_bytes(),
        spec_offset_rel(id),
        RELATIONSHIP_BYTE_LENGTH as int,
    );
}

} // verus!
