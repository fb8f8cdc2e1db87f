//! Linking a new relationship into the rings of its two vertices.
//!
//! The new relationship is placed between the last relationship of a
//! vertex's ring and the first one. A vertex without relationships gets the
//! new relationship as its first one; a ring of one relationship points that
//! relationship both ways at the new one.
use vstd::prelude::*;
use crate::base_types::{RelationshipId, VertexId};
use crate::constants::RELATIONSHIP_NULL_ID;
use crate::db::db::DB;
use crate::io::write::{rel_data_after, rel_storable, rel_writable, vert_data_after, vertex_writable};
use crate::objects::relationship::{
    rel_at,
    rel_in,
    FileRelationship,
    Relationship,
    RelationshipVertexRefs,
};
use crate::objects::vertex::{FileVertex, Vertex};

verus! {

/// `r` with both of its ring pointers on the side of vertex `v` set to `id`
/// (the start side when `v` is its start vertex, else the end side).
pub open spec fn with_both(r: Relationship, v: VertexId, id: RelationshipId) -> Relationship {
    let refs = r.rel.vertex_refs;
    let new_refs = if refs.start_vertex == v {
        RelationshipVertexRefs { start_prev: id, start_next: id, ..refs }
    } else {
        RelationshipVertexRefs { end_prev: id, end_next: id, ..refs }
    };
    Relationship { rel: FileRelationship { vertex_refs: new_refs, ..r.rel }, ..r }
}

/// `r` with its next pointer on the side of vertex `v` set to `id`.
pub open spec fn with_next(r: Relationship, v: VertexId, id: RelationshipId) -> Relationship {
    let refs = r.rel.vertex_refs;
    let new_refs = if refs.start_vertex == v {
        RelationshipVertexRefs { start_next: id, ..refs }
    } else {
        RelationshipVertexRefs { end_next: id, ..refs }
    };
    Relationship { rel: FileRelationship { vertex_refs: new_refs, ..r.rel }, ..r }
}

/// `r` with its previous pointer on the side of vertex `v` set to `id`.
pub open spec fn with_prev(r: Relationship, v: VertexId, id: RelationshipId) -> Relationship {
    let refs = r.rel.vertex_refs;
    let new_refs = if refs.start_vertex == v {
        RelationshipVertexRefs { start_prev: id, ..refs }
    } else {
        RelationshipVertexRefs { end_prev: id, ..refs }
    };
    Relationship { rel: FileRelationship { vertex_refs: new_refs, ..r.rel }, ..r }
}

/// The relationship file after the previous relationship `p` of vertex
/// `vid`'s ring has been pointed forward at `new_id`.
pub open spec fn ring_mid(rd: Seq<u8>, vid: VertexId, new_id: RelationshipId, p: RelationshipId) -> Seq<u8> {
    rel_data_after(rd, with_next(rel_at(rd, p), vid, new_id))
}

/// Linking relationship `new_id` into the ring of vertex `vid` between `p`
/// and `n` runs to completion: every record it reads lies in the file and
/// every record it writes may be stored.
pub open spec fn ring_ok(
    rd: Seq<u8>,
    new_id: RelationshipId,
    vid: VertexId,
    p: RelationshipId,
    n: RelationshipId,
) -> bool {
    if n == RELATIONSHIP_NULL_ID {
        vertex_writable(vid)
    } else if p == RELATIONSHIP_NULL_ID {
        &&& rel_in(rd, n)
        &&& rel_writable(n)
        &&& rel_storable(with_both(rel_at(rd, n), vid, new_id))
    } else {
        &&& rel_in(rd, p)
        &&& rel_writable(p)
        &&& rel_storable(with_next(rel_at(rd, p), vid, new_id))
        &&& rel_in(ring_mid(rd, vid, new_id, p), n)
        &&& rel_writable(n)
        &&& rel_storable(with_prev(rel_at(ring_mid(rd, vid, new_id, p), n), vid, new_id))
    }
}

/// The vertex file after linking: a vertex without relationships gets
/// `new_id` as its first relationship.
pub open spec fn ring_vd(vd: Seq<u8>, v: Vertex, vid: VertexId, new_id: RelationshipId, n: RelationshipId) -> Seq<u8> {
    if n == RELATIONSHIP_NULL_ID {
        vert_data_after(vd, Vertex { id: vid, vertex: FileVertex { first_rel: new_id, ..v.vertex } })
    } else {
        vd
    }
}

/// The relationship file after linking `new_id` between `p` and `n`.
pub open spec fn ring_rd(
    rd: Seq<u8>,
    vid: VertexId,
    new_id: RelationshipId,
    p: RelationshipId,
    n: RelationshipId,
) -> Seq<u8> {
    if n == RELATIONSHIP_NULL_ID {
        rd
    } else if p == RELATIONSHIP_NULL_ID {
        rel_data_after(rd, with_both(rel_at(rd, n), vid, new_id))
    } else {
        let mid = ring_mid(rd, vid, new_id, p);
        rel_data_after(mid, with_prev(rel_at(mid, n), vid, new_id))
    }
}

/// The new relationship after linking: when the ring held one relationship,
/// the start-side previous pointer of the new one is set to it.
pub open spec fn ring_new_rel(new_rel: Relationship, p: RelationshipId, n: RelationshipId) -> Relationship {
    if n != RELATIONSHIP_NULL_ID && p == RELATIONSHIP_NULL_ID {
        Relationship {
            rel: FileRelationship {
                vertex_refs: RelationshipVertexRefs { start_prev: n, ..new_rel.rel.vertex_refs },
                ..new_rel.rel
            },
            ..new_rel
        }
    } else {
        new_rel
    }
}

/// Links `new_rel` into the ring of its start vertex, then into the ring of
/// its end vertex; `prev_next` holds the previous and next relationship of
/// the start vertex, then those of the end vertex.
pub fn update_existing_rel_ptrs_2(
    db_handle: &mut DB,
    new_rel: &mut Relationship,
    v_start: Vertex,
    start_vertex: VertexId,
    v_end: Vertex,
    end_vertex: VertexId,
    prev_next: (VertexId, VertexId, VertexId, VertexId),
) -> (r: Result<(), String>)
    requires
        ring_ok(old(db_handle).rel_data(), old(new_rel).id, start_vertex, prev_next.0, prev_next.1),
        ring_ok(
            ring_rd(old(db_handle).rel_data(), start_vertex, old(new_rel).id, prev_next.0, prev_next.1),
            old(new_rel).id,
            end_vertex,
            prev_next.2,
            prev_next.3,
        ),
    ensures
        r is Ok,
        final(db_handle).vert_data() == ring_vd(
            ring_vd(old(db_handle).vert_data(), v_start, start_vertex, old(new_rel).id, prev_next.1),
            v_end,
            end_vertex,
            old(new_rel).id,
            prev_next.3,
        ),
        final(db_handle).rel_data() == ring_rd(
            ring_rd(old(db_handle).rel_data(), start_vertex, old(new_rel).id, prev_next.0, prev_next.1),
            end_vertex,
            old(new_rel).id,
            prev_next.2,
            prev_next.3,
        ),
        *final(new_rel) == ring_new_rel(
            ring_new_rel(*old(new_rel), prev_next.0, prev_next.1),
            prev_next.2,
            prev_next.3,
        ),
        old(db_handle).same_but_data(*final(db_handle)),
{
    update_ptrs_for_start_vertex(db_handle, new_rel, v_start, start_vertex, prev_next.0, prev_next.1);
    update_ptrs_for_end_vertex(db_handle, new_rel, v_end, end_vertex, prev_next.2, prev_next.3);
    Ok(())
}

/// Links `new_rel` into the ring of its start vertex `start_vertex` (stored
/// as `v_start`), between `start_prev` and `start_next`.
pub fn update_ptrs_for_start_vertex(
    db_handle: &mut DB,
    new_rel: &mut Relationship,
    v_start: Vertex,
    start_vertex: VertexId,
    start_prev: RelationshipId,
    start_next: RelationshipId,
)
    requires
        ring_ok(old(db_handle).rel_data(), old(new_rel).id, start_vertex, start_prev, start_next),
    ensures
        final(db_handle).vert_data() == ring_vd(
            old(db_handle).vert_data(),
            v_start,
            start_vertex,
            old(new_rel).id,
            start_next,
        ),
        final(db_handle).rel_data() == ring_rd(
            old(db_handle).rel_data(),
            start_vertex,
            old(new_rel).id,
            start_prev,
            start_next,
        ),
        *final(new_rel) == ring_new_rel(*old(new_rel), start_prev, start_next),
        old(db_handle).same_but_data(*final(db_handle)),
{
    if start_next == RELATIONSHIP_NULL_ID {
        let mut new_v = v_start;
        new_v.vertex.first_rel = new_rel.id;
        db_handle.update_node(start_vertex, new_v).unwrap();
        assert(FileVertex { first_rel: new_rel.id, ..v_start.vertex } == new_v.vertex);
    } else if start_prev == RELATIONSHIP_NULL_ID {
        let mut first_rel = db_handle.get_relationship(start_next).unwrap();
        let ghost read = first_rel;
        if first_rel.rel.vertex_refs.start_vertex == start_vertex {
            first_rel.rel.vertex_refs.start_prev = new_rel.id;
            first_rel.rel.vertex_refs.start_next = new_rel.id;
        } else {
            first_rel.rel.vertex_refs.end_prev = new_rel.id;
            first_rel.rel.vertex_refs.end_next = new_rel.id;
        }
        assert(first_rel == with_both(read, start_vertex, new_rel.id));
        db_handle.update_relationship(first_rel.id, first_rel).unwrap();
        new_rel.rel.vertex_refs.start_prev = start_next;
    } else {
        let mut prev_rel = db_handle.get_relationship(start_prev).unwrap();
        let ghost read_prev = prev_rel;
        if prev_rel.rel.vertex_refs.start_vertex == start_vertex {
            prev_rel.rel.vertex_refs.start_next = new_rel.id;
        } else {
            prev_rel.rel.vertex_refs.end_next = new_rel.id;
        }
        assert(prev_rel == with_next(read_prev, start_vertex, new_rel.id));
        db_handle.update_relationship(prev_rel.id, prev_rel).unwrap();
        let mut next_rel = db_handle.get_relationship(start_next).unwrap();
        let ghost read_next = next_rel;
        if next_rel.rel.vertex_refs.start_vertex == start_vertex {
            next_rel.rel.vertex_refs.start_prev = new_rel.id;
        } else {
            next_rel.rel.vertex_refs.end_prev = new_rel.id;
        }
        assert(next_rel == with_prev(read_next, start_vertex, new_rel.id));
        db_handle.update_relationship(next_rel.id, next_rel).unwrap();
    }
}


/// Links `new_rel` into the ring of its end vertex `end_vertex` (stored as
/// `v_end`), between `end_prev` and `end_next`. When that ring held one
/// relationship, it is the start-side previous pointer of `new_rel` that is
/// set to it, as for the start vertex.
pub fn update_ptrs_for_end_vertex(
    db_handle: &mut DB,
    new_rel: &mut Relationship,
    v_end: Vertex,
    end_vertex: VertexId,
    end_prev: RelationshipId,
    end_next: RelationshipId,
)
    requires
        ring_ok(old(db_handle).rel_data(), old(new_rel).id, end_vertex, end_prev, end_next),
    ensures
        final(db_handle).vert_data() == ring_vd(
            old(db_handle).vert_data(),
            v_end,
            end_vertex,
            old(new_rel).id,
            end_next,
        ),
        final(db_handle).rel_data() == ring_rd(
            old(db_handle).rel_data(),
            end_vertex,
            old(new_rel).id,
            end_prev,
            end_next,
        ),
        *final(new_rel) == ring_new_rel(*old(new_rel), end_prev, end_next),
        old(db_handle).same_but_data(*final(db_handle)),
{
    if end_next == RELATIONSHIP_NULL_ID {
        let mut new_v = v_end;
        new_v.vertex.first_rel = new_rel.id;
        db_handle.update_node(end_vertex, new_v).unwrap();
        assert(FileVertex { first_rel: new_rel.id, ..v_end.vertex } == new_v.vertex);
    } else if end_prev == RELATIONSHIP_NULL_ID {
        let mut first_rel = db_handle.get_relationship(end_next).unwrap();
        let ghost read = first_rel;
        if first_rel.rel.vertex_refs.start_vertex == end_vertex {
            first_rel.rel.vertex_refs.start_prev = new_rel.id;
            first_rel.rel.vertex_refs.start_next = new_rel.id;
        } else {
            first_rel.rel.vertex_refs.end_prev = new_rel.id;
            first_rel.rel.vertex_refs.end_next = new_rel.id;
        }
        assert(first_rel == with_both(read, end_vertex, new_rel.id));
        db_handle.update_relationship(first_rel.id, first_rel).unwrap();
        new_rel.rel.vertex_refs.start_prev = end_next;
    } else {
        let mut prev_rel = db_handle.get_relationship(end_prev).unwrap();
        let ghost read_prev = prev_rel;
        if prev_rel.rel.vertex_refs.start_vertex == end_vertex {
            prev_rel.rel.vertex_refs.start_next = new_rel.id;
        } else {
            prev_rel.rel.vertex_refs.end_next = new_rel.id;
        }
        assert(prev_rel == with_next(read_prev, end_vertex, new_rel.id));
        db_handle.update_relationship(prev_rel.id, prev_rel).unwrap();
        let mut next_rel = db_handle.get_relationship(end_next).unwrap();
        let ghost read_next = next_rel;
        if next_rel.rel.vertex_refs.start_vertex == end_vertex {
            next_rel.rel.vertex_refs.start_prev = new_rel.id;
        } else {
            next_rel.rel.vertex_refs.end_prev = new_rel.id;
        }
        assert(next_rel == with_prev(read_next, end_vertex, new_rel.id));
        db_handle.update_relationship(next_rel.id, next_rel).unwrap();
    }
}


} // verus!
