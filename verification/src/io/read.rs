//! Reading vertices and relationships from the database files.
use vstd::prelude::*;
use crate::base_types::{RelationshipId, VertexId};
use crate::constants::{
    RELATIONSHIP_BYTE_LENGTH,
    RELATIONSHIP_NULL_ID,
    RELATIONSHIP_PAGE_LENGTH,
    START_RELATIONSHIPS,
    VERTEX_BYTE_LENGTH,
    VERTEX_PAGE_LENGTH,
};
use crate::db::db::DB;
use crate::errors::{
    RelationshipCreationError,
    RelationshipCreationFailure,
    VertexCreationError,
};
use crate::io::file_image::read_exact_at;
use crate::iterator::node_iterator::{all_nodes, empty_filter, page_read, page_vertices, NodeIterator};
use crate::objects::objects::Object;
use crate::objects::relationship::{rel_at, rel_in, Relationship, RelationshipFile};
use crate::objects::vertex::{vertex_at, vertex_in, Vertex, VertexFile};

verus! {

/// The message of a read that runs past the end of a file.
pub open spec fn short_read_text() -> Seq<char> {
    "failed to fill whole buffer"@
}

/// Reads vertex `vertex_id`, whose record must lie inside the vertex file.
pub fn read_vertex_locked(db_handle: &DB, vertex_id: VertexId) -> (r: Result<Vertex, VertexCreationError>)
    requires
        vertex_in(db_handle.vert_data(), vertex_id),
    ensures
        r matches Ok(v) && v == vertex_at(db_handle.vert_data(), vertex_id),
{
    let offset = VertexFile::get_offset_vert(vertex_id);
    let buf = read_exact_at(&db_handle.db.f_vert.data, VERTEX_BYTE_LENGTH, offset).unwrap();
    Vertex::from_bytes(buf.as_slice(), vertex_id)
}

/// Reads relationship `rel_id`. The null id and a record past the end of the
/// relationship file are errors.
pub fn read_relationship_locked(db_handle: &DB, rel_id: RelationshipId) -> (r: Result<
    Relationship,
    RelationshipCreationError,
>)
    ensures
        rel_id == RELATIONSHIP_NULL_ID ==> (r matches Err(e) && e.reason
            == RelationshipCreationFailure::ReadNullId && e.message@
            == "Trying to read RELATIONSHIP_NULL_ID"@),
        rel_id != RELATIONSHIP_NULL_ID && rel_in(db_handle.rel_data(), rel_id) ==> (r matches Ok(
            rel,
        ) && rel == rel_at(db_handle.rel_data(), rel_id)),
        rel_id != RELATIONSHIP_NULL_ID && !rel_in(db_handle.rel_data(), rel_id) ==> (r matches Err(
            e,
        ) && e.reason == RelationshipCreationFailure::IoFailure && e.message@ == short_read_text()),
{
    if rel_id == RELATIONSHIP_NULL_ID {
        return Err(
            RelationshipCreationError::new(
                "Trying to read RELATIONSHIP_NULL_ID",
                RelationshipCreationFailure::ReadNullId,
            ),
        );
    }
    let offset = RelationshipFile::get_offset_rel(rel_id);
    match read_exact_at(&db_handle.db.f_rel.data, RELATIONSHIP_BYTE_LENGTH, offset) {
        Some(buf) => Relationship::from_bytes(buf.as_slice(), rel_id),
        None => Err(
            RelationshipCreationError::new(
                "failed to fill whole buffer",
                RelationshipCreationFailure::IoFailure,
            ),
        ),
    }
}

/// The vertex decoded from the page `buffer` at byte `i`: the record bytes
/// taken are `buffer[i..=i + VERTEX_BYTE_LENGTH]`, and the id is the record's
/// place counted from `start_pos`.
pub open spec fn page_vertex(buffer: Seq<u8>, start_pos: u64, i: int) -> Vertex {
    Vertex::spec_decode(
        buffer.subrange(i, i + VERTEX_BYTE_LENGTH + 1),
        ((start_pos + i) / (VERTEX_BYTE_LENGTH as int)) as VertexId,
    )
}

/// Decodes the vertex records that start in `buffer[0..cap]`, one every
/// `VERTEX_BYTE_LENGTH` bytes. Each record is read with one byte more than its
/// length, so the last record that starts before `cap` must end before the
/// end of the page.
pub fn vertices_from_bytes(buffer: &[u8; VERTEX_PAGE_LENGTH], start_pos: u64, cap: usize) -> (r:
    Result<Vec<Vertex>, VertexCreationError>)
    requires
        cap <= 494,
        start_pos + cap <= u64::MAX,
    ensures
        r matches Ok(vs) && vs@.len() == (cap + 12) / 13 && (forall|k: int|
            0 <= k < vs@.len() ==> vs@[k] == page_vertex(buffer@, start_pos, 13 * k)),
{
    let ghost page = buffer@;
    let bytes = buffer.as_slice();
    let mut vertices: Vec<Vertex> = Vec::new();
    let mut i: usize = 0;
    while i < cap
        invariant
            bytes@ == page,
            page.len() == VERTEX_PAGE_LENGTH,
            cap <= 494,
            start_pos + cap <= u64::MAX,
            i % 13 == 0,
            i < cap ==> i + 14 <= 507,
            cap <= i ==> i < cap + 13,
            vertices@.len() == i / 13,
            forall|k: int|
                0 <= k < vertices@.len() ==> vertices@[k] == page_vertex(page, start_pos, 13 * k),
        decreases cap + 13 - i,
    {
        let id = ((start_pos + i as u64) / VERTEX_BYTE_LENGTH as u64) as VertexId;
        let record = crate::encoding::copy_range(bytes, i, i + VERTEX_BYTE_LENGTH + 1);
        let new_vert = Vertex::from_bytes(record.as_slice(), id);
        match new_vert {
            Ok(v) => {
                vertices.push(v);
            },
            Err(e) => {
                return Err(e);
            },
        }
        i = i + VERTEX_BYTE_LENGTH;
    }
    Ok(vertices)
}


/// The relationship decoded from the page `buffer` at byte `i`: the record
/// bytes taken are `buffer[i..=i + RELATIONSHIP_BYTE_LENGTH]`, and the id is
/// the record's place counted from `start_pos`.
pub open spec fn page_rel(buffer: Seq<u8>, start_pos: u64, i: int) -> Relationship {
    Relationship::spec_decode(
        buffer.subrange(i, i + RELATIONSHIP_BYTE_LENGTH + 1),
        ((start_pos + i - START_RELATIONSHIPS) / (RELATIONSHIP_BYTE_LENGTH as int)) as RelationshipId,
    )
}

/// Decodes the relationship records that start in `buffer[0..cap]`, one
/// every `RELATIONSHIP_BYTE_LENGTH` bytes. Each record is read with one byte
/// more than its length, so the last record that starts before `cap` must
/// end before the end of the page.
pub fn rels_from_bytes(buffer: &[u8; RELATIONSHIP_PAGE_LENGTH], start_pos: u64, cap: usize) -> (r: Result<
    Vec<Relationship>,
    RelationshipCreationError,
>)
    requires
        cap <= 462,
        start_pos + cap <= u64::MAX,
    ensures
        r matches Ok(rs) && rs@.len() == (cap + 32) / 33 && (forall|k: int|
            0 <= k < rs@.len() ==> rs@[k] == page_rel(buffer@, start_pos, 33 * k)),
{
    let ghost page = buffer@;
    let bytes = buffer.as_slice();
    let mut rels: Vec<Relationship> = Vec::new();
    let mut i: usize = 0;
    while i < cap
        invariant
            bytes@ == page,
            page.len() == RELATIONSHIP_PAGE_LENGTH,
            cap <= 462,
            start_pos + cap <= u64::MAX,
            i % 33 == 0,
            i < cap ==> i + 34 <= 495,
            cap <= i ==> i < cap + 33,
            rels@.len() == i / 33,
            forall|k: int| 0 <= k < rels@.len() ==> rels@[k] == page_rel(page, start_pos, 33 * k),
        decreases cap + 33 - i,
    {
        #[verifier::truncate]
        let id = ((start_pos + i as u64 - START_RELATIONSHIPS as u64) / RELATIONSHIP_BYTE_LENGTH as u64) as RelationshipId;
        let record = crate::encoding::copy_range(bytes, i, i + RELATIONSHIP_BYTE_LENGTH + 1);
        match Relationship::from_bytes(record.as_slice(), id) {
            Ok(rel) => {
                rels.push(rel);
            },
            Err(e) => {
                return Err(e);
            },
        }
        i = i + RELATIONSHIP_BYTE_LENGTH;
    }
    Ok(rels)
}

/// Every vertex of the vertex file, which must be small enough to be read as
/// a single page (see `NodeIterator`): the vertices come last one first.
pub fn read_all_nodes(db_handle: &DB) -> (r: Vec<Vertex>)
    requires
        db_handle.vert_data().len() <= 494,
    ensures
        r@ == all_nodes(db_handle.vert_data()),
{
    let ghost data = db_handle.vert_data();
    let ghost zeros = Seq::new(VERTEX_PAGE_LENGTH as nat, |i: int| 0u8);
    let ghost cur = page_vertices(page_read(zeros, data, 0), data.len() as int);
    let mut it = NodeIterator::new(db_handle, Some(empty_filter));
    let mut out: Vec<Vertex> = Vec::new();
    let ghost mut fresh = true;
    loop
        invariant_except_break
            it.db() == *db_handle,
            data == db_handle.vert_data(),
            data.len() <= 494,
            cur == page_vertices(page_read(zeros, data, 0), data.len() as int),
            cur.len() <= 38,
            fresh ==> it.file_len() is None && it.last_pos() == 0 && it.buf() == zeros
                && it.current() == Seq::<Vertex>::empty() && out@ == Seq::<Vertex>::empty(),
            !fresh ==> it.file_len() == Some(data.len() as u64) && it.last_pos() == data.len()
                + VERTEX_PAGE_LENGTH && out@ + it.current().reverse() == cur.reverse(),
        ensures
            out@ == cur.reverse(),
        decreases (if fresh {
            100
        } else {
            it.current().len()
        }),
    {
        let ghost before = it.current();
        match it.next() {
            Some(v) => {
                out.push(v);
                proof {
                    if fresh {
                        assert(out@ + it.current().reverse() =~= cur.reverse());
                    } else {
                        assert(before.reverse() =~= seq![before.last()] + before.drop_last().reverse());
                        assert(out@ + it.current().reverse() =~= out@.drop_last() + before.reverse());
                    }
                    fresh = false;
                }
            },
            None => {
                proof {
                    if !fresh {
                        assert(out@ =~= out@ + it.current().reverse());
                    } else {
                        assert(cur.reverse() =~= Seq::<Vertex>::empty());
                    }
                }
                break;
            },
        }
    }
    out
}

} // verus!
