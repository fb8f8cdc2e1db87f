//! Relationships, their stored records and the relationship file.
//!
//! A relationship joins a start vertex and an end vertex. Every vertex keeps
//! the relationships it takes part in as a ring: each record holds, for its
//! start vertex and for its end vertex, the previous and the next relationship
//! of that vertex's ring.
use vstd::prelude::*;
use crate::base_types::{PropertyId, RelationshipId, RelationshipType, VertexId, ID};
use crate::constants::{RELATIONSHIP_BYTE_LENGTH, START_RELATIONSHIPS};
use crate::db::db::DB;
use crate::encoding;
use crate::errors::{RelationshipCreationError, RelationshipCreationFailure};
use crate::objects::objects::Object;
use crate::objects::vertex::wrong_length_message;
use crate::objects::vertex::Vertex;
use crate::objects::vertex::wrong_length_text;

verus! {

/// A relationship: its id and its stored record.
#[derive(Debug, Clone, Copy, PartialEq, Eq)]
pub struct Relationship {
    pub id: RelationshipId,
    pub rel: FileRelationship,
}

impl Relationship {
    /// A relationship `id` from `start_vertex` to `end_vertex`, in use, with
    /// all its ring pointers 0; none for a vertex and itself.
    pub fn new(
        db_handle: &DB,
        id: RelationshipId,
        start_vertex: Vertex,
        end_vertex: Vertex,
        rel_type: u32,
        first_prop: PropertyId,
    ) -> (r: Option<Self>)
        ensures
            r is None <==> start_vertex.id == end_vertex.id,
            r matches Some(rel) ==> rel == (Relationship {
                id,
                rel: FileRelationship {
                    vertex_refs: RelationshipVertexRefs {
                        start_vertex: start_vertex.id,
                        end_vertex: end_vertex.id,
                        start_prev: 0,
                        start_next: 0,
                        end_prev: 0,
                        end_next: 0,
                    },
                    first_prop,
                    rel_type,
                    in_usage: true,
                },
            }),
    {
        if end_vertex.id == start_vertex.id {
            return None;
        }
        let vertex_refs = RelationshipVertexRefs {
            start_vertex: start_vertex.id,
            end_vertex: end_vertex.id,
            start_prev: 0,
            start_next: 0,
            end_prev: 0,
            end_next: 0,
        };
        let file_rel = FileRelationship::new(first_prop, rel_type, true, vertex_refs);
        Some(Relationship { id, rel: file_rel })
    }

    /// Relationship 0 between vertex 0 and itself, every pointer 0, in use.
    pub fn default() -> (r: Self)
        ensures
            r == (Relationship {
                id: 0,
                rel: FileRelationship {
                    vertex_refs: RelationshipVertexRefs {
                        start_vertex: 0,
                        end_vertex: 0,
                        start_prev: 0,
                        start_next: 0,
                        end_prev: 0,
                        end_next: 0,
                    },
                    first_prop: 0,
                    rel_type: 0,
                    in_usage: true,
                },
            }),
    {
        Relationship {
            id: 0,
            rel: FileRelationship {
                vertex_refs: RelationshipVertexRefs {
                    start_vertex: 0,
                    end_vertex: 0,
                    start_prev: 0,
                    start_next: 0,
                    end_prev: 0,
                    end_next: 0,
                },
                first_prop: 0,
                rel_type: 0,
                in_usage: true,
            },
        }
    }

    pub fn from_file_relationship(file_rel: &FileRelationship, id: RelationshipId) -> (r: Self)
        ensures
            r == (Relationship { id, rel: *file_rel }),
    {
        Relationship { id, rel: *file_rel }
    }
}

impl Object for Relationship {
    type Err = RelationshipCreationError;

    open spec fn spec_to_bytes(&self) -> Seq<u8> {
        self.rel.spec_to_bytes()
    }

    open spec fn spec_byte_len(&self) -> usize {
        (RELATIONSHIP_BYTE_LENGTH + 4) as usize
    }

    open spec fn decodable(bytes: Seq<u8>) -> bool {
        FileRelationship::decodable(bytes)
    }

    open spec fn spec_decode(bytes: Seq<u8>, id: ID) -> Self {
        Relationship { id, rel: FileRelationship::spec_decode(bytes, 0) }
    }

    open spec fn decode_error(bytes: Seq<u8>, e: Self::Err) -> bool {
        FileRelationship::decode_error(bytes, e)
    }

    fn to_bytes(&self) -> (r: Vec<u8>) {
        self.rel.to_bytes()
    }

    fn from_bytes(bytes: &[u8], id: ID) -> (r: Result<Relationship, RelationshipCreationError>) {
        match FileRelationship::from_bytes(bytes, 0) {
            Ok(fr) => Ok(Relationship::from_file_relationship(&fr, id)),
            Err(e) => Err(e),
        }
    }

    fn byte_len(&self) -> (r: usize) {
        self.rel.byte_len() + 4
    }
}

/// The stored part of a relationship. Its encoding is the six vertex and
/// pointer ids, the first property id and the relationship type (each four
/// bytes, little endian), then a byte for the usage flag.
#[derive(Debug, Clone, Copy, PartialEq, Eq)]
pub struct FileRelationship {
    pub vertex_refs: RelationshipVertexRefs,
    pub first_prop: PropertyId,
    pub rel_type: RelationshipType,
    pub in_usage: bool,
}

impl FileRelationship {
    pub fn new(
        first_prop: PropertyId,
        rel_type: RelationshipType,
        in_usage: bool,
        vertex_refs: RelationshipVertexRefs,
    ) -> (r: Self)
        ensures
            r == (FileRelationship { vertex_refs, first_prop, rel_type, in_usage }),
    {
        FileRelationship { vertex_refs, first_prop, rel_type, in_usage }
    }

    pub fn refs(&self) -> (r: RelationshipVertexRefs)
        ensures
            r == self.vertex_refs,
    {
        self.vertex_refs
    }

    pub fn props(&self) -> (r: PropertyId)
        ensures
            r == self.first_prop,
    {
        self.first_prop
    }
}

/// The encoding of the six ids of a relationship's vertex references.
pub open spec fn refs_bytes(v: RelationshipVertexRefs) -> Seq<u8> {
    encoding::le_u32(v.start_vertex) + encoding::le_u32(v.end_vertex) + encoding::le_u32(
        v.start_prev,
    ) + encoding::le_u32(v.start_next) + encoding::le_u32(v.end_prev) + encoding::le_u32(
        v.end_next,
    )
}

impl Object for FileRelationship {
    type Err = RelationshipCreationError;

    open spec fn spec_to_bytes(&self) -> Seq<u8> {
        refs_bytes(self.vertex_refs) + encoding::le_u32(self.first_prop) + encoding::le_u32(
            self.rel_type,
        ) + seq![encoding::bool_byte(self.in_usage)]
    }

    open spec fn spec_byte_len(&self) -> usize {
        RELATIONSHIP_BYTE_LENGTH
    }

    open spec fn decodable(bytes: Seq<u8>) -> bool {
        bytes.len() >= RELATIONSHIP_BYTE_LENGTH
    }

    open spec fn spec_decode(bytes: Seq<u8>, id: ID) -> Self {
        FileRelationship {
            vertex_refs: RelationshipVertexRefs {
                start_vertex: encoding::u32_at(bytes, 0),
                end_vertex: encoding::u32_at(bytes, 4),
                start_prev: encoding::u32_at(bytes, 8),
                start_next: encoding::u32_at(bytes, 12),
                end_prev: encoding::u32_at(bytes, 16),
                end_next: encoding::u32_at(bytes, 20),
            },
            first_prop: encoding::u32_at(bytes, 24),
            rel_type: encoding::u32_at(bytes, 28),
            in_usage: bytes[32] != 0,
        }
    }

    open spec fn decode_error(bytes: Seq<u8>, e: Self::Err) -> bool {
        &&& e.reason == RelationshipCreationFailure::WrongByteLength
        &&& e.message@ == encoding::lossy_utf8(
            wrong_length_message("file_relationship_bytes"@, 33, bytes.len()),
        )
    }

    fn to_bytes(&self) -> (r: Vec<u8>) {
        let mut r: Vec<u8> = Vec::new();
        encoding::push_u32_le(&mut r, self.vertex_refs.start_vertex);
        encoding::push_u32_le(&mut r, self.vertex_refs.end_vertex);
        encoding::push_u32_le(&mut r, self.vertex_refs.start_prev);
        encoding::push_u32_le(&mut r, self.vertex_refs.start_next);
        encoding::push_u32_le(&mut r, self.vertex_refs.end_prev);
        encoding::push_u32_le(&mut r, self.vertex_refs.end_next);
        encoding::push_u32_le(&mut r, self.first_prop);
        encoding::push_u32_le(&mut r, self.rel_type);
        r.push(
            if self.in_usage {
                1
            } else {
                0
            },
        );
        r
    }

    fn from_bytes(bytes: &[u8], _id: ID) -> (r: Result<FileRelationship, RelationshipCreationError>) {
        let expected_size: usize = RELATIONSHIP_BYTE_LENGTH;
        let actual_size = bytes.len();
        if actual_size < expected_size {
            let message = wrong_length_text(
                "file_relationship_bytes",
                expected_size as u64,
                actual_size as u64,
            );
            return Err(
                RelationshipCreationError {
                    reason: RelationshipCreationFailure::WrongByteLength,
                    message,
                },
            );
        }
        Ok(
            FileRelationship {
                vertex_refs: RelationshipVertexRefs {
                    start_vertex: encoding::read_u32_le(bytes, 0),
                    end_vertex: encoding::read_u32_le(bytes, 4),
                    start_prev: encoding::read_u32_le(bytes, 8),
                    start_next: encoding::read_u32_le(bytes, 12),
                    end_prev: encoding::read_u32_le(bytes, 16),
                    end_next: encoding::read_u32_le(bytes, 20),
                },
                first_prop: encoding::read_u32_le(bytes, 24),
                rel_type: encoding::read_u32_le(bytes, 28),
                in_usage: bytes[32] != 0,
            },
        )
    }

    fn byte_len(&self) -> (r: usize) {
        RELATIONSHIP_BYTE_LENGTH
    }
}

/// Encoding a relationship record and decoding it gives it back.
pub proof fn lemma_file_relationship_roundtrip(r: FileRelationship, id: ID)
    ensures
        r.spec_to_bytes().len() == RELATIONSHIP_BYTE_LENGTH,
        FileRelationship::decodable(r.spec_to_bytes()),
        FileRelationship::spec_decode(r.spec_to_bytes(), id) == r,
{
    let v = r.vertex_refs;
    encoding::lemma_u32_roundtrip(v.start_vertex);
    encoding::lemma_u32_roundtrip(v.end_vertex);
    encoding::lemma_u32_roundtrip(v.start_prev);
    encoding::lemma_u32_roundtrip(v.start_next);
    encoding::lemma_u32_roundtrip(v.end_prev);
    encoding::lemma_u32_roundtrip(v.end_next);
    encoding::lemma_u32_roundtrip(r.first_prop);
    encoding::lemma_u32_roundtrip(r.rel_type);
    let b = r.spec_to_bytes();
    assert(encoding::u32_at(b, 0) == encoding::u32_at(encoding::le_u32(v.start_vertex), 0));
    assert(encoding::u32_at(b, 4) == encoding::u32_at(encoding::le_u32(v.end_vertex), 0));
    assert(encoding::u32_at(b, 8) == encoding::u32_at(encoding::le_u32(v.start_prev), 0));
    assert(encoding::u32_at(b, 12) == encoding::u32_at(encoding::le_u32(v.start_next), 0));
    assert(encoding::u32_at(b, 16) == encoding::u32_at(encoding::le_u32(v.end_prev), 0));
    assert(encoding::u32_at(b, 20) == encoding::u32_at(encoding::le_u32(v.end_next), 0));
    assert(encoding::u32_at(b, 24) == encoding::u32_at(encoding::le_u32(r.first_prop), 0));
    assert(encoding::u32_at(b, 28) == encoding::u32_at(encoding::le_u32(r.rel_type), 0));
}

/// The vertices of a relationship and its neighbours in their two rings.
#[derive(Debug, Clone, Copy, PartialEq, Eq)]
pub struct RelationshipVertexRefs {
    pub start_vertex: VertexId,
    pub end_vertex: VertexId,
    pub start_prev: VertexId,
    pub start_next: VertexId,
    pub end_prev: VertexId,
    pub end_next: VertexId,
}

impl RelationshipVertexRefs {
    pub fn new(
        sv: VertexId,
        ev: VertexId,
        sp: VertexId,
        sn: VertexId,
        ep: VertexId,
        en: VertexId,
    ) -> (r: Self)
        ensures
            r == (RelationshipVertexRefs {
                start_vertex: sv,
                end_vertex: ev,
                start_prev: sp,
                start_next: sn,
                end_prev: ep,
                end_next: en,
            }),
    {
        RelationshipVertexRefs {
            start_vertex: sv,
            end_vertex: ev,
            start_prev: sp,
            start_next: sn,
            end_prev: ep,
            end_next: en,
        }
    }
}

/// Where relationship `rel_id` is stored in the relationship file: the
/// offset is the id itself past the start of the records.
pub open spec fn spec_offset_rel(rel_id: RelationshipId) -> int {
    rel_id + START_RELATIONSHIPS
}

/// The record of relationship `id` lies inside the relationship file `data`.
pub open spec fn rel_in(data: Seq<u8>, id: RelationshipId) -> bool {
    spec_offset_rel(id) + RELATIONSHIP_BYTE_LENGTH <= data.len()
}

/// The relationship that the relationship file `data` holds at `id`.
pub open spec fn rel_at(data: Seq<u8>, id: RelationshipId) -> Relationship {
    Relationship::spec_decode(
        data.subrange(spec_offset_rel(id), spec_offset_rel(id) + RELATIONSHIP_BYTE_LENGTH),
        id,
    )
}

/// The relationship file: its contents and the next free relationship id.
#[derive(Debug)]
pub struct RelationshipFile {
    pub data: Vec<u8>,
    pub start_relationships: usize,
    pub first_available_id: RelationshipId,
}

impl RelationshipFile {
    /// A relationship file with the given contents; ids are handed out from 0.
    pub fn new(data: Vec<u8>) -> (r: Self)
        ensures
            r.data@ == data@,
            r.start_relationships == START_RELATIONSHIPS,
            r.first_available_id == 0,
    {
        RelationshipFile { data, start_relationships: START_RELATIONSHIPS, first_available_id: 0 }
    }

    /// Offset used for a vertex id in this file (the id itself).
    pub fn get_offset(vertex_id: VertexId) -> (r: u64)
        ensures
            r == vertex_id + START_RELATIONSHIPS,
    {
        (vertex_id + START_RELATIONSHIPS as u32) as u64
    }

    pub fn get_offset_rel(rel_id: RelationshipId) -> (r: u64)
        ensures
            r == spec_offset_rel(rel_id),
    {
        (rel_id + START_RELATIONSHIPS as u32) as u64
    }

    /// Hands out the next free relationship id and advances it; nothing
    /// else of the database changes.
    pub fn get_first_available_id(db_handle: &mut DB) -> (r: Option<RelationshipId>)
        requires
            old(db_handle).db.f_rel.first_available_id < u32::MAX,
        ensures
            r == Some(old(db_handle).db.f_rel.first_available_id),
            final(db_handle).db.f_rel.first_available_id == old(
                db_handle,
            ).db.f_rel.first_available_id + 1,
            final(db_handle).db.f_rel.data@ == old(db_handle).db.f_rel.data@,
            final(db_handle).db.f_rel.start_relationships == old(
                db_handle,
            ).db.f_rel.start_relationships,
            final(db_handle).db.f_vert == old(db_handle).db.f_vert,
            final(db_handle).db.f_prop == old(db_handle).db.f_prop,
            final(db_handle).db.f_tp == old(db_handle).db.f_tp,
            final(db_handle).db.indices == old(db_handle).db.indices,
    {
        let new_id = db_handle.db.f_rel.first_available_id;
        db_handle.db.f_rel.first_available_id = new_id + 1;
        Some(new_id)
    }

    /// Reads relationship `id_rel`; its record must lie inside the file.
    pub fn read_relationship(&self, id_rel: RelationshipId) -> (r: Option<Relationship>)
        requires
            rel_in(self.data@, id_rel),
        ensures
            r == Some(rel_at(self.data@, id_rel)),
    {
        let offset = Self::get_offset_rel(id_rel);
        let buffer = crate::io::file_image::read_exact_at(
            &self.data,
            RELATIONSHIP_BYTE_LENGTH,
            offset,
        ).unwrap();
        match Relationship::from_bytes(buffer.as_slice(), id_rel) {
            Ok(rel) => Some(rel),
            Err(_) => None,
        }
    }
}

} // verus!
