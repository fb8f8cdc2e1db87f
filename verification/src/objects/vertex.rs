//! Vertices and the vertex file.
use vstd::prelude::*;
use crate::base_types::{PropertyId, RelationshipId, VertexId, ID};
use crate::constants::{RELATIONSHIP_NULL_ID, START_VERTICES, VERTEX_BYTE_LENGTH};
use crate::encoding;
use crate::errors::{RelationshipCreationFailure, VertexCreationError, VertexCreationFailure};
use crate::io::read::read_relationship_locked;
use crate::objects::relationship::{rel_at, rel_in};
use crate::db::db::DB;
use crate::objects::objects::Object;

verus! {

/// A vertex: its id and its stored record.
#[derive(Debug, Copy, Clone, PartialEq, Eq)]
pub struct Vertex {
    pub id: VertexId,
    pub vertex: FileVertex,
}

impl Vertex {
    pub fn new(id: VertexId, vertex: FileVertex) -> (r: Vertex)
        ensures
            r == (Vertex { id, vertex }),
    {
        Vertex { id, vertex }
    }

    /// Vertex 0, in use, with no relationship and no property.
    pub fn default() -> (r: Vertex)
        ensures
            r == (Vertex {
                id: 0,
                vertex: FileVertex {
                    first_rel: RELATIONSHIP_NULL_ID,
                    first_prop: RELATIONSHIP_NULL_ID,
                    in_usage: true,
                },
            }),
    {
        Vertex::new(0, FileVertex::new(true, None, None))
    }

    pub fn from_file_vertex(fv: &FileVertex, id: VertexId) -> (r: Vertex)
        ensures
            r == (Vertex { id, vertex: *fv }),
    {
        Vertex { id, vertex: *fv }
    }
}

/// Where a new relationship of vertex `v` is linked into its ring, read
/// from the relationship file `rd`: the last relationship of the ring and the
/// first one. A vertex without relationships gives the null id twice; a first
/// relationship past the end of the file, or one that does not touch `v`,
/// gives nothing.
pub open spec fn prev_next(v: Vertex, rd: Seq<u8>) -> Option<(RelationshipId, RelationshipId)> {
    let f = v.vertex.first_rel;
    if f == RELATIONSHIP_NULL_ID {
        Some((RELATIONSHIP_NULL_ID, RELATIONSHIP_NULL_ID))
    } else if !rel_in(rd, f) {
        None
    } else {
        let r = rel_at(rd, f);
        if v.id == r.rel.vertex_refs.start_vertex {
            Some((r.rel.vertex_refs.start_prev, r.id))
        } else if v.id == r.rel.vertex_refs.end_vertex {
            Some((r.rel.vertex_refs.end_prev, r.id))
        } else {
            None
        }
    }
}

impl Vertex {
    pub fn get_prev_next(&self, db_handle: &DB) -> (r: Option<(RelationshipId, RelationshipId)>)
        ensures
            r == prev_next(*self, db_handle.rel_data()),
    {
        match read_relationship_locked(db_handle, self.vertex.first_rel) {
            Ok(first_rel) => {
                if self.id == first_rel.rel.vertex_refs.start_vertex {
                    Some((first_rel.rel.vertex_refs.start_prev, first_rel.id))
                } else if self.id == first_rel.rel.vertex_refs.end_vertex {
                    Some((first_rel.rel.vertex_refs.end_prev, first_rel.id))
                } else {
                    None
                }
            },
            Err(e) => match e.reason {
                RelationshipCreationFailure::ReadNullId => Some(
                    (RELATIONSHIP_NULL_ID, RELATIONSHIP_NULL_ID),
                ),
                _ => None,
            },
        }
    }
}

impl Object for Vertex {
    type Err = VertexCreationError;

    open spec fn spec_to_bytes(&self) -> Seq<u8> {
        self.vertex.spec_to_bytes()
    }

    open spec fn spec_byte_len(&self) -> usize {
        (VERTEX_BYTE_LENGTH + 4) as usize
    }

    open spec fn decodable(bytes: Seq<u8>) -> bool {
        FileVertex::decodable(bytes)
    }

    open spec fn spec_decode(bytes: Seq<u8>, id: ID) -> Self {
        Vertex { id, vertex: FileVertex::spec_decode(bytes, 0) }
    }

    open spec fn decode_error(bytes: Seq<u8>, e: Self::Err) -> bool {
        FileVertex::decode_error(bytes, e)
    }

    fn to_bytes(&self) -> (r: Vec<u8>) {
        self.vertex.to_bytes()
    }

    fn from_bytes(bytes: &[u8], id: VertexId) -> (r: Result<Vertex, VertexCreationError>) {
        match FileVertex::from_bytes(bytes, 0) {
            Ok(fv) => Ok(Vertex::from_file_vertex(&fv, id)),
            Err(e) => Err(e),
        }
    }

    fn byte_len(&self) -> (r: usize) {
        self.vertex.byte_len() + 4
    }
}

/// The stored part of a vertex. Its encoding is the first relationship id
/// and the first property id (each four bytes, little endian), a byte for
/// the usage flag, and four zero bytes that fill the record.
#[derive(Debug, Clone, Copy, PartialEq, Eq)]
pub struct FileVertex {
    pub first_rel: RelationshipId,
    pub first_prop: PropertyId,
    pub in_usage: bool,
}

/// Bytes that the fields of a stored vertex take.
pub open spec fn file_vertex_size() -> int {
    9
}

impl FileVertex {
    /// A vertex record; missing ids become the null id.
    pub fn new(in_usage: bool, first_rel: Option<RelationshipId>, first_prop: Option<PropertyId>) -> (r: Self)
        ensures
            r.in_usage == in_usage,
            r.first_rel == (match first_rel {
                Some(x) => x,
                None => RELATIONSHIP_NULL_ID,
            }),
            r.first_prop == (match first_prop {
                Some(x) => x,
                None => RELATIONSHIP_NULL_ID,
            }),
    {
        FileVertex {
            in_usage,
            first_rel: match first_rel {
                Some(x) => x,
                None => RELATIONSHIP_NULL_ID,
            },
            first_prop: match first_prop {
                Some(x) => x,
                None => RELATIONSHIP_NULL_ID,
            },
        }
    }

    /// Bytes of a vertex record.
    pub fn byte_len() -> (r: usize)
        ensures
            r == VERTEX_BYTE_LENGTH,
    {
        VERTEX_BYTE_LENGTH
    }
}

/// The message of a decoding error: expected and actual lengths.
pub open spec fn wrong_length_message(what: Seq<char>, expected: nat, actual: nat) -> Seq<u8> {
    encoding::utf8("Expected "@ + what + ".len() to be "@) + encoding::decimal_ascii(expected)
        + encoding::utf8(", got "@) + encoding::decimal_ascii(actual)
}

/// Builds the message of a decoding error.
pub fn wrong_length_text(what: &str, expected: u64, actual: u64) -> (r: String)
    ensures
        r@ == encoding::lossy_utf8(
            wrong_length_message(what@, expected as nat, actual as nat),
        ),
{
    let mut b = encoding::str_bytes("Expected ");
    let w = encoding::str_bytes(what);
    encoding::append_bytes(&mut b, w.as_slice());
    let t = encoding::str_bytes(".len() to be ");
    encoding::append_bytes(&mut b, t.as_slice());
    encoding::push_decimal(&mut b, expected);
    let g = encoding::str_bytes(", got ");
    encoding::append_bytes(&mut b, g.as_slice());
    encoding::push_decimal(&mut b, actual);
    proof {
        crate::encoding::lemma_utf8_concat("Expected "@, what@);
        crate::encoding::lemma_utf8_concat("Expected "@ + what@, ".len() to be "@);
    }
    encoding::string_from_utf8_lossy(b.as_slice())
}

impl Object for FileVertex {
    type Err = VertexCreationError;

    open spec fn spec_to_bytes(&self) -> Seq<u8> {
        encoding::le_u32(self.first_rel) + encoding::le_u32(self.first_prop) + seq![
            encoding::bool_byte(self.in_usage),
        ] + seq![0u8, 0u8, 0u8, 0u8]
    }

    open spec fn spec_byte_len(&self) -> usize {
        VERTEX_BYTE_LENGTH
    }

    open spec fn decodable(bytes: Seq<u8>) -> bool {
        bytes.len() >= file_vertex_size()
    }

    open spec fn spec_decode(bytes: Seq<u8>, id: ID) -> Self {
        FileVertex {
            first_rel: encoding::u32_at(bytes, 0),
            first_prop: encoding::u32_at(bytes, 4),
            in_usage: bytes[8] != 0,
        }
    }

    open spec fn decode_error(bytes: Seq<u8>, e: Self::Err) -> bool {
        &&& e.reason == VertexCreationFailure::WrongByteLength
        &&& e.message@ == encoding::lossy_utf8(
            wrong_length_message("file_vertex_bytes"@, 9, bytes.len()),
        )
    }

    fn to_bytes(&self) -> (r: Vec<u8>) {
        let mut r: Vec<u8> = Vec::new();
        encoding::push_u32_le(&mut r, self.first_rel);
        encoding::push_u32_le(&mut r, self.first_prop);
        r.push(if self.in_usage {
            1
        } else {
            0
        });
        r.push(0);
        r.push(0);
        r.push(0);
        r.push(0);
        r
    }

    fn from_bytes(bytes: &[u8], _id: VertexId) -> (r: Result<Self, VertexCreationError>) {
        let expected_size: usize = 9;
        let actual_size = bytes.len();
        if actual_size < expected_size {
            let message = wrong_length_text(
                "file_vertex_bytes",
                expected_size as u64,
                actual_size as u64,
            );
            return Err(
                VertexCreationError { reason: VertexCreationFailure::WrongByteLength, message },
            );
        }
        Ok(
            FileVertex {
                first_rel: encoding::read_u32_le(bytes, 0),
                first_prop: encoding::read_u32_le(bytes, 4),
                in_usage: bytes[8] != 0,
            },
        )
    }

    fn byte_len(&self) -> (r: usize) {
        VERTEX_BYTE_LENGTH
    }
}

/// Encoding a vertex record and decoding it gives it back.
pub proof fn lemma_file_vertex_roundtrip(v: FileVertex, id: ID)
    ensures
        v.spec_to_bytes().len() == VERTEX_BYTE_LENGTH,
        FileVertex::decodable(v.spec_to_bytes()),
        FileVertex::spec_decode(v.spec_to_bytes(), id) == v,
{
    encoding::lemma_u32_roundtrip(v.first_rel);
    encoding::lemma_u32_roundtrip(v.first_prop);
    let b = v.spec_to_bytes();
    assert(encoding::u32_at(b, 0) == encoding::u32_at(encoding::le_u32(v.first_rel), 0));
    assert(encoding::u32_at(b, 4) == encoding::u32_at(encoding::le_u32(v.first_prop), 0));
}

/// Where vertex `vertex_id` is stored in the vertex file.
pub open spec fn spec_offset_vert(vertex_id: VertexId) -> int {
    vertex_id * VERTEX_BYTE_LENGTH + START_VERTICES
}

/// The record of vertex `id` lies inside the vertex file `data`, at an
/// offset that the 32-bit computation of the original layout can reach.
pub open spec fn vertex_in(data: Seq<u8>, id: VertexId) -> bool {
    &&& id * VERTEX_BYTE_LENGTH + START_VERTICES <= u32::MAX
    &&& spec_offset_vert(id) + VERTEX_BYTE_LENGTH <= data.len()
}

/// The vertex that the vertex file `data` holds at `id`.
pub open spec fn vertex_at(data: Seq<u8>, id: VertexId) -> Vertex {
    Vertex::spec_decode(
        data.subrange(spec_offset_vert(id), spec_offset_vert(id) + VERTEX_BYTE_LENGTH),
        id,
    )
}

/// The vertex file: its contents and the next free vertex id.
#[derive(Debug)]
pub struct VertexFile {
    pub data: Vec<u8>,
    pub start_vertices: usize,
    pub first_available_id: VertexId,
    pub last_id: VertexId,
}

impl VertexFile {
    /// A vertex file with the given contents; ids are handed out from 0.
    pub fn new(data: Vec<u8>) -> (r: Self)
        ensures
            r.data@ == data@,
            r.start_vertices == START_VERTICES,
            r.first_available_id == 0,
            r.last_id == 0,
    {
        VertexFile { data, start_vertices: START_VERTICES, first_available_id: 0, last_id: 0 }
    }

    /// Position of a vertex record; the product is taken in 32 bits.
    pub fn get_offset_vert(vertex_id: VertexId) -> (r: u64)
        requires
            vertex_id * VERTEX_BYTE_LENGTH + START_VERTICES <= u32::MAX,
        ensures
            r == spec_offset_vert(vertex_id),
    {
        ((vertex_id * VERTEX_BYTE_LENGTH as u32) + START_VERTICES as u32) as u64
    }

    /// Hands out the next free vertex id and advances it; nothing else of
    /// the database changes.
    pub fn get_first_available_id(db_handle: &mut DB) -> (r: Option<VertexId>)
        requires
            old(db_handle).db.f_vert.first_available_id < u32::MAX,
        ensures
            r == Some(old(db_handle).db.f_vert.first_available_id),
            final(db_handle).db.f_vert.first_available_id == old(
                db_handle,
            ).db.f_vert.first_available_id + 1,
            final(db_handle).db.f_vert.data@ == old(db_handle).db.f_vert.data@,
            final(db_handle).db.f_vert.last_id == old(db_handle).db.f_vert.last_id,
            final(db_handle).db.f_vert.start_vertices == old(db_handle).db.f_vert.start_vertices,
            final(db_handle).db.f_rel == old(db_handle).db.f_rel,
            final(db_handle).db.f_prop == old(db_handle).db.f_prop,
            final(db_handle).db.f_tp == old(db_handle).db.f_tp,
            final(db_handle).db.indices == old(db_handle).db.indices,
    {
        let new_id = db_handle.db.f_vert.first_available_id;
        db_handle.db.f_vert.first_available_id = new_id + 1;
        Some(new_id)
    }
}

} // verus!
