//! The database: its files, its configuration and its version.
use vstd::prelude::*;
use crate::index::indexing::IndexFile;
use crate::objects::property::PropertyFile;
use crate::objects::relationship::RelationshipFile;
use crate::base_types::VertexId;
use crate::constants::VERTEX_BYTE_LENGTH;
use crate::errors::VertexCreationError;
use crate::io::file_image::read_exact_at;
use crate::objects::objects::Object;
use crate::objects::vertex::{vertex_at, vertex_in, Vertex, VertexFile};
use crate::types::type_management::TypeFile;

verus! {

/// The version of the database format.
#[derive(Debug, Clone, Copy, PartialEq, Eq)]
pub struct Version {
    pub major: u8,
    pub minor: u8,
}

impl Version {
    pub fn new(major: u8, minor: u8) -> (r: Self)
        ensures
            r == (Version { major, minor }),
    {
        Version { major, minor }
    }
}

/// The configuration of a database.
#[derive(Debug, Clone, Copy, PartialEq, Eq)]
pub struct Config {
    pub version: Version,
}

impl Config {
    /// Version 0.0.
    pub fn default() -> (r: Self)
        ensures
            r == (Config { version: Version { major: 0, minor: 0 } }),
    {
        Config { version: Version { major: 0, minor: 0 } }
    }
}

/// The files of a database.
#[derive(Debug)]
pub struct DBInner {
    pub f_rel: RelationshipFile,
    pub f_vert: VertexFile,
    pub f_prop: PropertyFile,
    pub f_tp: TypeFile,
    pub indices: Vec<IndexFile>,
}

impl DBInner {
    /// The files of a database, without indices.
    pub fn new(f_rel: RelationshipFile, f_vert: VertexFile, f_prop: PropertyFile, f_tp: TypeFile) -> (r: Self)
        ensures
            r.f_rel == f_rel,
            r.f_vert == f_vert,
            r.f_prop == f_prop,
            r.f_tp == f_tp,
            r.indices@ == Seq::<IndexFile>::empty(),
    {
        DBInner { f_rel, f_vert, f_prop, f_tp, indices: Vec::new() }
    }
}

/// A handle on a database.
#[derive(Debug)]
pub struct DB {
    pub db: DBInner,
}

impl DB {
    /// The contents of the vertex file.
    pub open spec fn vert_data(self) -> Seq<u8> {
        self.db.f_vert.data@
    }

    /// The contents of the relationship file.
    pub open spec fn rel_data(self) -> Seq<u8> {
        self.db.f_rel.data@
    }

    /// `other` differs from this database at most in the contents of its
    /// vertex and relationship files.
    pub open spec fn same_but_data(self, other: DB) -> bool {
        &&& other.db.f_prop == self.db.f_prop
        &&& other.db.f_tp == self.db.f_tp
        &&& other.db.indices == self.db.indices
        &&& other.db.f_vert.start_vertices == self.db.f_vert.start_vertices
        &&& other.db.f_vert.first_available_id == self.db.f_vert.first_available_id
        &&& other.db.f_vert.last_id == self.db.f_vert.last_id
        &&& other.db.f_rel.start_relationships == self.db.f_rel.start_relationships
        &&& other.db.f_rel.first_available_id == self.db.f_rel.first_available_id
    }

    /// `other` differs from this database at most in the contents of its
    /// vertex file.
    pub open spec fn same_but_vert_data(self, other: DB) -> bool {
        &&& other.db.f_rel == self.db.f_rel
        &&& other.db.f_prop == self.db.f_prop
        &&& other.db.f_tp == self.db.f_tp
        &&& other.db.indices == self.db.indices
        &&& other.db.f_tp == self.db.f_tp
        &&& other.db.indices == self.db.indices
        &&& other.db.f_vert.start_vertices == self.db.f_vert.start_vertices
        &&& other.db.f_vert.first_available_id == self.db.f_vert.first_available_id
        &&& other.db.f_vert.last_id == self.db.f_vert.last_id
    }

    /// `other` differs from this database at most in the contents of its
    /// relationship file.
    pub open spec fn same_but_rel_data(self, other: DB) -> bool {
        &&& other.db.f_vert == self.db.f_vert
        &&& other.db.f_prop == self.db.f_prop
        &&& other.db.f_tp == self.db.f_tp
        &&& other.db.indices == self.db.indices
        &&& other.db.f_rel.start_relationships == self.db.f_rel.start_relationships
        &&& other.db.f_rel.first_available_id == self.db.f_rel.first_available_id
    }
}

/// A named database with its configuration.
#[derive(Debug)]
pub struct GraphDB {
    pub db: DB,
    pub name: String,
    pub config: Config,
}

impl GraphDB {
    /// Reads vertex `vertex_id` from the vertex file.
    pub fn get_node(db_handle: &mut Self, vertex_id: VertexId) -> (r: Result<Vertex, VertexCreationError>)
        requires
            vertex_in(old(db_handle).db.vert_data(), vertex_id),
        ensures
            *final(db_handle) == *old(db_handle),
            r matches Ok(v) && v == vertex_at(old(db_handle).db.vert_data(), vertex_id),
    {
        let offset = VertexFile::get_offset_vert(vertex_id);
        let buf = read_exact_at(&db_handle.db.db.f_vert.data, VERTEX_BYTE_LENGTH, offset).unwrap();
        Vertex::from_bytes(buf.as_slice(), vertex_id)
    }
}

} // verus!
