//! Sizes and positions of the records in the database files.
use vstd::prelude::*;

verus! {

pub const ID_BYTE_SIZE: usize = 4;

pub const BYTE_LENGTH: usize = 8;

pub type BobjLen = u16;

/// Bytes of a relationship record.
pub const RELATIONSHIP_BYTE_LENGTH: usize = 33;

pub const START_RELATIONSHIPS: usize = 0;

/// The relationship id that stands for "no relationship".
pub const RELATIONSHIP_NULL_ID: u32 = 0xffff_ffff;

/// Largest multiple of a relationship record that fits a page.
pub const RELATIONSHIP_PAGE_LENGTH: usize = 495;

/// Bytes of a vertex record.
pub const VERTEX_BYTE_LENGTH: usize = 13;

pub const START_VERTICES: usize = 0;

/// Largest multiple of a vertex record that fits a page.
pub const VERTEX_PAGE_LENGTH: usize = 507;

pub const START_PROPERTIES: usize = 0;

/// The property id that stands for "no property".
pub const PROPERTY_NULL_ID: u32 = 0xffff_ffff;

pub const START_TYPES: usize = 1024;

pub const START_TYPE_CONSTRAINTS: usize = 65535;

/// Bytes of a type record: name, constraints length, constraints offset.
pub const TYPE_REF_BYTE_LENGTH: usize = 128;

pub const TYPE_CONSTRAINTS_LENGTH_BYTE_LEN: usize = 2;

/// Bytes of the name part of a type record.
pub const TYPE_NAME_LENGTH: usize = 122;

/// Position of the number of stored types in the type file.
pub const TYPE_OFFSET_MR_ID: usize = 24;

/// The type id that stands for "no type".
pub const TYPE_NULL_ID: u32 = 0xffff_ffff;

pub const INDEX_START_ENTRIES: usize = 0;

pub const PAGE_SIZE: usize = 512;

pub const MAX_CONFIG_FILE_SIZE: u16 = 1000;

/// Number of type records that fit before the constraints area.
pub const MAX_TYPE_IDS: usize = 511;

pub const MAX_BOBJ_SIZE: u16 = 65535;

/// The constants written as numbers agree with the formulas that relate
/// them: page lengths, the start of the type area and the sizes within a
/// type record.
pub proof fn lemma_constants_consistent()
    ensures
        RELATIONSHIP_PAGE_LENGTH == (PAGE_SIZE / RELATIONSHIP_BYTE_LENGTH) * RELATIONSHIP_BYTE_LENGTH,
        VERTEX_PAGE_LENGTH == (PAGE_SIZE / VERTEX_BYTE_LENGTH) * VERTEX_BYTE_LENGTH,
        START_TYPES == PAGE_SIZE * 2,
        START_TYPE_CONSTRAINTS == u16::MAX as usize,
        TYPE_NAME_LENGTH == TYPE_REF_BYTE_LENGTH - ID_BYTE_SIZE - TYPE_CONSTRAINTS_LENGTH_BYTE_LEN,
        TYPE_CONSTRAINTS_LENGTH_BYTE_LEN == 16usize / BYTE_LENGTH,
        MAX_TYPE_IDS == START_TYPE_CONSTRAINTS / TYPE_REF_BYTE_LENGTH,
{
}

} // verus!
