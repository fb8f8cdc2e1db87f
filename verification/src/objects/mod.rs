pub mod free_chunks;
pub mod objects;
pub mod property;
pub mod relationship;
pub mod vertex;
