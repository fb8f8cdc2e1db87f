//! Free places in the relationship file.
use vstd::prelude::*;

verus! {

/// The offsets of relationship records that may be reused.
#[derive(Debug)]
pub struct RelationshipFreeChunks {
    pub chunks: Vec<u64>,
}

impl RelationshipFreeChunks {
    /// No free places.
    pub fn new() -> (r: Self)
        ensures
            r.chunks@ == Seq::<u64>::empty(),
    {
        RelationshipFreeChunks { chunks: Vec::new() }
    }
}

} // verus!
