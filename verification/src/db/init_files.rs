//! The contents of the files of a new database.
use vstd::prelude::*;
use crate::constants::{PAGE_SIZE, START_TYPES, START_TYPE_CONSTRAINTS, TYPE_OFFSET_MR_ID};
use crate::encoding;
use crate::io::file_image::read_ok;

verus! {

/// The contents of a new type file: zero pages up to and including the
/// byte at `START_TYPES + START_TYPE_CONSTRAINTS`. Its count of stored
/// types reads as zero.
pub fn init_type_file() -> (r: Vec<u8>)
    ensures
        r@.len() == START_TYPES + START_TYPE_CONSTRAINTS + 1,
        forall|k: int| 0 <= k < r@.len() ==> r@[k] == 0u8,
        read_ok(r@, TYPE_OFFSET_MR_ID as int, 4),
        encoding::u32_at(r@, TYPE_OFFSET_MR_ID as int) == 0,
{
    let mut file: Vec<u8> = Vec::new();
    let mut cur_pos: usize = 0;
    while cur_pos <= START_TYPE_CONSTRAINTS + START_TYPES
        invariant
            cur_pos % PAGE_SIZE == 0,
            cur_pos <= START_TYPE_CONSTRAINTS + START_TYPES + 1,
            file@.len() == cur_pos,
            forall|k: int| 0 <= k < file@.len() ==> file@[k] == 0u8,
        decreases START_TYPE_CONSTRAINTS + START_TYPES + 1 - cur_pos,
    {
        let mut i: usize = 0;
        while i < PAGE_SIZE
            invariant
                i <= PAGE_SIZE,
                file@.len() == cur_pos + i,
                forall|k: int| 0 <= k < file@.len() ==> file@[k] == 0u8,
            decreases PAGE_SIZE - i,
        {
            file.push(0u8);
            i = i + 1;
        }
        cur_pos = cur_pos + PAGE_SIZE;
    }
    assert(file@[24] == 0u8 && file@[25] == 0u8 && file@[26] == 0u8 && file@[27] == 0u8);
    file
}

} // verus!
