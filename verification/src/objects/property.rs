//! The property file.
use vstd::prelude::*;
use crate::constants::START_PROPERTIES;

verus! {

/// The property file: its contents.
#[derive(Debug)]
pub struct PropertyFile {
    pub data: Vec<u8>,
    pub start_properties: usize,
}

impl PropertyFile {
    /// A property file with the given contents.
    pub fn new(data: Vec<u8>) -> (r: Self)
        ensures
            r.data@ == data@,
            r.start_properties == START_PROPERTIES,
    {
        PropertyFile { data, start_properties: START_PROPERTIES }
    }
}

} // verus!
