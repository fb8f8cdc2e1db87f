//! Errors of the query runtime.
use vstd::prelude::*;

verus! {

/// Spawning a worker failed.
#[derive(Debug, Clone, Copy, PartialEq, Eq)]
pub enum SpawnWorkerError {
    MaxWorkersExceeded,
}

impl SpawnWorkerError {
    /// The text of the error.
    pub fn to_string(&self) -> (r: String)
        ensures
            r@ == "Max workers exceeded"@,
    {
        match self {
            SpawnWorkerError::MaxWorkersExceeded => "Max workers exceeded".to_owned(),
        }
    }
}

} // verus!
