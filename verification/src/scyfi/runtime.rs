//! The decisions of the query runtime; its threads and channels are run by
//! the caller.
use vstd::prelude::*;
use crate::scyfi::errors::SpawnWorkerError;

verus! {

/// Whether a runtime with `workers` running workers, of at most
/// `max_workers`, may spawn one more, and the id the new worker gets: one
/// past the maximum. A runtime that already runs more workers than its
/// maximum refuses.
pub fn new_worker_id(workers: usize, max_workers: usize) -> (r: Result<usize, SpawnWorkerError>)
    requires
        max_workers < usize::MAX,
    ensures
        workers > max_workers ==> r == Err::<usize, SpawnWorkerError>(SpawnWorkerError::MaxWorkersExceeded),
        workers <= max_workers ==> r == Ok::<usize, SpawnWorkerError>((max_workers + 1) as usize),
{
    if workers > max_workers {
        return Err(SpawnWorkerError::MaxWorkersExceeded);
    }
    Ok(max_workers + 1)
}

} // verus!
