//! The states of a client connection.
use vstd::prelude::*;

verus! {

/// Where a connection stands in its life: from connecting through start-up
/// and authentication to serving queries, until it is closed.
#[derive(Debug, Clone, Copy, PartialEq, Eq)]
pub enum ConnStatus {
    Connecting,
    StartUp,
    Authenticating,
    Authenticated,
    Idle,
    Busy,
    Closed,
}

} // verus!
