pub mod auth_req;
pub mod auth_req_ack;
pub mod messages;
pub mod startup;
pub mod startup_ack;

use vstd::prelude::*;

verus! {

/// A header whose encoded size is known.
pub trait Header {
    spec fn spec_size(&self) -> usize;

    fn size(&self) -> (r: usize)
        ensures
            r == self.spec_size(),
    ;
}

} // verus!
