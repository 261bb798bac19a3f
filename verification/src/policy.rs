//! Routing policy

use vstd::prelude::*;

verus! {

/// Tie-break rule used when an `Any` or collapsed `Broadcast` destination
/// must pick one endpoint among several registered for the same payload type.
#[derive(Clone, Copy, Debug)]
pub enum Policy {
    /// Dispatch messages to endpoints in round-robin
    RoundRobin,
    /// Dispatch messages to endpoints in a random order
    Random,
}

impl Default for Policy {
    /// The default policy is round-robin.
    fn default() -> (p: Self)
        ensures
            p == Policy::RoundRobin,
    {
        Policy::RoundRobin
    }
}

} // verus!
