//! The memory budget that cached groups share.

use vstd::prelude::*;

verus! {

/// The budget for cached groups under one origin.
#[derive(Clone, Copy, Debug, PartialEq, Eq, Structural)]
pub struct Pool {
    /// The most bytes to keep cached, or `None` for no bound.
    pub capacity: Option<u64>,
}

impl Default for Pool {
    /// An unbounded pool.
    fn default() -> (r: Pool)
        ensures
            r.capacity is None,
    {
        Pool { capacity: None }
    }
}

} // verus!
