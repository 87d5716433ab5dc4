//! Tracks a session's connection progress so that connecting can wait until it's done.
//!
//! Connecting means every announce-prefix stream has received its initial set. Each step in
//! flight is counted; the session is connected once they've all finished. A failed step
//! finishes too, so it can't hold the connection up.

use vstd::prelude::*;

use crate::poll::Poll;

verus! {

/// The connection steps that are in flight.
pub struct Connecting {
    pub steps: u64,
}

impl Connecting {
    /// One step in flight.
    pub fn new() -> (r: Connecting)
        ensures
            r.steps == 1,
    {
        Connecting { steps: 1 }
    }

    /// Add a step.
    pub fn add_step(&mut self)
        requires
            old(self).steps < u64::MAX,
        ensures
            final(self).steps == old(self).steps + 1,
    {
        self.steps = self.steps + 1;
    }

    /// A step is done, or was given up.
    pub fn finish_step(&mut self)
        requires
            old(self).steps > 0,
        ensures
            final(self).steps == old(self).steps - 1,
    {
        self.steps = self.steps - 1;
    }

    /// Poll for connection completion: ready once every step is done.
    pub fn poll_ready(&self) -> (r: Poll<()>)
        ensures
            r == if self.steps == 0 {
                Poll::Ready(())
            } else {
                Poll::Pending
            },
    {
        if self.steps == 0 {
            Poll::Ready(())
        } else {
            Poll::Pending
        }
    }
}

} // verus!
