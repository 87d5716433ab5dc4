//! Sets of channels. A channel is what the handles of one shared value have in common; it
//! has a number.

use std::collections::HashSet;

use vstd::prelude::*;

verus! {

broadcast use vstd::std_specs::hash::group_hash_axioms;

/// A set of channels, such as those that have closed or those that are in use.
pub struct Channels {
    channels: HashSet<u64>,
}

impl View for Channels {
    type V = Set<u64>;

    closed spec fn view(&self) -> Set<u64> {
        self.channels@
    }
}

impl Channels {
    /// No channel.
    pub fn new() -> (r: Channels)
        ensures
            r@ == Set::<u64>::empty(),
    {
        Channels { channels: HashSet::new() }
    }

    /// Add a channel.
    pub fn insert(&mut self, channel: u64)
        ensures
            final(self)@ == old(self)@.insert(channel),
    {
        let _ = self.channels.insert(channel);
    }

    /// Take a channel out.
    pub fn remove(&mut self, channel: u64)
        ensures
            final(self)@ == old(self)@.remove(channel),
    {
        let _ = self.channels.remove(&channel);
    }

    /// Whether a channel is in the set.
    pub fn contains(&self, channel: u64) -> (r: bool)
        ensures
            r == self@.contains(channel),
    {
        self.channels.contains(&channel)
    }
}

} // verus!
