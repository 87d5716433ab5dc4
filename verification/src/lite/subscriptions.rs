//! The upstream subscriptions of a session, by the id that group streams carry.

use vstd::prelude::*;

use crate::error::Error;
use crate::keyed::KeyMap;
use crate::model::time::Timescale;

verus! {

/// Where the groups of a subscription go.
#[derive(Clone, Copy, Debug, PartialEq, Eq, Structural)]
pub struct TrackEntry {
    /// The track's channel.
    pub channel: u64,
    /// Timestamp scale from this track's TRACK_INFO, known before the SUBSCRIBE is even
    /// opened, so group streams decode frames without waiting.
    pub timescale: Option<Timescale>,
}

/// The live subscriptions, and the id for the next one.
pub struct Subscriptions {
    pub entries: KeyMap<u64, TrackEntry>,
    pub next_id: u64,
}

impl Subscriptions {
    /// What every table satisfies: ids are not reused.
    pub open spec fn well_formed(&self) -> bool {
        forall|id: u64| #[trigger] self.entries@.contains_key(id) ==> id < self.next_id
    }

    /// No subscription.
    pub fn new() -> (r: Subscriptions)
        ensures
            r.well_formed(),
            r.entries@ == Map::<u64, TrackEntry>::empty(),
            r.next_id == 0,
    {
        Subscriptions { entries: KeyMap::new(), next_id: 0 }
    }

    /// A fresh id.
    pub fn allocate(&mut self) -> (id: u64)
        requires
            old(self).well_formed(),
            old(self).next_id < u64::MAX,
        ensures
            final(self).well_formed(),
            id == old(self).next_id,
            final(self).next_id == id + 1,
            final(self).entries == old(self).entries,
            !final(self).entries@.contains_key(id),
    {
        let id: u64 = self.next_id;
        self.next_id = id + 1;
        id
    }

    /// Route the groups of a subscription.
    pub fn insert(&mut self, id: u64, entry: TrackEntry)
        requires
            old(self).well_formed(),
            id < old(self).next_id,
        ensures
            final(self).well_formed(),
            final(self).next_id == old(self).next_id,
            final(self).entries@ == old(self).entries@.insert(id, entry),
    {
        let _ = self.entries.insert(id, entry);
    }

    /// Stop routing the groups of a subscription.
    pub fn remove(&mut self, id: u64)
        requires
            old(self).well_formed(),
        ensures
            final(self).well_formed(),
            final(self).next_id == old(self).next_id,
            final(self).entries@ == old(self).entries@.remove(id),
    {
        let _ = self.entries.remove(&id);
    }

    /// Where a group stream goes. One for a subscription that is gone is cancelled.
    pub fn find(&self, id: u64) -> (r: Result<TrackEntry, Error>)
        ensures
            r == if self.entries@.contains_key(id) {
                Ok::<TrackEntry, Error>(self.entries@[id])
            } else {
                Err(Error::Cancel)
            },
    {
        match self.entries.get(&id) {
            Some(entry) => Ok(*entry),
            None => Err(Error::Cancel),
        }
    }
}

} // verus!
