//! The properties that a publisher gives a track.

use vstd::prelude::*;

use crate::model::time::{Duration, Timescale};

verus! {

/// Default [`Info::cache`] age in seconds when the publisher doesn't set one.
pub const DEFAULT_CACHE_SECS: u64 = 5;

/// Publisher-side properties of a track.
///
/// These are fixed by the publisher when the track is created and don't change
/// while the track is alive.
#[derive(Clone, Copy, Debug, PartialEq, Eq, Structural)]
#[non_exhaustive]
pub struct Info {
    /// Units per second for per-frame timestamps on this track.
    pub timescale: Timescale,
    /// How long the publisher keeps old groups available before evicting them
    /// (the newest group is always retained). A subscriber's stale window is clamped to
    /// this, since a group can't be waited for longer than it's kept around.
    pub cache: Duration,
    /// The publisher's priority for this track, used only to break ties between
    /// subscriptions of equal subscriber priority.
    pub priority: u8,
    /// The publisher's group ordering preference (newest-first when `false`), used
    /// only to break ties.
    pub ordered: bool,
}

impl Info {
    /// The properties of a track whose publisher sets none.
    pub open spec fn spec_default() -> Info {
        Info {
            timescale: Timescale::of(1_000),
            cache: Duration { nanos: 5_000_000_000 },
            priority: 0,
            ordered: true,
        }
    }

    /// Set the per-frame timestamp scale, returning `self` for chaining.
    pub fn with_timescale(self, timescale: Timescale) -> (r: Info)
        ensures
            r == (Info { timescale, ..self }),
    {
        Info { timescale, ..self }
    }

    /// Set how long old groups stay available before eviction, returning `self` for
    /// chaining.
    pub fn with_cache(self, cache: Duration) -> (r: Info)
        ensures
            r == (Info { cache, ..self }),
    {
        Info { cache, ..self }
    }

    /// Set the publisher's tie-break priority, returning `self` for chaining.
    pub fn with_priority(self, priority: u8) -> (r: Info)
        ensures
            r == (Info { priority, ..self }),
    {
        Info { priority, ..self }
    }

    /// Set the publisher's group ordering preference, returning `self` for chaining.
    pub fn with_ordered(self, ordered: bool) -> (r: Info)
        ensures
            r == (Info { ordered, ..self }),
    {
        Info { ordered, ..self }
    }

    /// Clamp a subscriber's stale window to this track's [`Self::cache`]: a
    /// subscriber can't wait for a late group longer than the publisher keeps it.
    pub fn clamp_stale(&self, stale: Duration) -> (r: Duration)
        ensures
            r == if stale.nanos <= self.cache.nanos {
                stale
            } else {
                self.cache
            },
    {
        stale.min(self.cache)
    }
}

impl Default for Info {
    fn default() -> (r: Info)
        ensures
            r == Info::spec_default(),
            r.timescale.as_u64() == 1_000,
            r.cache.nanos == 5_000_000_000,
            r.priority == 0,
            r.ordered,
    {
        Info {
            timescale: Timescale::milli(),
            cache: Duration::from_secs(DEFAULT_CACHE_SECS),
            priority: 0,
            ordered: true,
        }
    }
}

} // verus!
