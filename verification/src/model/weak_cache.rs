//! A keyed cache of weak handles with amortized garbage collection.


use vstd::prelude::*;

use crate::model::channels::Channels;
use crate::keyed::{Key, KeyMap};

verus! {

broadcast use vstd::std_specs::hash::group_hash_axioms;

/// Number of ring slots probed per insert. A small constant keeps each insert
/// O(1) while the rotating window covers the whole cache over successive inserts.
pub const GC_PROBE: usize = 2;

/// A map of weak handles that reclaims closed entries incrementally.
///
/// Deduplicates dynamically-served handles by key: [`get`](Self::get) returns a
/// live handle and drops a closed one, so a stale entry never resolves. The catch
/// is that a key requested once and never again would otherwise linger forever
/// (its handle closes but nothing re-looks-it-up), so a long-lived cache accreting
/// distinct one-shot keys leaks one dead entry per key.
///
/// Rather than an O(n) sweep on every insert, each [`insert`](Self::insert) probes
/// a bounded, rotating slice of the keys and drops any that have closed or been
/// superseded. The cache stays bounded by the number of currently-live handles
/// without ever scanning all of it.
pub struct WeakCache<K: Key> {
    map: KeyMap<K, u64>,
    // Rotating probe queue, one entry per key plus transient junk: keys already
    // removed from `map`, and superseded duplicates (a key re-inserted with a fresh
    // handle after the old one closed). GC discards both when it reaches them.
    ring: Vec<(K, u64)>,
}

/// One entry of the probe queue: a key and the channel it had.
pub type Probe<I> = (I, u64);

/// Probing the front of the queue: a live entry that is still current rotates to the
/// back, a closed one is reclaimed, and one that was removed or superseded is dropped.
pub open spec fn probe_step<I>(
    map: Map<I, u64>,
    ring: Seq<Probe<I>>,
    closed: Set<u64>,
) -> (Map<I, u64>, Seq<Probe<I>>) {
    if ring.len() == 0 {
        (map, ring)
    } else {
        let (key, channel) = ring[0];
        let rest = ring.skip(1);
        if !map.contains_key(key) || map[key] != channel {
            (map, rest)
        } else if closed.contains(channel) {
            (map.remove(key), rest)
        } else {
            (map, rest.push(ring[0]))
        }
    }
}

/// Probing `count` entries, one after the other.
pub open spec fn probe_many<I>(
    map: Map<I, u64>,
    ring: Seq<Probe<I>>,
    closed: Set<u64>,
    count: nat,
) -> (Map<I, u64>, Seq<Probe<I>>)
    decreases count,
{
    if count == 0 {
        (map, ring)
    } else {
        let (next_map, next_ring) = probe_step(map, ring, closed);
        probe_many(next_map, next_ring, closed, (count - 1) as nat)
    }
}

/// What garbage collection leaves: the map and the queue after probing at most
/// [`GC_PROBE`] entries.
pub open spec fn collected<I>(
    map: Map<I, u64>,
    ring: Seq<Probe<I>>,
    closed: Set<u64>,
) -> (Map<I, u64>, Seq<Probe<I>>) {
    probe_many(
        map,
        ring,
        closed,
        if ring.len() < GC_PROBE {
            ring.len()
        } else {
            GC_PROBE as nat
        },
    )
}

/// The queue without the entries of a key.
pub open spec fn without_key<I>(ring: Seq<Probe<I>>, key: I) -> Seq<Probe<I>> {
    ring.filter(|probe: Probe<I>| probe.0 != key)
}

impl<K: Key> WeakCache<K> {
    /// The channel of each key, live or closed but not yet reclaimed.
    pub closed spec fn map(&self) -> Map<K::Id, u64> {
        self.map@
    }

    /// The probe queue, the next entry to probe first.
    pub closed spec fn ring(&self) -> Seq<Probe<K::Id>> {
        self.ring@.map_values(|probe: (K, u64)| (probe.0.id(), probe.1))
    }

    /// An empty cache.
    pub fn new() -> (r: WeakCache<K>)
        ensures
            r.map() == Map::<K::Id, u64>::empty(),
            r.ring() == Seq::<Probe<K::Id>>::empty(),
    {
        let r: WeakCache<K> = WeakCache { map: KeyMap::new(), ring: Vec::new() };
        assert(r.ring() =~= Seq::<Probe<K::Id>>::empty());
        r
    }

    /// Return a live handle for `key`, dropping and ignoring a closed one.
    pub fn get(&mut self, key: &K, closed: &Channels) -> (r: Option<u64>)
        ensures
            r == if old(self).map().contains_key(key.id()) && !closed@.contains(
                old(self).map()[key.id()],
            ) {
                Some(old(self).map()[key.id()])
            } else {
                None
            },
            final(self).map() == if r is Some {
                old(self).map()
            } else {
                old(self).map().remove(key.id())
            },
            final(self).ring() == old(self).ring(),
    {
        match self.map.get(key) {
            Some(channel) => {
                let channel: u64 = *channel;
                if !closed.contains(channel) {
                    return Some(channel);
                }
            },
            None => {},
        }
        self.map.remove(key);
        None
    }

    /// Insert `channel` under `key`, unless a *live* entry already holds it.
    ///
    /// Returns the existing live handle (leaving it in place) when the key is
    /// already live, so a caller racing to serve the same key can dedup onto it
    /// rather than replace a good entry. Otherwise inserts `channel` (replacing a
    /// closed entry), runs a bounded GC pass, and returns `None`.
    pub fn insert(&mut self, key: K, channel: u64, closed: &Channels) -> (r: Option<u64>)
        ensures
            r == if old(self).map().contains_key(key.id()) && !closed@.contains(
                old(self).map()[key.id()],
            ) {
                Some(old(self).map()[key.id()])
            } else {
                None
            },
            r is Some ==> final(self).map() == old(self).map() && final(self).ring() == old(
                self,
            ).ring(),
            r is None ==> ({
                let (map, ring) = collected(
                    old(self).map().insert(key.id(), channel),
                    old(self).ring(),
                    closed@,
                );
                final(self).map() == map && final(self).ring() == ring.push((key.id(), channel))
            }),
    {
        match self.map.get(&key) {
            Some(existing) => {
                let existing: u64 = *existing;
                if !closed.contains(existing) {
                    return Some(existing);
                }
            },
            None => {},
        }
        self.map.insert(key.copy_key(), channel);
        self.gc(closed);
        let ghost before = self.ring();
        let ghost id = key.id();
        self.ring.push((key, channel));
        assert(self.ring() =~= before.push((id, channel)));
        None
    }

    /// Remove and return the entry for `key`, if any.
    ///
    /// Prunes the queue too: unlike a lazily-dropped closed entry (which a later insert's
    /// GC sweeps), an explicit remove has no follow-up insert to rely on.
    pub fn remove(&mut self, key: &K) -> (r: Option<u64>)
        ensures
            r == if old(self).map().contains_key(key.id()) {
                Some(old(self).map()[key.id()])
            } else {
                None
            },
            final(self).map() == old(self).map().remove(key.id()),
            final(self).ring() == without_key(old(self).ring(), key.id()),
    {
        let ghost before = self.ring();
        let mut old_ring: Vec<(K, u64)> = Vec::new();
        std::mem::swap(&mut old_ring, &mut self.ring);
        let ghost raw = old_ring@;
        let mut kept: Vec<(K, u64)> = Vec::new();
        let ghost mut i: int = 0;
        assert(before.take(0) =~= seq![]);
        assert(kept@.map_values(|probe: (K, u64)| (probe.0.id(), probe.1)) =~= seq![]);
        assert(old_ring@ =~= raw.skip(0));
        reveal(Seq::filter);
        while old_ring.len() > 0
            invariant
                0 <= i <= raw.len(),
                old_ring@ == raw.skip(i),
                before == raw.map_values(|probe: (K, u64)| (probe.0.id(), probe.1)),
                kept@.map_values(|probe: (K, u64)| (probe.0.id(), probe.1)) == without_key(
                    before.take(i),
                    key.id(),
                ),
            decreases old_ring.len(),
        {
            let probe: (K, u64) = old_ring.remove(0);
            let ghost entry: Probe<K::Id> = (probe.0.id(), probe.1);
            let ghost so_far = kept@.map_values(|probe: (K, u64)| (probe.0.id(), probe.1));
            proof {
                assert(raw[i] == probe);
                assert(before[i] == entry);
                assert(before.take(i + 1) =~= before.take(i).push(entry));
                assert(before.take(i).push(entry).drop_last() =~= before.take(i));
                assert(without_key(before.take(i + 1), key.id()) =~= if entry.0 != key.id() {
                    without_key(before.take(i), key.id()).push(entry)
                } else {
                    without_key(before.take(i), key.id())
                }) by {
                    reveal(Seq::filter);
                }
            }
            if !probe.0.same_key(key) {
                kept.push(probe);
                assert(kept@.map_values(|probe: (K, u64)| (probe.0.id(), probe.1))
                    =~= so_far.push(entry));
            }
            proof {
                i = i + 1;
                assert(old_ring@ =~= raw.skip(i));
            }
        }
        assert(before.take(i) =~= before);
        self.ring = kept;
        self.map.remove(key)
    }

    /// True if `key` has an entry, whether live or closed-but-not-yet-reclaimed.
    pub fn contains_key(&self, key: &K) -> (r: bool)
        ensures
            r == self.map().contains_key(key.id()),
    {
        self.map.contains(key)
    }

    /// Probe a bounded, rotating window of the queue, reclaiming dead entries.
    pub fn gc(&mut self, closed: &Channels)
        ensures
            (final(self).map(), final(self).ring()) == collected(
                old(self).map(),
                old(self).ring(),
                closed@,
            ),
    {
        let count: usize = if self.ring.len() < GC_PROBE {
            self.ring.len()
        } else {
            GC_PROBE
        };
        let mut i: usize = 0;
        while i < count
            invariant
                i <= count,
                count <= GC_PROBE,
                collected(old(self).map(), old(self).ring(), closed@) == probe_many(
                    self.map(),
                    self.ring(),
                    closed@,
                    (count - i) as nat,
                ),
            decreases count - i,
        {
            let ghost map = self.map();
            let ghost ring = self.ring();
            if self.ring.len() > 0 {
                let (key, channel): (K, u64) = self.ring.remove(0);
                let ghost entry: Probe<K::Id> = (key.id(), channel);
                assert(ring[0] == entry);
                assert(self.ring() =~= ring.skip(1));
                let current: bool = match self.map.get(&key) {
                    Some(existing) => *existing == channel,
                    None => false,
                };
                if current {
                    if closed.contains(channel) {
                        self.map.remove(&key);
                    } else {
                        self.ring.push((key, channel));
                        assert(self.ring() =~= ring.skip(1).push(entry));
                    }
                }
            }
            i += 1;
        }
    }

    /// Number of entries currently in the map (live or not-yet-reclaimed).
    pub fn len(&self) -> (r: usize)
        ensures
            r == self.map().dom().len(),
    {
        self.map.len()
    }

    /// Whether some entry's channel is in `set`.
    pub fn any_in(&self, set: &Channels) -> (r: bool)
        ensures
            r == exists|key: K::Id| #[trigger]
                self.map().contains_key(key) && set@.contains(self.map()[key]),
    {
        let n: usize = self.map.len();
        let mut i: usize = 0;
        while i < n
            invariant
                n == self.map.order().len(),
                i <= n,
                forall|j: int|
                    0 <= j < i ==> !set@.contains(self.map()[#[trigger] self.map.order()[j]]),
            decreases n - i,
        {
            let (_, channel): (&K, &u64) = self.map.nth(i);
            if set.contains(*channel) {
                assert(self.map().contains_key(self.map.order()[i as int]));
                return true;
            }
            i += 1;
        }
        proof {
            assert forall|key: K::Id| #[trigger] self.map().contains_key(key) implies !set@.contains(
                self.map()[key],
            ) by {
                assert(self.map.order().to_set().contains(key));
                let j = self.map.order().index_of(key);
                assert(self.map.order()[j] == key);
            }
        }
        false
    }

    /// Number of entries retained in the probe queue.
    pub fn ring_len(&self) -> (r: usize)
        ensures
            r == self.ring().len(),
    {
        self.ring.len()
    }
}

/// Whether a probe finds nothing to keep: the entry was removed, superseded or closed.
pub open spec fn dead<I>(map: Map<I, u64>, probe: Probe<I>, closed: Set<u64>) -> bool {
    !map.contains_key(probe.0) || map[probe.0] != probe.1 || closed.contains(probe.1)
}

/// Whether garbage collection will get to every entry of the map: each is in the queue.
pub open spec fn in_reach<I>(map: Map<I, u64>, ring: Seq<Probe<I>>) -> bool {
    forall|key: I| #[trigger] map.contains_key(key) ==> ring.contains((key, map[key]))
}

/// A live handle that is current for its key survives garbage collection.
pub proof fn gc_keeps_live<I>(map: Map<I, u64>, ring: Seq<Probe<I>>, closed: Set<u64>, key: I)
    requires
        map.contains_key(key),
        !closed.contains(map[key]),
    ensures
        collected(map, ring, closed).0.contains_key(key),
        collected(map, ring, closed).0[key] == map[key],
{
    reveal_with_fuel(probe_many, 3);
}

/// Garbage collection only removes: what it leaves in the map was there before.
pub proof fn gc_only_removes<I>(map: Map<I, u64>, ring: Seq<Probe<I>>, closed: Set<u64>, key: I)
    requires
        collected(map, ring, closed).0.contains_key(key),
    ensures
        map.contains_key(key),
        collected(map, ring, closed).0[key] == map[key],
{
    reveal_with_fuel(probe_many, 3);
}

/// Garbage collection moves the queue forward by [`GC_PROBE`] entries, so every entry is
/// probed after a bounded number of inserts.
pub proof fn gc_advances<I>(map: Map<I, u64>, ring: Seq<Probe<I>>, closed: Set<u64>, at: int)
    requires
        GC_PROBE <= at < ring.len(),
    ensures
        collected(map, ring, closed).1[at - GC_PROBE] == ring[at],
{
    reveal_with_fuel(probe_many, 3);
}

/// Of the probed entries only the live ones stay in the queue: with two dead entries in
/// front, an insert leaves the queue one shorter than it was.
pub proof fn gc_shrinks<I>(map: Map<I, u64>, ring: Seq<Probe<I>>, closed: Set<u64>)
    ensures
        collected(map, ring, closed).1.len() <= ring.len(),
        ring.len() >= GC_PROBE && dead(map, ring[0], closed) && dead(map, ring[1], closed)
            ==> collected(map, ring, closed).1.len() == ring.len() - GC_PROBE,
{
    reveal_with_fuel(probe_many, 3);
}

/// A closed handle among the probed entries leaves the map.
pub proof fn gc_reclaims<I>(map: Map<I, u64>, ring: Seq<Probe<I>>, closed: Set<u64>, at: int)
    requires
        0 <= at < ring.len(),
        at < GC_PROBE,
        map.contains_key(ring[at].0),
        map[ring[at].0] == ring[at].1,
        closed.contains(ring[at].1),
    ensures
        !collected(map, ring, closed).0.contains_key(ring[at].0),
{
    reveal_with_fuel(probe_many, 3);
}

/// Every entry of the map stays within the reach of garbage collection: an insert keeps
/// it so.
pub proof fn insert_keeps_in_reach<I>(
    map: Map<I, u64>,
    ring: Seq<Probe<I>>,
    closed: Set<u64>,
    key: I,
    channel: u64,
)
    requires
        in_reach(map, ring),
    ensures
        ({
            let (after, left) = collected(map.insert(key, channel), ring, closed);
            in_reach(after, left.push((key, channel)))
        }),
{
    let set = map.insert(key, channel);
    let (after, left) = collected(set, ring, closed);
    reveal_with_fuel(probe_many, 3);
    assert forall|k: I| #[trigger] after.contains_key(k) implies left.push(
        (key, channel),
    ).contains((k, after[k])) by {
        if k == key {
            assert(after[k] == channel);
            assert(left.push((key, channel))[left.len() as int] == (key, channel));
        } else {
            assert(map.contains_key(k) && map[k] == set[k]);
            let at = choose|i: int| 0 <= i < ring.len() && ring[i] == (k, map[k]);
            let kept = left.push((key, channel));
            if at >= GC_PROBE {
                gc_advances(set, ring, closed, at);
                assert(kept[at - GC_PROBE] == ring[at]);
            } else {
                probed_and_kept(set, ring, closed, at);
                let to = choose|i: int| 0 <= i < left.len() && left[i] == ring[at];
                assert(kept[to] == ring[at]);
            }
        }
    }
}

proof fn probed_and_kept<I>(map: Map<I, u64>, ring: Seq<Probe<I>>, closed: Set<u64>, at: int)
    requires
        0 <= at < ring.len(),
        at < GC_PROBE,
        map.contains_key(ring[at].0),
        map[ring[at].0] == ring[at].1,
        collected(map, ring, closed).0.contains_key(ring[at].0),
    ensures
        collected(map, ring, closed).1.contains(ring[at]),
{
    reveal_with_fuel(probe_many, 3);
    let (map1, ring1) = probe_step(map, ring, closed);
    let (map2, ring2) = probe_step(map1, ring1, closed);
    if closed.contains(ring[at].1) {
        gc_reclaims(map, ring, closed, at);
    } else if at == 0 {
        assert(ring1[ring.len() - 1] == ring[0]);
        if ring.len() >= 2 {
            assert(ring2[ring1.len() - 2] == ring1[ring1.len() - 1]);
            assert(ring2.contains(ring[0]));
        } else {
            assert(ring1.contains(ring[0]));
        }
    } else {
        assert(ring1[0] == ring[1]);
        assert(ring2[ring2.len() - 1] == ring[1]);
        assert(ring2.contains(ring[1]));
    }
}

} // verus!
