//! Adding groups to a track's cache, and evicting them from it.

use std::collections::{HashSet, VecDeque};

use vstd::prelude::*;

use crate::coding::BoundsExceeded;
use crate::error::Error;
use crate::model::group;
use crate::model::group::empty_group;
use crate::model::datagram::{Datagram, DatagramModel, MAX_DATAGRAM_PAYLOAD};
use crate::model::time::{Duration, Instant, Timestamp};
use crate::model::track::info::Info;
use crate::model::track::model::{
    cached, distinct, held, is_live, leading, live_at, retire, slot_of, Expiry, Held, Slots,
    TrackModel,
};
use crate::model::track::state::{
    groups_valid, indexed, retired_valid, slot_model, slots_model, TrackState,
};

verus! {

broadcast use vstd::std_specs::hash::group_hash_axioms;

/// Once the search has ended at a slot, nothing after it is evicted.
proof fn gone_ends(expiry: Expiry, slots: Slots, guard: int, n: nat)
    requires
        0 <= guard < n <= slots.len(),
        expiry.guards(slots[guard]),
    ensures
        expiry.gone(slots, n) == expiry.gone(slots, guard as nat),
    decreases n,
{
    assert(!expiry.evicts(slots, n - 1)) by {
        if expiry.evicts(slots, n - 1) {
            assert(!expiry.guards(slots[guard]));
        }
    }
    if guard < n - 1 {
        gone_ends(expiry, slots, guard, (n - 1) as nat);
    }
}

/// The tombstones in front are as many as there are before the first group.
proof fn leading_is(slots: Slots, k: nat)
    requires
        k <= slots.len(),
        forall|j: int| 0 <= j < k ==> (#[trigger] slots[j]) is None,
        k < slots.len() ==> slots[k as int] is Some,
    ensures
        leading(slots) == k,
    decreases k,
{
    if k > 0 {
        assert(slots[0] is None);
        let rest = slots.skip(1);
        assert forall|j: int| 0 <= j < k - 1 implies (#[trigger] rest[j]) is None by {
            assert(slots[j + 1] is None);
        }
        leading_is(rest, (k - 1) as nat);
    }
}

/// Making slot `i` a tombstone takes its sequence, and no other, out of the index.
proof fn indexed_without(slots: Slots, duplicates: Set<u64>, newest: Option<u64>, i: int)
    requires
        indexed(slots, duplicates, newest),
        0 <= i < slots.len(),
        slots[i] is Some,
    ensures
        indexed(
            slots.update(i, None),
            duplicates.remove(slots[i]->Some_0.0.info.sequence),
            newest,
        ),
{
    let after = slots.update(i, None);
    let gone = slots[i]->Some_0.0.info.sequence;
    assert forall|s: u64| duplicates.remove(gone).contains(s) <==> #[trigger] is_live(after, s) by {
        if is_live(after, s) {
            let j = choose|j: int| live_at(after, j, s);
            assert(live_at(after, j, s));
            assert(live_at(slots, j, s));
            assert(j != i);
            assert(slots[i] is Some && slots[j] is Some);
            assert(s != gone);
            assert(is_live(slots, s));
        }
        if duplicates.remove(gone).contains(s) {
            assert(is_live(slots, s));
            let j = choose|j: int| live_at(slots, j, s);
            assert(live_at(slots, j, s));
            assert(live_at(after, j, s));
        }
    }
    assert forall|s: u64| #[trigger] is_live(after, s) implies newest is Some && s
        <= newest->Some_0 by {
        let j = choose|j: int| live_at(after, j, s);
        assert(live_at(after, j, s));
        assert(live_at(slots, j, s));
        assert(is_live(slots, s));
    }
}

/// Dropping tombstones in front changes nothing that is indexed.
proof fn indexed_trimmed(slots: Slots, duplicates: Set<u64>, newest: Option<u64>, k: int)
    requires
        indexed(slots, duplicates, newest),
        0 <= k <= slots.len(),
        forall|j: int| 0 <= j < k ==> (#[trigger] slots[j]) is None,
    ensures
        indexed(slots.skip(k), duplicates, newest),
{
    let after = slots.skip(k);
    assert forall|s: u64| #[trigger] is_live(after, s) == is_live(slots, s) by {
        if is_live(after, s) {
            let j = choose|j: int| live_at(after, j, s);
            assert(live_at(after, j, s));
            assert(live_at(slots, j + k, s));
        }
        if is_live(slots, s) {
            let j = choose|j: int| live_at(slots, j, s);
            assert(live_at(slots, j, s));
            assert(live_at(after, j - k, s));
        }
    }
    assert(distinct(after)) by {
        assert forall|i: int, j: int|
            0 <= i < j < after.len() && after[i] is Some && after[j]
                is Some implies (#[trigger] after[i])->Some_0.0.info.sequence != (
        #[trigger] after[j])->Some_0.0.info.sequence by {
            assert(after[i] == slots[i + k]);
            assert(after[j] == slots[j + k]);
        }
    }
}

/// A new sequence joins the index.
proof fn indexed_push(
    slots: Slots,
    duplicates: Set<u64>,
    newest: Option<u64>,
    held: Held,
    at: Instant,
    newest_after: u64,
)
    requires
        indexed(slots, duplicates, newest),
        !is_live(slots, held.info.sequence),
        newest matches Some(max) ==> max <= newest_after,
        held.info.sequence <= newest_after,
    ensures
        indexed(
            slots.push(Some((held, at))),
            duplicates.insert(held.info.sequence),
            Some(newest_after),
        ),
{
    let after = slots.push(Some((held, at)));
    let n = slots.len() as int;
    assert(live_at(after, n, held.info.sequence));
    assert forall|s: u64| #[trigger]
        is_live(after, s) == (is_live(slots, s) || s == held.info.sequence) by {
        if is_live(after, s) {
            let j = choose|j: int| live_at(after, j, s);
            assert(live_at(after, j, s));
            if j < n {
                assert(live_at(slots, j, s));
            }
        }
        if is_live(slots, s) {
            let j = choose|j: int| live_at(slots, j, s);
            assert(live_at(slots, j, s));
            assert(live_at(after, j, s));
        }
    }
    assert(distinct(after)) by {
        assert forall|i: int, j: int|
            0 <= i < j < after.len() && after[i] is Some && after[j]
                is Some implies (#[trigger] after[i])->Some_0.0.info.sequence != (
        #[trigger] after[j])->Some_0.0.info.sequence by {
            if j == n {
                assert(live_at(slots, i, after[i]->Some_0.0.info.sequence));
            } else {
                assert(slots[i] is Some && slots[j] is Some);
            }
        }
    }
}

/// There are no more tombstones in front than slots before a group.
proof fn leading_before(slots: Slots, i: int)
    requires
        0 <= i < slots.len(),
        slots[i] is Some,
    ensures
        leading(slots) <= i,
    decreases i,
{
    if slots[0] is None {
        assert(slots.skip(1)[i - 1] == slots[i]);
        leading_before(slots.skip(1), i - 1);
    }
}

/// A new group is the last one in the cache, whatever is evicted for it.
pub proof fn new_group_is_last(track: TrackModel, info: group::Info, now: Instant)
    requires
        track.info is Some,
    ensures
        track.with_group(info, now).groups.len() > 0,
        track.with_group(info, now).groups.last() == Some(
            ((Held { info, track: track.info->Some_0, group: empty_group() }), now),
        ),
{
    let held = Held { info, track: track.info->Some_0, group: empty_group() };
    let slots = track.groups.push(Some((held, now)));
    let n = track.groups.len() as int;
    let expiry = Expiry {
        now,
        max_age: track.info->Some_0.cache,
        newest: track.newest_with(info.sequence),
    };
    assert(!expiry.evicts(slots, n)) by {
        if expiry.evicts(slots, n) {
            assert(!expiry.guards(slots[n]));
        }
    }
    leading_before(expiry.swept(slots), n);
}

/// The groups cached in one more slot.
proof fn cached_push(slots: Slots, slot: Option<(Held, Instant)>)
    ensures
        cached(slots.push(slot)) == match slot {
            Some((held, _)) => cached(slots).push(held),
            None => cached(slots),
        },
{
    assert(slots.push(slot).drop_last() =~= slots);
}

/// Writing to a group keeps the index as long as its sequence stays.
proof fn indexed_rewritten(
    groups: Seq<Option<(group::Producer, Instant)>>,
    duplicates: Set<u64>,
    newest: Option<u64>,
    i: int,
    group: group::Producer,
)
    requires
        0 <= i < groups.len(),
        groups[i] is Some,
        groups_valid(groups),
        indexed(slots_model(groups), duplicates, newest),
        group.well_formed(),
        group.info.sequence == groups[i]->Some_0.0.info.sequence,
    ensures
        ({
            let at = groups[i]->Some_0.1;
            let after = groups.update(i, Some((group, at)));
            &&& slots_model(after) == slots_model(groups).update(i, Some((held(group), at)))
            &&& groups_valid(after)
            &&& indexed(slots_model(after), duplicates, newest)
        }),
{
    let at = groups[i]->Some_0.1;
    let after = groups.update(i, Some((group, at)));
    let old_slots = slots_model(groups);
    let new_slots = slots_model(after);
    assert(new_slots =~= old_slots.update(i, Some((held(group), at))));
    assert(old_slots[i] == slot_model(groups[i]));
    assert forall|s: u64, j: int| #[trigger]
        live_at(new_slots, j, s) == live_at(old_slots, j, s) by {}
    assert forall|s: u64| #[trigger] is_live(new_slots, s) == is_live(old_slots, s) by {
        if is_live(new_slots, s) {
            let j = choose|j: int| live_at(new_slots, j, s);
            assert(live_at(new_slots, j, s) && live_at(old_slots, j, s));
        }
        if is_live(old_slots, s) {
            let j = choose|j: int| live_at(old_slots, j, s);
            assert(live_at(old_slots, j, s) && live_at(new_slots, j, s));
        }
    }
    assert(distinct(new_slots)) by {
        assert forall|a: int, b: int|
            0 <= a < b < new_slots.len() && new_slots[a] is Some && new_slots[b]
                is Some implies (#[trigger] new_slots[a])->Some_0.0.info.sequence != (
        #[trigger] new_slots[b])->Some_0.0.info.sequence by {
            assert(old_slots[a] is Some && old_slots[b] is Some);
        }
    }
}

impl TrackState {
    /// Evict groups older than `max_age`, never evicting the newest sequence.
    ///
    /// Groups are in arrival order, so we can stop early when we hit a non-expired group
    /// (everything after it arrived even later). The newest is skipped past wherever it is.
    /// An evicted group is aborted so any consumer still reading it surfaces [`Error::Old`]
    /// instead of blocking forever on a frame that will never arrive.
    #[verifier::rlimit(40)]
    pub fn evict_expired(&mut self, now: Instant, max_age: Duration)
        requires
            old(self).well_formed(),
        ensures
            final(self).well_formed(),
            final(self)@ == old(self)@.evicted(now, max_age),
    {
        let ghost slots = self@.groups;
        let ghost expiry = Expiry { now, max_age, newest: self.max_sequence };
        let ghost retired = self@.retired;
        let mut scanning: bool = true;
        let mut i: usize = 0;
        while scanning && i < self.groups.len()
            invariant
                slots == old(self)@.groups,
                retired == old(self)@.retired,
                expiry == (Expiry { now, max_age, newest: old(self).max_sequence }),
                i <= slots.len(),
                self.groups@.len() == slots.len(),
                self.well_formed(),
                self@.groups == Seq::new(
                    slots.len(),
                    |k: int|
                        if k < i && expiry.evicts(slots, k) {
                            None
                        } else {
                            slots[k]
                        },
                ),
                scanning ==> forall|j: int| 0 <= j < i ==> !expiry.guards(#[trigger] slots[j]),
                !scanning ==> i > 0 && expiry.guards(slots[i - 1]),
                self@.retired == retired + expiry.gone(slots, i as nat),
                self@ == (TrackModel {
                    groups: self@.groups,
                    retired: self@.retired,
                    ..old(self)@
                }),
            decreases slots.len() - i,
        {
            let ghost before = self@;
            assert(self@.groups[i as int] == slot_model(self.groups@[i as int]));
            assert(self@.groups[i as int] == slots[i as int]);
            let live: Option<(u64, Instant)> = match &self.groups[i] {
                Some((group, at)) => Some((group.info.sequence, *at)),
                None => None,
            };
            match live {
                None => {},
                Some((sequence, at)) => {
                    let newest: bool = match self.max_sequence {
                        Some(max) => max == sequence,
                        None => false,
                    };
                    if newest {
                    } else if now.since(at).nanos <= max_age.nanos {
                        scanning = false;
                    } else {
                        assert(expiry.evicts(slots, i as int));
                        let ghost raw = self.groups@;
                        let ghost duplicates = self.duplicates@;
                        self.duplicates.remove(&sequence);
                        let mut slot: Option<(group::Producer, Instant)> = None;
                        std::mem::swap(&mut slot, &mut self.groups[i]);
                        assert(self.groups@ =~= raw.update(i as int, None));
                        assert(self@.groups =~= before.groups.update(i as int, None));
                        proof {
                            indexed_without(
                                before.groups,
                                duplicates,
                                self.max_sequence,
                                i as int,
                            );
                        }
                        match slot {
                            Some((mut group, _)) => {
                                let ghost was = held(group);
                                let _ = group.abort(Error::Old);
                                assert(held(group) == retire(was));
                                self.retired.push(group);
                                assert(self@.retired =~= before.retired.push(retire(was)));
                            },
                            None => {},
                        }
                    }
                },
            }
            i += 1;
        }
        proof {
            if !scanning {
                gone_ends(expiry, slots, i - 1, i as nat);
                gone_ends(expiry, slots, i - 1, slots.len());
            }
        }
        assert(self@.groups =~= expiry.swept(slots));

        // Trim leading tombstones to advance the offset.
        let ghost swept = self@.groups;
        let mut k: usize = 0;
        while k < self.groups.len() && self.groups[k].is_none()
            invariant
                k <= self.groups@.len(),
                swept == self@.groups,
                forall|j: int| 0 <= j < k ==> (#[trigger] swept[j]) is None,
            decreases self.groups@.len() - k,
        {
            assert(swept[k as int] == slot_model(self.groups@[k as int]));
            k += 1;
        }
        proof {
            if k < swept.len() {
                assert(swept[k as int] == slot_model(self.groups@[k as int]));
            }
            leading_is(swept, k as nat);
            indexed_trimmed(swept, self.duplicates@, self.max_sequence, k as int);
        }
        let ghost raw = self.groups@;
        let kept: Vec<Option<(group::Producer, Instant)>> = self.groups.split_off(k);
        self.groups = kept;
        self.offset = self.offset + k;
        assert(self@.groups =~= swept.skip(k as int));
    }

    /// Add a new group and evict what has expired.
    fn insert(&mut self, info: group::Info, now: Instant)
        requires
            old(self).well_formed(),
            old(self).info is Some,
            !is_live(old(self)@.groups, info.sequence),
            old(self)@.offset + old(self)@.groups.len() < usize::MAX,
        ensures
            final(self).well_formed(),
            final(self)@ == old(self)@.with_group(info, now),
    {
        match self.info {
            None => {},
            Some(track) => {
                let ghost before = self@;
                let ghost new = Held { info, track, group: empty_group() };
                let newest: u64 = match self.max_sequence {
                    Some(max) => if max >= info.sequence {
                        max
                    } else {
                        info.sequence
                    },
                    None => info.sequence,
                };
                proof {
                    indexed_push(
                        before.groups,
                        self.duplicates@,
                        self.max_sequence,
                        new,
                        now,
                        newest,
                    );
                }
                let _ = self.duplicates.insert(info.sequence);
                self.max_sequence = Some(newest);
                self.groups.push(Some((group::Producer::new(info, track), now)));
                assert(self@.groups =~= before.groups.push(Some((new, now))));
                self.evict_expired(now, track.cache);
            },
        }
    }

    /// Create a new group with the given sequence number.
    pub fn create_group(&mut self, info: group::Info, now: Instant) -> (r: Result<(), Error>)
        requires
            old(self).well_formed(),
            old(self).info is Some,
            old(self)@.offset + old(self)@.groups.len() < usize::MAX,
        ensures
            final(self).well_formed(),
            match old(self)@.create_error(info.sequence) {
                Some(err) => r == Err::<(), Error>(err) && *final(self) == *old(self),
                None => r is Ok && final(self)@ == old(self)@.with_group(info, now),
            },
    {
        if self.closed {
            return Err(self.close_error());
        }
        if self.past_final(info.sequence) {
            return Err(Error::Closed);
        }
        if self.duplicates.contains(&info.sequence) {
            return Err(Error::Duplicate);
        }
        self.insert(info, now);
        Ok(())
    }

    /// The sequence that comes after the newest.
    fn next_sequence(&self) -> (r: Result<u64, Error>)
        ensures
            r == match self@.next_sequence() {
                Some(sequence) => Ok(sequence),
                None => Err(Error::BoundsExceeded(BoundsExceeded)),
            },
    {
        match self.max_sequence {
            Some(max) => if max < u64::MAX {
                Ok(max + 1)
            } else {
                Err(Error::BoundsExceeded(BoundsExceeded))
            },
            None => Ok(0),
        }
    }

    /// Create a new group with the next sequence number, and return it.
    pub fn append_group(&mut self, now: Instant) -> (r: Result<u64, Error>)
        requires
            old(self).well_formed(),
            old(self).info is Some,
            old(self)@.offset + old(self)@.groups.len() < usize::MAX,
        ensures
            final(self).well_formed(),
            r == old(self)@.append_sequence(),
            match r {
                Err(_) => *final(self) == *old(self),
                Ok(sequence) => final(self)@ == old(self)@.with_group(
                    (group::Info { sequence }),
                    now,
                ),
            },
    {
        if self.closed {
            return Err(self.close_error());
        }
        let sequence: u64 = self.next_sequence()?;
        if self.past_final(sequence) {
            return Err(Error::Closed);
        }
        assert(!is_live(self@.groups, sequence));
        self.insert(group::Info { sequence }, now);
        Ok(sequence)
    }

    /// A cached group, to write to.
    pub fn group_mut(&mut self, sequence: u64) -> (r: Option<&mut group::Producer>)
        requires
            old(self).well_formed(),
        ensures
            match slot_of(old(self)@.groups, sequence) {
                None => r is None && *final(self) == *old(self),
                Some(i) => {
                    &&& r is Some
                    &&& held(*r->Some_0) == old(self)@.groups[i]->Some_0.0
                    &&& r->Some_0.well_formed()
                    &&& final(r->Some_0).well_formed() && final(r->Some_0).info.sequence == sequence
                        ==> {
                        &&& final(self).well_formed()
                        &&& final(self)@ == old(self)@.with_slot(i, held(*final(r->Some_0)))
                    }
                },
            },
    {
        match self.find(sequence) {
            None => None,
            Some(i) => {
                proof {
                    let at = self.groups@[i as int]->Some_0.1;
                    assert forall|group: group::Producer|
                        group.well_formed() && group.info.sequence == sequence implies ({
                        let after = #[trigger] self.groups@.update(i as int, Some((group, at)));
                        &&& slots_model(after) == self@.groups.update(
                            i as int,
                            Some((held(group), at)),
                        )
                        &&& groups_valid(after)
                        &&& indexed(slots_model(after), self.duplicates@, self.max_sequence)
                    }) by {
                        assert(self@.groups[i as int] == slot_model(self.groups@[i as int]));
                        indexed_rewritten(
                            self.groups@,
                            self.duplicates@,
                            self.max_sequence,
                            i as int,
                            group,
                        );
                    }
                }
                match &mut self.groups[i] {
                    Some((group, _)) => Some(group),
                    None => None,
                }
            },
        }
    }

    /// Add a fetched group that was asked for, setting the track's [`Info`] if it isn't
    /// accepted yet. The group's timescale comes from that info, so a fetch can serve an
    /// as-yet-unaccepted track (e.g. a relay with no live subscription).
    pub fn insert_group_request(&mut self, sequence: u64, info: Option<Info>, now: Instant) -> (r:
        Result<(), Error>)
        requires
            old(self).well_formed(),
            old(self)@.offset + old(self)@.groups.len() < usize::MAX,
        ensures
            final(self).well_formed(),
            match old(self)@.accept_error(sequence) {
                Some(err) => r == Err::<(), Error>(err) && *final(self) == *old(self),
                None => r is Ok && final(self)@ == (TrackModel {
                    info: Some(
                        match old(self)@.info {
                            Some(info) => info,
                            None => match info {
                                Some(info) => info,
                                None => Info::spec_default(),
                            },
                        },
                    ),
                    ..old(self)@
                }).with_group((group::Info { sequence }), now),
            },
    {
        if self.closed {
            return Err(self.close_error());
        }
        match &self.abort {
            Some(err) => {
                return Err(err.clone());
            },
            None => {},
        }
        if self.past_final(sequence) {
            return Err(Error::Closed);
        }
        if self.duplicates.contains(&sequence) {
            return Err(Error::Duplicate);
        }
        // Adopt the supplied info only if the track hasn't been accepted yet.
        if self.info.is_none() {
            self.info = Some(
                match info {
                    Some(info) => info,
                    None => Info::default(),
                },
            );
        }
        self.insert(group::Info { sequence }, now);
        Ok(())
    }

    /// Append a datagram with the next sequence number, returning the assigned sequence.
    pub fn append_datagram(&mut self, timestamp: Timestamp, payload: Vec<u8>, now: Instant) -> (r:
        Result<u64, Error>)
        requires
            old(self).well_formed(),
            old(self).info is Some,
            old(self)@.datagram_offset + old(self)@.datagrams.len() < usize::MAX,
        ensures
            final(self).well_formed(),
            r is Err ==> *final(self) == *old(self),
            r == match old(self)@.datagram_timestamp(timestamp, payload@) {
                Err(err) => Err(err),
                Ok(_) => old(self)@.append_sequence(),
            },
            r matches Ok(sequence) ==> final(self)@ == old(self)@.with_datagram(
                (DatagramModel {
                    sequence,
                    timestamp: old(self)@.datagram_timestamp(timestamp, payload@)->Ok_0,
                    payload: payload@,
                }),
                now,
            ),
    {
        let timestamp: Timestamp = self.check_datagram(timestamp, &payload)?;
        let sequence: u64 = self.next_sequence()?;
        if self.past_final(sequence) {
            return Err(Error::Closed);
        }
        self.max_sequence = Some(sequence);
        assert(self.well_formed());
        self.push_datagram(Datagram { sequence, timestamp, payload }, now);
        Ok(sequence)
    }

    /// Write a datagram with an explicit sequence number, so a relay can forward a datagram
    /// without renumbering it.
    pub fn write_datagram(&mut self, datagram: Datagram, now: Instant) -> (r: Result<(), Error>)
        requires
            old(self).well_formed(),
            old(self).info is Some,
            old(self)@.datagram_offset + old(self)@.datagrams.len() < usize::MAX,
        ensures
            final(self).well_formed(),
            r is Err ==> *final(self) == *old(self),
            r == match old(self)@.datagram_timestamp(datagram.timestamp, datagram.payload@) {
                Err(err) => Err(err),
                Ok(_) => if old(self)@.past_final(datagram.sequence) {
                    Err(Error::Closed)
                } else {
                    Ok(())
                },
            },
            r is Ok ==> final(self)@ == old(self)@.with_datagram(
                (DatagramModel {
                    timestamp: old(self)@.datagram_timestamp(
                        datagram.timestamp,
                        datagram.payload@,
                    )->Ok_0,
                    ..datagram@
                }),
                now,
            ),
    {
        let timestamp: Timestamp = self.check_datagram(datagram.timestamp, &datagram.payload)?;
        let sequence: u64 = datagram.sequence;
        if self.past_final(sequence) {
            return Err(Error::Closed);
        }
        self.max_sequence = Some(
            match self.max_sequence {
                Some(max) => if max >= sequence {
                    max
                } else {
                    sequence
                },
                None => sequence,
            },
        );
        assert(self.well_formed());
        self.push_datagram(Datagram { sequence, timestamp, payload: datagram.payload }, now);
        Ok(())
    }

    /// The timestamp of a datagram in the track's timescale, like that of a frame, unless
    /// the datagram is refused.
    fn check_datagram(&self, timestamp: Timestamp, payload: &Vec<u8>) -> (r: Result<
        Timestamp,
        Error,
    >)
        requires
            self.info is Some,
        ensures
            r == self@.datagram_timestamp(timestamp, payload@),
    {
        if payload.len() > MAX_DATAGRAM_PAYLOAD {
            return Err(Error::WrongSize);
        }
        if self.closed {
            return Err(self.close_error());
        }
        match self.info {
            None => Err(Error::TimestampMismatch),
            Some(info) => match timestamp.convert(info.timescale) {
                Ok(timestamp) => Ok(timestamp),
                Err(_) => Err(Error::TimestampMismatch),
            },
        }
    }

    /// Mark the track as finished after the last appended group.
    ///
    /// Sets the final sequence to one past the newest. No new groups at or above this
    /// sequence can be appended. NOTE: Old groups with lower sequence numbers can still
    /// arrive.
    pub fn finish(&mut self) -> (r: Result<(), Error>)
        requires
            old(self).well_formed(),
        ensures
            final(self).well_formed(),
            r is Err ==> *final(self) == *old(self),
            r == if old(self)@.closed {
                Err::<(), Error>(old(self)@.close_error())
            } else if old(self)@.final_sequence is Some {
                Err(Error::Closed)
            } else if old(self)@.next_sequence() is None {
                Err(Error::BoundsExceeded(BoundsExceeded))
            } else {
                Ok(())
            },
            r is Ok ==> final(self)@ == (TrackModel {
                final_sequence: old(self)@.next_sequence(),
                ..old(self)@
            }),
    {
        if self.closed {
            return Err(self.close_error());
        }
        if self.final_sequence.is_some() {
            return Err(Error::Closed);
        }
        let sequence: u64 = self.next_sequence()?;
        self.final_sequence = Some(sequence);
        Ok(())
    }

    /// Mark the track as finished at an exact final sequence.
    ///
    /// The caller must pass the newest sequence exactly. Freezes the final boundary at one
    /// past it.
    pub fn finish_at(&mut self, sequence: u64) -> (r: Result<(), Error>)
        requires
            old(self).well_formed(),
        ensures
            final(self).well_formed(),
            r is Err ==> *final(self) == *old(self),
            r == if old(self)@.closed {
                Err::<(), Error>(old(self)@.close_error())
            } else if old(self)@.max_sequence != Some(sequence) || old(self)@.final_sequence
                is Some {
                Err(Error::Closed)
            } else if sequence == u64::MAX {
                Err(Error::BoundsExceeded(BoundsExceeded))
            } else {
                Ok(())
            },
            r is Ok ==> final(self)@ == (TrackModel {
                final_sequence: Some((sequence + 1) as u64),
                ..old(self)@
            }),
    {
        if self.closed {
            return Err(self.close_error());
        }
        let max: u64 = match self.max_sequence {
            Some(max) => max,
            None => {
                return Err(Error::Closed);
            },
        };
        if self.final_sequence.is_some() || sequence != max {
            return Err(Error::Closed);
        }
        let end: u64 = self.next_sequence()?;
        self.final_sequence = Some(end);
        Ok(())
    }

    /// Drop the cached groups and datagrams, handing the groups to [`Self::retired`].
    fn release(&mut self)
        requires
            old(self).well_formed(),
        ensures
            final(self).well_formed(),
            final(self)@ == old(self)@.released(),
    {
        let ghost slots = self@.groups;
        let ghost retired = self@.retired;
        let mut groups: Vec<Option<(group::Producer, Instant)>> = Vec::new();
        std::mem::swap(&mut groups, &mut self.groups);
        let ghost raw = groups@;
        let mut i: usize = 0;
        while i < groups.len()
            invariant
                i <= groups@.len(),
                raw == old(self).groups@,
                groups@.len() == raw.len(),
                slots == slots_model(raw),
                forall|k: int| i <= k < raw.len() ==> #[trigger] groups@[k] == raw[k],
                self@.retired == retired + cached(slots.take(i as int)),
                groups_valid(raw),
                retired_valid(self.retired@),
                self@ == (TrackModel {
                    groups: self@.groups,
                    retired: self@.retired,
                    ..old(self)@
                }),
                self.groups@.len() == 0,
            decreases groups@.len() - i,
        {
            let ghost before = self@.retired;
            proof {
                assert(slots[i as int] == slot_model(raw[i as int]));
                assert(slots.take(i + 1) =~= slots.take(i as int).push(slots[i as int]));
                cached_push(slots.take(i as int), slots[i as int]);
            }
            let mut slot: Option<(group::Producer, Instant)> = None;
            std::mem::swap(&mut slot, &mut groups[i]);
            match slot {
                Some((group, _)) => {
                    let ghost was = held(group);
                    self.retired.push(group);
                    assert(self@.retired =~= before.push(was));
                },
                None => {},
            }
            i += 1;
        }
        assert(slots.take(slots.len() as int) =~= slots);
        self.datagrams = VecDeque::new();
        self.duplicates = HashSet::new();
        assert(self@.datagrams =~= seq![]);
        assert(self@.groups =~= seq![]);
    }

    /// Forget the groups of this sequence that left the cache: nobody reads them any more. What
    /// is cached stays.
    pub fn forget_retired(&mut self, sequence: u64)
        requires
            old(self).well_formed(),
        ensures
            final(self).well_formed(),
            final(self)@ == old(self)@.forgotten(sequence),
    {
        let ghost all = self@.retired;
        let ghost keep = |held: Held| held.info.sequence != sequence;
        let mut retired: Vec<group::Producer> = Vec::new();
        std::mem::swap(&mut retired, &mut self.retired);
        let ghost raw = retired@;
        let ghost mut k: int = 0;
        let mut i: usize = 0;
        proof {
            reveal(Seq::filter);
            assert(all.take(0) =~= seq![]);
            assert(self@.retired =~= seq![]);
        }
        while i < retired.len()
            invariant
                i <= retired@.len(),
                raw == old(self).retired@,
                all == old(self)@.retired,
                keep == |held: Held| held.info.sequence != sequence,
                0 <= k <= raw.len(),
                retired@.len() - i == raw.len() - k,
                forall|j: int| k <= j < raw.len() ==> #[trigger] raw[j] == retired@[i + (j - k)],
                forall|j: int| 0 <= j < i ==> (#[trigger] retired@[j]).well_formed(),
                retired_valid(raw),
                retired@.take(i as int).map_values(|group: group::Producer| held(group))
                    == all.take(k).filter(keep),
            decreases retired@.len() - i,
        {
            let ghost before = retired@;
            proof {
                reveal(Seq::filter);
                assert(raw[k] == retired@[i + (k - k)]);
                assert(all[k] == held(raw[k]));
                assert(all.take(k + 1).drop_last() =~= all.take(k));
                assert(raw[k].well_formed());
            }
            if retired[i].info.sequence == sequence {
                let _ = retired.remove(i);
                proof {
                    assert(retired@.take(i as int) =~= before.take(i as int));
                    assert forall|j: int| k + 1 <= j < raw.len() implies #[trigger] raw[j]
                        == retired@[i + (j - (k + 1))] by {
                        assert(raw[j] == before[i + (j - k)]);
                    }
                }
            } else {
                i += 1;
                proof {
                    assert(retired@.take(i as int).map_values(
                        |group: group::Producer| held(group),
                    ) =~= before.take(i - 1).map_values(
                        |group: group::Producer| held(group),
                    ).push(all[k]));
                    assert forall|j: int| k + 1 <= j < raw.len() implies #[trigger] raw[j]
                        == retired@[i + (j - (k + 1))] by {
                        assert(raw[j] == before[(i - 1) + (j - k)]);
                    }
                }
            }
            proof {
                k = k + 1;
            }
        }
        proof {
            assert(all.take(k) =~= all);
            assert(retired@.take(i as int) =~= retired@);
        }
        self.retired = retired;
        assert(self@.retired =~= all.filter(keep));
    }

    /// Abort the track with the given error.
    ///
    /// Drops the cached groups so a stale consumer can't pin them (and their frame buffers)
    /// in memory forever. Consumers that haven't drained yet surface the abort error instead
    /// of the leftover cache. Child groups are independent: they leave the cache as they
    /// are, for readers that already pulled them.
    pub fn abort(&mut self, err: Error) -> (r: Result<(), Error>)
        requires
            old(self).well_formed(),
        ensures
            final(self).well_formed(),
            r == if old(self)@.closed {
                Err::<(), Error>(old(self)@.close_error())
            } else {
                Ok(())
            },
            final(self)@ == if old(self)@.closed {
                old(self)@
            } else {
                old(self)@.aborted(err)
            },
    {
        if self.closed {
            return Err(self.close_error());
        }
        self.release();
        self.abort = Some(err);
        self.closed = true;
        Ok(())
    }

    /// The last writer went away. Without a clean finish that is an abrupt teardown: the
    /// cached groups are released, the same as for an explicit abort. A cleanly finished
    /// track keeps its cache so consumers can still drain it.
    pub fn close(&mut self)
        requires
            old(self).well_formed(),
        ensures
            final(self).well_formed(),
            final(self)@ == old(self)@.dropped(),
    {
        if self.closed {
            return;
        }
        if self.final_sequence.is_none() {
            self.release();
        }
        self.closed = true;
    }
}

} // verus!
