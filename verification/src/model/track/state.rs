//! The state that a track's producer, consumers and subscribers work on.

use std::collections::{HashSet, VecDeque};

use vstd::prelude::*;

use crate::error::Error;
use crate::keyed::KeyMap;
use crate::model::datagram::{Datagram, DatagramModel};
use crate::model::group;
use crate::model::group::read_frame;
use crate::model::subscription::Subscription;
use crate::model::time::Instant;
use crate::model::track::info::Info;
use crate::model::track::model::{
    distinct, fresh_datagrams, held, is_live, least_in_range, live_at, local_index, next_arrival,
    scan_frames, slot_is_unique, slot_of, FrameScan, GroupRequested, Held, Slots, TrackModel,
    MAX_DATAGRAM_AGE_NANOS,
};
use crate::poll::Poll;

verus! {

broadcast use vstd::std_specs::hash::group_hash_axioms;

/// The state of a track.
pub struct TrackState {
    /// The info for the track; always set once it is accepted.
    pub info: Option<Info>,
    /// Groups in arrival order. `None` entries are tombstones for evicted groups.
    pub groups: Vec<Option<(group::Producer, Instant)>>,
    /// The number of slots dropped off the front, used to map a cursor to an index.
    pub offset: usize,
    /// Datagrams in arrival order paired with their arrival time, a best-effort send
    /// buffer evicted by age. Shares the group `max_sequence` namespace but is otherwise
    /// independent.
    pub datagrams: VecDeque<(Datagram, Instant)>,
    /// Number of datagrams dropped off the front (aged out).
    pub datagram_offset: usize,
    /// The sequences that are cached.
    pub duplicates: HashSet<u64>,
    /// The highest sequence number successfully appended to the track.
    pub max_sequence: Option<u64>,
    /// The sequence number at which the track was finalized.
    pub final_sequence: Option<u64>,
    /// The error that caused the track to be aborted, if any.
    pub abort: Option<Error>,
    /// Who asks for [`Self::subscriptions`].
    pub subscription_ids: Vec<u64>,
    /// What each live subscriber asks for.
    pub subscriptions: Vec<Subscription>,
    /// The number for the next subscriber.
    pub next_subscription: u64,
    /// Specific groups requested via a fetch that aren't cached yet, FIFO for a handler to
    /// serve.
    pub fetches: VecDeque<GroupRequested>,
    /// Monotonic IDs for fetches that reached a dynamic handler.
    pub next_fetch: u64,
    /// Per-request failures for popped fetches. Keyed by request ID so rejecting one
    /// transient attempt doesn't poison future retries for the same sequence.
    pub fetch_rejections: KeyMap<u64, Error>,
    /// Number of live [`super::Dynamic`] handles. While zero, the track serves no uncached
    /// groups, so a cache-miss fetch fails fast instead of blocking forever.
    pub dynamic: usize,
    /// Number of live consumers and subscribers.
    pub consumers: usize,
    /// Groups that left the cache, until their readers have seen how they ended. See
    /// [`Self::forget_retired`].
    pub retired: Vec<group::Producer>,
    /// Whether every writer is gone.
    pub closed: bool,
}

/// What a slot stands for.
pub open spec fn slot_model(slot: Option<(group::Producer, Instant)>) -> Option<(Held, Instant)> {
    match slot {
        Some((group, at)) => Some((held(group), at)),
        None => None,
    }
}

/// What the slots stand for.
pub open spec fn slots_model(groups: Seq<Option<(group::Producer, Instant)>>) -> Slots {
    groups.map_values(|slot: Option<(group::Producer, Instant)>| slot_model(slot))
}

/// What buffered datagrams stand for.
pub open spec fn datagrams_model(datagrams: Seq<(Datagram, Instant)>) -> Seq<
    (DatagramModel, Instant),
> {
    datagrams.map_values(|entry: (Datagram, Instant)| (entry.0@, entry.1))
}

impl View for TrackState {
    type V = TrackModel;

    open spec fn view(&self) -> TrackModel {
        TrackModel {
            info: self.info,
            groups: slots_model(self.groups@),
            offset: self.offset as nat,
            datagrams: datagrams_model(self.datagrams@),
            datagram_offset: self.datagram_offset as nat,
            max_sequence: self.max_sequence,
            final_sequence: self.final_sequence,
            abort: self.abort,
            subscription_ids: self.subscription_ids@,
            subscriptions: self.subscriptions@,
            next_subscription: self.next_subscription,
            fetches: self.fetches@,
            next_fetch: self.next_fetch,
            fetch_rejections: self.fetch_rejections@,
            dynamic: self.dynamic as nat,
            consumers: self.consumers as nat,
            retired: self.retired@.map_values(|group: group::Producer| held(group)),
            closed: self.closed,
        }
    }
}

/// Whether `reader` is at the start of the group.
pub open spec fn reads(reader: group::Consumer, held: Held) -> bool {
    &&& reader.info == held.info
    &&& reader.track == held.track
    &&& reader.index == 0
    &&& reader.prefetched().len() == 0
}

/// Whether every slot's group is well-formed.
pub open spec fn groups_valid(groups: Seq<Option<(group::Producer, Instant)>>) -> bool {
    forall|i: int|
        0 <= i < groups.len() ==> ((#[trigger] groups[i]) matches Some((group, _))
            ==> group.well_formed())
}

/// Whether every group that left the cache is well-formed.
pub open spec fn retired_valid(retired: Seq<group::Producer>) -> bool {
    forall|i: int| 0 <= i < retired.len() ==> (#[trigger] retired[i]).well_formed()
}

/// Whether exactly the cached sequences are in `duplicates`, each cached once, and none of
/// them lies above the newest.
pub open spec fn indexed(slots: Slots, duplicates: Set<u64>, newest: Option<u64>) -> bool {
    &&& distinct(slots)
    &&& forall|s: u64| duplicates.contains(s) <==> #[trigger] is_live(slots, s)
    &&& forall|s: u64| #[trigger]
        is_live(slots, s) ==> newest is Some && s <= newest->Some_0
}

impl TrackState {
    /// What every track satisfies.
    pub open spec fn well_formed(&self) -> bool {
        &&& groups_valid(self.groups@)
        &&& retired_valid(self.retired@)
        &&& indexed(self@.groups, self.duplicates@, self.max_sequence)
        &&& self.offset + self.groups@.len() <= usize::MAX
        &&& self.datagram_offset + self.datagrams@.len() <= usize::MAX
        &&& self.subscription_ids@.len() == self.subscriptions@.len()
        &&& self.subscription_ids@.no_duplicates()
        &&& forall|i: int|
            0 <= i < self.subscription_ids@.len() ==> #[trigger] self.subscription_ids@[i]
                < self.next_subscription
    }

    /// A track that nothing was done with.
    pub fn new(info: Option<Info>) -> (r: TrackState)
        ensures
            r.well_formed(),
            r@ == TrackModel::empty(info),
    {
        let r: TrackState = TrackState {
            info,
            groups: Vec::new(),
            offset: 0,
            datagrams: VecDeque::new(),
            datagram_offset: 0,
            duplicates: HashSet::new(),
            max_sequence: None,
            final_sequence: None,
            abort: None,
            subscription_ids: Vec::new(),
            subscriptions: Vec::new(),
            next_subscription: 0,
            fetches: VecDeque::new(),
            next_fetch: 0,
            fetch_rejections: KeyMap::new(),
            dynamic: 0,
            consumers: 0,
            retired: Vec::new(),
            closed: false,
        };
        assert(r@.groups =~= seq![]);
        assert(r@.datagrams =~= seq![]);
        assert(r@.retired =~= seq![]);
        assert(r@.subscription_ids =~= seq![]);
        assert(r@.subscriptions =~= seq![]);
        assert(r@.fetches =~= seq![]);
        r
    }

    /// Why the track is closed.
    pub fn close_error(&self) -> (r: Error)
        ensures
            r == self@.close_error(),
    {
        match &self.abort {
            Some(err) => err.clone(),
            None => Error::Dropped,
        }
    }

    /// Whether `sequence` is at or past the final sequence.
    pub fn past_final(&self, sequence: u64) -> (r: bool)
        ensures
            r == self@.past_final(sequence),
    {
        match self.final_sequence {
            Some(fin) => sequence >= fin,
            None => false,
        }
    }

    /// Whether `sequence` is the newest.
    fn is_newest(&self, sequence: u64) -> (r: bool)
        ensures
            r == (self.max_sequence == Some(sequence)),
    {
        match self.max_sequence {
            Some(max) => max == sequence,
            None => false,
        }
    }

    /// What a reader finds once everything cached is drained.
    fn poll_drained<T>(&self) -> (r: Poll<Result<Option<T>, Error>>)
        ensures
            r == self@.drained::<T>(),
    {
        if self.final_sequence.is_some() {
            return Poll::Ready(Ok(None));
        }
        match &self.abort {
            Some(err) => Poll::Ready(Err(err.clone())),
            None => Poll::Pending,
        }
    }

    /// The track's properties, once it is accepted.
    pub fn poll_info(&self) -> (r: Poll<Result<Info, Error>>)
        ensures
            r == match self@.info {
                Some(info) => Poll::Ready(Ok::<Info, Error>(info)),
                None => Poll::Pending,
            },
    {
        match self.info {
            Some(info) => Poll::Ready(Ok(info)),
            None => Poll::Pending,
        }
    }

    /// Find the next non-tombstoned group at or after `index` in arrival order.
    ///
    /// Returns the group and its absolute index so the consumer can advance past it.
    pub fn poll_recv_group(&self, index: usize, min_sequence: u64) -> (r: Poll<
        Result<Option<(group::Consumer, usize)>, Error>,
    >)
        requires
            self.well_formed(),
        ensures
            match self@.recv_group(index as nat, min_sequence) {
                Poll::Ready(Ok(Some(i))) => r matches Poll::Ready(Ok(Some((reader, at)))) && at
                    == self@.offset + i && reads(reader, self@.groups[i]->Some_0.0),
                Poll::Ready(Ok(None)) => r matches Poll::Ready(Ok(None)),
                Poll::Ready(Err(err)) => r matches Poll::Ready(Err(e)) && e == err,
                Poll::Pending => r is Pending,
            },
    {
        let start: usize = if index > self.offset {
            index - self.offset
        } else {
            0
        };
        let mut i: usize = start;
        while i < self.groups.len()
            invariant
                self.well_formed(),
                start == local_index(index as nat, self@.offset),
                start <= i,
                next_arrival(self@.groups, start as int, min_sequence) == next_arrival(
                    self@.groups,
                    i as int,
                    min_sequence,
                ),
            decreases self.groups@.len() - i,
        {
            assert(self@.groups[i as int] == slot_model(self.groups@[i as int]));
            match &self.groups[i] {
                Some((group, _)) => {
                    if group.info.sequence >= min_sequence {
                        return Poll::Ready(Ok(Some((group.consume(), self.offset + i))));
                    }
                },
                None => {},
            }
            i += 1;
        }
        self.poll_drained()
    }

    /// Find the next datagram at or after the subscriber's absolute `index`.
    ///
    /// Returns the datagram and its absolute index so the consumer can advance past it. A
    /// consumer whose `index` has fallen behind (older datagrams dropped) resumes at the
    /// oldest still-buffered datagram, skipping the lost ones.
    pub fn poll_recv_datagram(&self, index: usize) -> (r: Poll<
        Result<Option<(Datagram, usize)>, Error>,
    >)
        requires
            self.well_formed(),
        ensures
            match self@.recv_datagram(index as nat) {
                Poll::Ready(Ok(Some(i))) => r matches Poll::Ready(Ok(Some((datagram, at)))) && at
                    == self@.datagram_offset + i && datagram@ == self@.datagrams[i].0,
                Poll::Ready(Ok(None)) => r matches Poll::Ready(Ok(None)),
                Poll::Ready(Err(err)) => r matches Poll::Ready(Err(e)) && e == err,
                Poll::Pending => r is Pending,
            },
    {
        let start: usize = if index > self.datagram_offset {
            index - self.datagram_offset
        } else {
            0
        };
        if start < self.datagrams.len() {
            let entry: &(Datagram, Instant) = &self.datagrams[start];
            assert(self@.datagrams[start as int] == (entry.0@, entry.1));
            return Poll::Ready(Ok(Some((entry.0.clone(), self.datagram_offset + start))));
        }
        // Nothing buffered at the cursor: the track ending terminates the datagram stream too.
        self.poll_drained()
    }

    /// Push a datagram onto the buffer, dropping any that have aged out.
    pub fn push_datagram(&mut self, datagram: Datagram, now: Instant)
        requires
            old(self).well_formed(),
            old(self)@.datagram_offset + old(self)@.datagrams.len() < usize::MAX,
        ensures
            final(self).well_formed(),
            final(self)@ == (TrackModel {
                max_sequence: old(self)@.max_sequence,
                ..old(self)@.with_datagram(datagram@, now)
            }),
    {
        let ghost entry = (datagram@, now);
        let ghost all = self@.datagrams.push(entry);
        self.datagrams.push_back((datagram, now));
        assert(self@.datagrams =~= all);
        while self.datagrams.len() > 0 && now.since(self.datagrams[0].1).nanos
            > MAX_DATAGRAM_AGE_NANOS
            invariant
                retired_valid(self.retired@),
                self.datagram_offset + self@.datagrams.len() == old(self)@.datagram_offset
                    + all.len(),
                self.datagram_offset + self@.datagrams.len() <= usize::MAX,
                fresh_datagrams(all, now) == fresh_datagrams(self@.datagrams, now),
                self@ == (TrackModel {
                    datagrams: self@.datagrams,
                    datagram_offset: self@.datagram_offset,
                    ..old(self)@
                }),
                self.groups == old(self).groups,
                self.duplicates == old(self).duplicates,
            decreases self.datagrams@.len(),
        {
            let ghost before = self@.datagrams;
            assert(before[0].1 == self.datagrams@[0].1);
            let _ = self.datagrams.pop_front();
            assert(self@.datagrams =~= before.skip(1));
            self.datagram_offset = self.datagram_offset + 1;
        }
        assert(self@.datagrams.len() > 0 ==> self@.datagrams[0].1 == self.datagrams@[0].1);
    }

    /// Scan groups at or after `index` in arrival order, looking for the first with sequence
    /// `>= next_sequence` that has a fully-buffered next frame. Returns the frame plus the
    /// winning slot's absolute index and sequence so the consumer can advance past it.
    pub fn poll_read_frame(&self, index: usize, next_sequence: u64) -> (r: Poll<
        Result<Option<(Vec<u8>, usize, u64)>, Error>,
    >)
        requires
            self.well_formed(),
        ensures
            match self@.read_frame(index as nat, next_sequence) {
                Poll::Ready(Ok(Some((payload, i)))) => r matches Poll::Ready(
                    Ok(Some((frame, at, sequence))),
                ) && frame@ == payload && at == self@.offset + i && sequence
                    == self@.groups[i]->Some_0.0.info.sequence,
                Poll::Ready(Ok(None)) => r matches Poll::Ready(Ok(None)),
                Poll::Ready(Err(err)) => r matches Poll::Ready(Err(e)) && e == err,
                Poll::Pending => r is Pending,
            },
            r matches Poll::Ready(Ok(Some((_, at, _)))) ==> at < self@.offset + self@.groups.len(),
    {
        let start: usize = if index > self.offset {
            index - self.offset
        } else {
            0
        };
        let mut pending_seen: bool = false;
        let mut i: usize = start;
        while i < self.groups.len()
            invariant
                self.well_formed(),
                start == local_index(index as nat, self@.offset),
                start <= i,
                scan_frames(self@.groups, start as int, next_sequence) == match scan_frames(
                    self@.groups,
                    i as int,
                    next_sequence,
                ) {
                    FrameScan::Nothing(pending) => FrameScan::Nothing(pending || pending_seen),
                    found => found,
                },
            decreases self.groups@.len() - i,
        {
            assert(self@.groups[i as int] == slot_model(self.groups@[i as int]));
            match &self.groups[i] {
                Some((group, _)) => {
                    if group.info.sequence >= next_sequence {
                        let mut consumer: group::Consumer = group.consume();
                        match consumer.poll_read_frame(&group.state) {
                            Poll::Ready(Ok(Some(frame))) => {
                                return Poll::Ready(
                                    Ok(Some((frame, self.offset + i, group.info.sequence))),
                                );
                            },
                            Poll::Ready(Ok(None)) => {},
                            Poll::Ready(Err(err)) => {
                                return Poll::Ready(Err(err));
                            },
                            Poll::Pending => {
                                pending_seen = true;
                            },
                        }
                    }
                },
                None => {},
            }
            i += 1;
        }
        // A pending group can still produce a frame even after finish(): finish only blocks
        // new groups at/above final_sequence, not frames on existing groups.
        if pending_seen {
            return Poll::Pending;
        }
        self.poll_drained()
    }

    /// Find the smallest-sequence cached group satisfying
    /// `next_sequence <= seq <= end_sequence (if set)`, so the range can be widened (or
    /// unset) after the fact and previously-skipped cached groups become available without
    /// scanning past them in arrival order.
    ///
    /// Returns `Poll::Pending` when no in-range group is currently cached but future groups
    /// could still arrive in range; returns `Ok(None)` only when the track is finalized and
    /// no further in-range group is possible.
    pub fn poll_next_in_range(&self, next_sequence: u64, end_sequence: Option<u64>) -> (r: Poll<
        Result<Option<group::Consumer>, Error>,
    >)
        requires
            self.well_formed(),
        ensures
            match self@.next_in_range(next_sequence, end_sequence) {
                Poll::Ready(Ok(Some(i))) => r matches Poll::Ready(Ok(Some(reader))) && reads(
                    reader,
                    self@.groups[i]->Some_0.0,
                ),
                Poll::Ready(Ok(None)) => r matches Poll::Ready(Ok(None)),
                Poll::Ready(Err(err)) => r matches Poll::Ready(Err(e)) && e == err,
                Poll::Pending => r is Pending,
            },
    {
        // If the end cap is already below where we'd resume, no group can ever satisfy this
        // call until the cap rises. Pending (not None) so the consumer is parked rather than
        // told the stream is over.
        let parked: bool = match end_sequence {
            Some(end) => end < next_sequence,
            None => false,
        };
        if parked {
            return match &self.abort {
                Some(err) => Poll::Ready(Err(err.clone())),
                None => Poll::Pending,
            };
        }
        let mut best: Option<(usize, u64)> = None;
        let mut i: usize = 0;
        while i < self.groups.len()
            invariant
                self.well_formed(),
                i <= self.groups@.len(),
                match least_in_range(self@.groups, i as nat, next_sequence, end_sequence) {
                    None => best is None,
                    Some(b) => best matches Some((at, sequence)) && at == b && at < i
                        && self@.groups[b] is Some && sequence
                        == self@.groups[b]->Some_0.0.info.sequence,
                },
            decreases self.groups@.len() - i,
        {
            assert(self@.groups[i as int] == slot_model(self.groups@[i as int]));
            match &self.groups[i] {
                Some((group, _)) => {
                    let sequence: u64 = group.info.sequence;
                    let below_end: bool = match end_sequence {
                        Some(end) => sequence <= end,
                        None => true,
                    };
                    let better: bool = match best {
                        Some((_, least)) => sequence < least,
                        None => true,
                    };
                    if sequence >= next_sequence && below_end && better {
                        best = Some((i, sequence));
                    }
                },
                None => {},
            }
            i += 1;
        }
        match best {
            Some((at, _)) => {
                assert(self@.groups[at as int] == slot_model(self.groups@[at as int]));
                match &self.groups[at] {
                    Some((group, _)) => {
                        return Poll::Ready(Ok(Some(group.consume())));
                    },
                    None => {},
                }
            },
            None => {},
        }
        // No in-range group is cached. Decide whether more could ever arrive.
        match &self.abort {
            Some(err) => {
                return Poll::Ready(Err(err.clone()));
            },
            None => {},
        }
        // `final_sequence` is one past the last possible sequence. If our floor is already
        // at/past it, nothing else can land in range.
        if self.past_final(next_sequence) {
            return Poll::Ready(Ok(None));
        }
        Poll::Pending
    }

    /// The slot of a cached group.
    pub fn find(&self, sequence: u64) -> (r: Option<usize>)
        requires
            self.well_formed(),
        ensures
            match slot_of(self@.groups, sequence) {
                Some(i) => r == Some(i as usize) && 0 <= i < self.groups@.len()
                    && self.groups@[i] is Some && live_at(self@.groups, i, sequence),
                None => r is None,
            },
    {
        let mut i: usize = 0;
        while i < self.groups.len()
            invariant
                self.well_formed(),
                i <= self.groups@.len(),
                forall|j: int| 0 <= j < i ==> !live_at(self@.groups, j, sequence),
            decreases self.groups@.len() - i,
        {
            assert(self@.groups[i as int] == slot_model(self.groups@[i as int]));
            match &self.groups[i] {
                Some((group, _)) => {
                    if group.info.sequence == sequence {
                        proof {
                            slot_is_unique(self@.groups, i as int, sequence);
                        }
                        return Some(i);
                    }
                },
                None => {},
            }
            i += 1;
        }
        None
    }

    /// Find a cached group by sequence, skipping tombstones. Synchronous, never blocks.
    pub fn cached_group(&self, sequence: u64) -> (r: Option<group::Consumer>)
        requires
            self.well_formed(),
        ensures
            match slot_of(self@.groups, sequence) {
                Some(i) => r matches Some(reader) && reads(reader, self@.groups[i]->Some_0.0),
                None => r is None,
            },
    {
        match self.find(sequence) {
            Some(i) => {
                assert(self@.groups[i as int] == slot_model(self.groups@[i as int]));
                match &self.groups[i] {
                    Some((group, _)) => Some(group.consume()),
                    None => None,
                }
            },
            None => None,
        }
    }

    /// A cached group, to read from.
    pub fn group(&self, sequence: u64) -> (r: Option<&group::Producer>)
        requires
            self.well_formed(),
        ensures
            match slot_of(self@.groups, sequence) {
                Some(i) => r matches Some(group) && group.well_formed() && held(*group)
                    == self@.groups[i]->Some_0.0,
                None => r is None,
            },
    {
        match self.find(sequence) {
            Some(i) => {
                assert(self@.groups[i as int] == slot_model(self.groups@[i as int]));
                match &self.groups[i] {
                    Some((group, _)) => Some(group),
                    None => None,
                }
            },
            None => None,
        }
    }

    /// The group with the given sequence, or that it can never come.
    pub fn poll_get_group(&self, sequence: u64) -> (r: Poll<
        Result<Option<group::Consumer>, Error>,
    >)
        requires
            self.well_formed(),
        ensures
            match self@.get_group(sequence) {
                Poll::Ready(Ok(Some(i))) => r matches Poll::Ready(Ok(Some(reader))) && reads(
                    reader,
                    self@.groups[i]->Some_0.0,
                ),
                Poll::Ready(Ok(None)) => r matches Poll::Ready(Ok(None)),
                Poll::Ready(Err(err)) => r matches Poll::Ready(Err(e)) && e == err,
                Poll::Pending => r is Pending,
            },
    {
        match self.cached_group(sequence) {
            Some(group) => {
                return Poll::Ready(Ok(Some(group)));
            },
            None => {},
        }
        // Once final_sequence is set, groups at or past it can never exist.
        if self.past_final(sequence) {
            return Poll::Ready(Ok(None));
        }
        match &self.abort {
            Some(err) => Poll::Ready(Err(err.clone())),
            None => Poll::Pending,
        }
    }

    /// Resolve a one-shot fetch: the cached group, or an [`Error`] once it can never be
    /// served. Unlike [`Self::poll_get_group`] there's no `Ok(None)`, since a missing group
    /// is a failure ([`Error::NotFound`]), not an end-of-stream.
    ///
    /// A miss is unservable when the group is past the final sequence, or when no handler
    /// exists to fetch old content.
    pub fn poll_fetch(&self, sequence: u64, request_id: Option<u64>) -> (r: Poll<
        Result<group::Consumer, Error>,
    >)
        requires
            self.well_formed(),
        ensures
            match self@.fetch(sequence, request_id) {
                Poll::Ready(Ok(i)) => r matches Poll::Ready(Ok(reader)) && reads(
                    reader,
                    self@.groups[i]->Some_0.0,
                ),
                Poll::Ready(Err(err)) => r matches Poll::Ready(Err(e)) && e == err,
                Poll::Pending => r is Pending,
            },
    {
        match self.cached_group(sequence) {
            Some(group) => {
                return Poll::Ready(Ok(group));
            },
            None => {},
        }
        match &self.abort {
            Some(err) => {
                return Poll::Ready(Err(err.clone()));
            },
            None => {},
        }
        match request_id {
            Some(id) => {
                match self.fetch_rejections.get(&id) {
                    Some(err) => {
                        return Poll::Ready(Err(err.clone()));
                    },
                    None => {},
                }
            },
            None => {},
        }
        // Past the final sequence, or no handler to serve old content: unservable.
        if self.past_final(sequence) || self.dynamic == 0 {
            return Poll::Ready(Err(Error::NotFound));
        }
        Poll::Pending
    }

    /// Whether the track is over: cleanly, or why not.
    pub fn poll_closed(&self) -> (r: Poll<Result<(), Error>>)
        ensures
            r == self@.poll_closed(),
    {
        if self.final_sequence.is_some() {
            return Poll::Ready(Ok(()));
        }
        match &self.abort {
            Some(err) => Poll::Ready(Err(err.clone())),
            None => Poll::Pending,
        }
    }

    /// The number of sequences of a finished track.
    pub fn poll_finished(&self) -> (r: Poll<Result<u64, Error>>)
        ensures
            r == self@.finished(),
    {
        match self.final_sequence {
            Some(fin) => {
                return Poll::Ready(Ok(fin));
            },
            None => {},
        }
        match &self.abort {
            Some(err) => Poll::Ready(Err(err.clone())),
            None => Poll::Pending,
        }
    }
}

/// A new reader of a group reads that group, from its first frame on.
pub proof fn reader_starts_at_the_front(reader: group::Consumer, held: Held)
    requires
        reads(reader, held),
    ensures
        reader.info.sequence == held.info.sequence,
        reader.track == held.track,
        reader.index == 0,
        reader.prefetched().len() == 0,
{
}

} // verus!
