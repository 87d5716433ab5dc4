//! What a track holds, as mathematical values, and what each operation makes of it.

use vstd::prelude::*;

use crate::error::Error;
use crate::model::datagram::{DatagramModel, MAX_DATAGRAM_PAYLOAD};
use crate::model::group;
use crate::model::group::{empty_group, read_frame, GroupModel};
use crate::model::subscription::{aggregate, Subscription};
use crate::model::time::{Duration, Instant, Timestamp};
use crate::model::track::info::Info;
use crate::poll::Poll;

verus! {

/// How long a datagram stays in the per-track buffer before it is dropped, in
/// nanoseconds: 50 milliseconds.
///
/// Datagrams are a best-effort send buffer, not a replay cache (unlike groups): only the
/// last few tens of milliseconds are kept, so a consumer that stalls loses stale
/// datagrams instead of replaying them.
pub const MAX_DATAGRAM_AGE_NANOS: u128 = 50_000_000;

/// A group in a track: its header, the track's properties, and its contents.
pub struct Held {
    pub info: group::Info,
    pub track: Info,
    pub group: GroupModel,
}

/// What a group producer stands for.
pub open spec fn held(group: group::Producer) -> Held {
    Held { info: group.info, track: group.track, group: group@ }
}

/// Cached groups with their arrival times, in arrival order. `None` is a tombstone for an
/// evicted group.
pub type Slots = Seq<Option<(Held, Instant)>>;

/// A specific group requested via a fetch, queued on the track for a handler to serve.
#[derive(Clone, Copy, Debug, PartialEq, Eq, Structural)]
pub struct GroupRequested {
    /// The request ID matching the waiting fetch.
    pub id: u64,
    /// The group sequence the consumer wants.
    pub sequence: u64,
    /// The requested delivery priority.
    pub priority: u8,
}

/// What a track's state stands for.
pub struct TrackModel {
    pub info: Option<Info>,
    pub groups: Slots,
    pub offset: nat,
    pub datagrams: Seq<(DatagramModel, Instant)>,
    pub datagram_offset: nat,
    pub max_sequence: Option<u64>,
    pub final_sequence: Option<u64>,
    pub abort: Option<Error>,
    pub subscription_ids: Seq<u64>,
    pub subscriptions: Seq<Subscription>,
    pub next_subscription: u64,
    pub fetches: Seq<GroupRequested>,
    pub next_fetch: u64,
    pub fetch_rejections: Map<u64, Error>,
    pub dynamic: nat,
    pub consumers: nat,
    pub retired: Seq<Held>,
    pub closed: bool,
}

/// Whether slot `i` holds the group `sequence`.
pub open spec fn live_at(slots: Slots, i: int, sequence: u64) -> bool {
    0 <= i < slots.len() && slots[i] is Some && slots[i]->Some_0.0.info.sequence == sequence
}

/// Whether some slot holds the group `sequence`.
pub open spec fn is_live(slots: Slots, sequence: u64) -> bool {
    exists|i: int| live_at(slots, i, sequence)
}

/// The slot of the group `sequence`, if it is cached.
pub open spec fn slot_of(slots: Slots, sequence: u64) -> Option<int> {
    if is_live(slots, sequence) {
        Some(choose|i: int| live_at(slots, i, sequence))
    } else {
        None
    }
}

/// Whether no sequence is cached twice.
pub open spec fn distinct(slots: Slots) -> bool {
    forall|i: int, j: int|
        0 <= i < j < slots.len() && slots[i] is Some && slots[j] is Some
            ==> (#[trigger] slots[i])->Some_0.0.info.sequence != (
        #[trigger] slots[j])->Some_0.0.info.sequence
}

/// With distinct sequences, the slot of a group is the one that holds it.
pub proof fn slot_is_unique(slots: Slots, i: int, sequence: u64)
    requires
        distinct(slots),
        live_at(slots, i, sequence),
    ensures
        slot_of(slots, sequence) == Some(i),
{
    let j = choose|j: int| live_at(slots, j, sequence);
    assert(live_at(slots, j, sequence));
    assert(i == j);
}

/// What decides about eviction: the time, how old a group may grow, and the newest
/// sequence, which always stays.
pub struct Expiry {
    pub now: Instant,
    pub max_age: Duration,
    pub newest: Option<u64>,
}

impl Expiry {
    /// Whether a slot ends the search for expired groups: it is not the newest and has
    /// not expired, so that everything after it arrived even later.
    pub open spec fn guards(self, slot: Option<(Held, Instant)>) -> bool {
        match slot {
            None => false,
            Some((held, at)) => self.newest != Some(held.info.sequence) && self.now.since(at).nanos
                <= self.max_age.nanos,
        }
    }

    /// Whether slot `i` is evicted: it is live, is not the newest, has expired, and so
    /// has everything before it.
    pub open spec fn evicts(self, slots: Slots, i: int) -> bool {
        &&& slots[i] is Some
        &&& self.newest != Some(slots[i]->Some_0.0.info.sequence)
        &&& forall|j: int| 0 <= j <= i ==> !self.guards(#[trigger] slots[j])
    }

    /// The slots with tombstones for evicted groups.
    pub open spec fn swept(self, slots: Slots) -> Slots {
        Seq::new(
            slots.len(),
            |i: int|
                if self.evicts(slots, i) {
                    None
                } else {
                    slots[i]
                },
        )
    }

    /// The groups evicted out of the first `n` slots, each failed with [`Error::Old`] so
    /// that a reader still in it does not wait forever.
    pub open spec fn gone(self, slots: Slots, n: nat) -> Seq<Held>
        decreases n,
    {
        if n == 0 {
            seq![]
        } else {
            let before = self.gone(slots, (n - 1) as nat);
            if self.evicts(slots, n - 1) {
                before.push(retire(slots[n - 1]->Some_0.0))
            } else {
                before
            }
        }
    }
}

/// A group as it leaves the cache for its age.
pub open spec fn retire(held: Held) -> Held {
    if held.group.closed {
        held
    } else {
        Held { group: held.group.aborted(Error::Old), ..held }
    }
}

/// The number of tombstones in front.
pub open spec fn leading(slots: Slots) -> nat
    decreases slots.len(),
{
    if slots.len() == 0 || slots[0] is Some {
        0
    } else {
        1 + leading(slots.skip(1))
    }
}

/// The groups that are still cached, in arrival order.
pub open spec fn cached(slots: Slots) -> Seq<Held>
    decreases slots.len(),
{
    if slots.len() == 0 {
        seq![]
    } else {
        let before = cached(slots.drop_last());
        match slots.last() {
            Some((held, _)) => before.push(held),
            None => before,
        }
    }
}

/// The first slot from `start` on that holds a group of at least `min`, or the number of
/// slots.
pub open spec fn next_arrival(slots: Slots, start: int, min: u64) -> int
    decreases slots.len() - start,
{
    if start >= slots.len() {
        slots.len() as int
    } else if slots[start] is Some && slots[start]->Some_0.0.info.sequence >= min {
        start
    } else {
        next_arrival(slots, start + 1, min)
    }
}

/// Whether a sequence lies between `next` and `end`, if there is an end.
pub open spec fn in_range(sequence: u64, next: u64, end: Option<u64>) -> bool {
    next <= sequence && (end matches Some(end) ==> sequence <= end)
}

/// The slot among the first `n` that holds the smallest sequence in range.
pub open spec fn least_in_range(slots: Slots, n: nat, next: u64, end: Option<u64>) -> Option<int>
    decreases n,
{
    if n == 0 {
        None
    } else {
        let best = least_in_range(slots, (n - 1) as nat, next, end);
        match slots[n - 1] {
            None => best,
            Some((held, _)) => if in_range(held.info.sequence, next, end) && (best matches Some(b)
                ==> held.info.sequence < slots[b]->Some_0.0.info.sequence) {
                Some(n - 1)
            } else {
                best
            },
        }
    }
}

/// What looking for the first readable frame from slot `start` on finds.
pub enum FrameScan {
    /// A frame's payload, with the slot it is from.
    Found(Seq<u8>, int),
    /// A group that failed before its first frame.
    Failed(Error),
    /// No frame, and whether some group may still get one.
    Nothing(bool),
}

/// What looking for the first readable frame finds, in groups of at least `min`.
pub open spec fn scan_frames(slots: Slots, start: int, min: u64) -> FrameScan
    decreases slots.len() - start,
{
    if start >= slots.len() {
        FrameScan::Nothing(false)
    } else {
        let rest = scan_frames(slots, start + 1, min);
        match slots[start] {
            None => rest,
            Some((held, _)) => if held.info.sequence < min {
                rest
            } else {
                match read_frame(held.group, 0, seq![]).0 {
                    Poll::Ready(Ok(Some(payload))) => FrameScan::Found(payload, start),
                    Poll::Ready(Ok(None)) => rest,
                    Poll::Ready(Err(err)) => FrameScan::Failed(err),
                    Poll::Pending => match rest {
                        FrameScan::Nothing(_) => FrameScan::Nothing(true),
                        found => found,
                    },
                }
            },
        }
    }
}

/// The next datagrams to keep: those in front that have aged out are dropped.
pub open spec fn fresh_datagrams(
    datagrams: Seq<(DatagramModel, Instant)>,
    now: Instant,
) -> Seq<(DatagramModel, Instant)>
    decreases datagrams.len(),
{
    if datagrams.len() == 0 || now.since(datagrams[0].1).nanos <= MAX_DATAGRAM_AGE_NANOS {
        datagrams
    } else {
        fresh_datagrams(datagrams.skip(1), now)
    }
}

/// An absolute cursor as an index behind what was dropped in front.
pub open spec fn local_index(index: nat, offset: nat) -> int {
    if index <= offset {
        0
    } else {
        index - offset
    }
}

impl TrackModel {
    /// A track that nothing was done with.
    pub open spec fn empty(info: Option<Info>) -> TrackModel {
        TrackModel {
            info,
            groups: seq![],
            offset: 0,
            datagrams: seq![],
            datagram_offset: 0,
            max_sequence: None,
            final_sequence: None,
            abort: None,
            subscription_ids: seq![],
            subscriptions: seq![],
            next_subscription: 0,
            fetches: seq![],
            next_fetch: 0,
            fetch_rejections: Map::empty(),
            dynamic: 0,
            consumers: 0,
            retired: seq![],
            closed: false,
        }
    }

    /// Why the track is closed.
    pub open spec fn close_error(self) -> Error {
        match self.abort {
            Some(err) => err,
            None => Error::Dropped,
        }
    }

    /// What a poll of the state means to a handle: a closed track leaves nothing pending.
    pub open spec fn or_closed<T>(self, poll: Poll<Result<T, Error>>) -> Poll<Result<T, Error>> {
        if poll is Pending && self.closed {
            Poll::Ready(Err(self.close_error()))
        } else {
            poll
        }
    }

    /// Whether groups at or past `sequence` are ruled out.
    pub open spec fn past_final(self, sequence: u64) -> bool {
        self.final_sequence matches Some(fin) && sequence >= fin
    }

    /// The highest sequence once `sequence` has been used.
    pub open spec fn newest_with(self, sequence: u64) -> Option<u64> {
        match self.max_sequence {
            Some(max) => Some(
                if max >= sequence {
                    max
                } else {
                    sequence
                },
            ),
            None => Some(sequence),
        }
    }

    /// The track without its expired groups.
    pub open spec fn evicted(self, now: Instant, max_age: Duration) -> TrackModel {
        let expiry = Expiry { now, max_age, newest: self.max_sequence };
        let swept = expiry.swept(self.groups);
        TrackModel {
            groups: swept.skip(leading(swept) as int),
            offset: self.offset + leading(swept),
            retired: self.retired + expiry.gone(self.groups, self.groups.len()),
            ..self
        }
    }

    /// The track with a new, empty group.
    pub open spec fn with_group(self, info: group::Info, now: Instant) -> TrackModel {
        let track = self.info->Some_0;
        let held = Held { info, track, group: empty_group() };
        TrackModel {
            groups: self.groups.push(Some((held, now))),
            max_sequence: self.newest_with(info.sequence),
            ..self
        }.evicted(now, track.cache)
    }

    /// The track with the group in slot `i` replaced.
    pub open spec fn with_slot(self, i: int, held: Held) -> TrackModel {
        TrackModel {
            groups: self.groups.update(i, Some((held, self.groups[i]->Some_0.1))),
            ..self
        }
    }

    /// The track with one more datagram.
    pub open spec fn with_datagram(self, datagram: DatagramModel, now: Instant) -> TrackModel {
        let all = self.datagrams.push((datagram, now));
        let kept = fresh_datagrams(all, now);
        TrackModel {
            datagrams: kept,
            datagram_offset: (self.datagram_offset + all.len() - kept.len()) as nat,
            max_sequence: self.newest_with(datagram.sequence),
            ..self
        }
    }

    /// The track without its cached groups and datagrams.
    pub open spec fn released(self) -> TrackModel {
        TrackModel {
            groups: seq![],
            datagrams: seq![],
            retired: self.retired + cached(self.groups),
            ..self
        }
    }

    /// The track without the groups of this sequence that left the cache.
    pub open spec fn forgotten(self, sequence: u64) -> TrackModel {
        TrackModel {
            retired: self.retired.filter(|held: Held| held.info.sequence != sequence),
            ..self
        }
    }

    /// The track, aborted.
    pub open spec fn aborted(self, err: Error) -> TrackModel {
        TrackModel { abort: Some(err), closed: true, ..self.released() }
    }

    /// The track once its last writer is gone: cached content survives only a clean finish.
    pub open spec fn dropped(self) -> TrackModel {
        if self.closed {
            self
        } else if self.final_sequence is Some {
            TrackModel { closed: true, ..self }
        } else {
            TrackModel { closed: true, ..self.released() }
        }
    }

    /// The track with one more subscriber.
    pub open spec fn subscribed(self, subscription: Subscription) -> TrackModel {
        TrackModel {
            subscription_ids: self.subscription_ids.push(self.next_subscription),
            subscriptions: self.subscriptions.push(subscription),
            next_subscription: (self.next_subscription + 1) as u64,
            ..self
        }
    }

    /// The track with the preferences of subscriber `id` replaced.
    pub open spec fn resubscribed(self, id: u64, subscription: Subscription) -> TrackModel {
        if self.subscription_ids.contains(id) {
            TrackModel {
                subscriptions: self.subscriptions.update(
                    self.subscription_ids.index_of(id),
                    subscription,
                ),
                ..self
            }
        } else {
            self
        }
    }

    /// The track without subscriber `id`.
    pub open spec fn unsubscribed(self, id: u64) -> TrackModel {
        if self.subscription_ids.contains(id) {
            let i = self.subscription_ids.index_of(id);
            TrackModel {
                subscription_ids: self.subscription_ids.remove(i),
                subscriptions: self.subscriptions.remove(i),
                ..self
            }
        } else {
            self
        }
    }

    /// The track with a fetch queued.
    pub open spec fn requested(self, sequence: u64, priority: u8) -> TrackModel {
        TrackModel {
            fetches: self.fetches.push(
                (GroupRequested { id: self.next_fetch, sequence, priority }),
            ),
            next_fetch: if self.next_fetch == u64::MAX {
                0
            } else {
                (self.next_fetch + 1) as u64
            },
            ..self
        }
    }

    /// The track with a fetch rejected, unless it was rejected before.
    pub open spec fn rejected(self, id: u64, err: Error) -> TrackModel {
        if self.closed || self.fetch_rejections.dom().contains(id) {
            self
        } else {
            TrackModel { fetch_rejections: self.fetch_rejections.insert(id, err), ..self }
        }
    }

    /// The track with a fetched group that was asked for, or why it is not wanted.
    pub open spec fn accept_error(self, sequence: u64) -> Option<Error> {
        if self.closed {
            Some(self.close_error())
        } else if self.abort is Some {
            self.abort
        } else if self.past_final(sequence) {
            Some(Error::Closed)
        } else if is_live(self.groups, sequence) {
            Some(Error::Duplicate)
        } else {
            None
        }
    }

    /// The next sequence in order, if there is one.
    pub open spec fn next_sequence(self) -> Option<u64> {
        match self.max_sequence {
            Some(max) => if max < u64::MAX {
                Some((max + 1) as u64)
            } else {
                None
            },
            None => Some(0),
        }
    }

    /// What ends a stream in arrival order, once it is drained.
    pub open spec fn drained<T>(self) -> Poll<Result<Option<T>, Error>> {
        if self.final_sequence is Some {
            Poll::Ready(Ok(None))
        } else {
            match self.abort {
                Some(err) => Poll::Ready(Err(err)),
                None => Poll::Pending,
            }
        }
    }

    /// The slot of the next group in arrival order.
    pub open spec fn recv_group(self, index: nat, min_sequence: u64) -> Poll<
        Result<Option<int>, Error>,
    > {
        let i = next_arrival(self.groups, local_index(index, self.offset), min_sequence);
        if i < self.groups.len() {
            Poll::Ready(Ok(Some(i)))
        } else {
            self.drained()
        }
    }

    /// The place of the next datagram in arrival order.
    pub open spec fn recv_datagram(self, index: nat) -> Poll<Result<Option<int>, Error>> {
        let i = local_index(index, self.datagram_offset);
        if i < self.datagrams.len() {
            Poll::Ready(Ok(Some(i)))
        } else {
            self.drained()
        }
    }

    /// The first frame of the next group in arrival order that has one, with its slot.
    pub open spec fn read_frame(self, index: nat, min_sequence: u64) -> Poll<
        Result<Option<(Seq<u8>, int)>, Error>,
    > {
        match scan_frames(self.groups, local_index(index, self.offset), min_sequence) {
            FrameScan::Found(payload, i) => Poll::Ready(Ok(Some((payload, i)))),
            FrameScan::Failed(err) => Poll::Ready(Err(err)),
            FrameScan::Nothing(true) => Poll::Pending,
            FrameScan::Nothing(false) => self.drained(),
        }
    }

    /// The slot of the group with the smallest sequence from `next` up to `end`.
    pub open spec fn next_in_range(self, next: u64, end: Option<u64>) -> Poll<
        Result<Option<int>, Error>,
    > {
        let best = least_in_range(self.groups, self.groups.len(), next, end);
        if !(end matches Some(end) && end < next) && best is Some {
            Poll::Ready(Ok(best))
        } else if self.abort is Some {
            Poll::Ready(Err(self.abort->Some_0))
        } else if !(end matches Some(end) && end < next) && self.past_final(next) {
            Poll::Ready(Ok(None))
        } else {
            Poll::Pending
        }
    }

    /// The slot of the group `sequence`, or that it will never come.
    pub open spec fn get_group(self, sequence: u64) -> Poll<Result<Option<int>, Error>> {
        match slot_of(self.groups, sequence) {
            Some(i) => Poll::Ready(Ok(Some(i))),
            None => if self.past_final(sequence) {
                Poll::Ready(Ok(None))
            } else {
                match self.abort {
                    Some(err) => Poll::Ready(Err(err)),
                    None => Poll::Pending,
                }
            },
        }
    }

    /// The slot of the group `sequence`, or why it cannot be had.
    pub open spec fn fetch(self, sequence: u64, request: Option<u64>) -> Poll<Result<int, Error>> {
        match slot_of(self.groups, sequence) {
            Some(i) => Poll::Ready(Ok(i)),
            None => if self.abort is Some {
                Poll::Ready(Err(self.abort->Some_0))
            } else if request is Some && self.fetch_rejections.dom().contains(request->Some_0) {
                Poll::Ready(Err(self.fetch_rejections[request->Some_0]))
            } else if self.past_final(sequence) || self.dynamic == 0 {
                Poll::Ready(Err(Error::NotFound))
            } else {
                Poll::Pending
            },
        }
    }

    /// Whether the track is over.
    pub open spec fn poll_closed(self) -> Poll<Result<(), Error>> {
        if self.final_sequence is Some {
            Poll::Ready(Ok(()))
        } else {
            match self.abort {
                Some(err) => Poll::Ready(Err(err)),
                None => Poll::Pending,
            }
        }
    }

    /// The number of sequences of a finished track.
    pub open spec fn finished(self) -> Poll<Result<u64, Error>> {
        match self.final_sequence {
            Some(fin) => Poll::Ready(Ok(fin)),
            None => match self.abort {
                Some(err) => Poll::Ready(Err(err)),
                None => Poll::Pending,
            },
        }
    }

    /// Whether a group `sequence` can be created, and if not, why.
    pub open spec fn create_error(self, sequence: u64) -> Option<Error> {
        if self.closed {
            Some(self.close_error())
        } else if self.past_final(sequence) {
            Some(Error::Closed)
        } else if is_live(self.groups, sequence) {
            Some(Error::Duplicate)
        } else {
            None
        }
    }

    /// The sequence that the next group or datagram gets, or why there is none.
    pub open spec fn append_sequence(self) -> Result<u64, Error> {
        if self.closed {
            Err(self.close_error())
        } else {
            match self.next_sequence() {
                None => Err(Error::BoundsExceeded(crate::coding::varint::BoundsExceeded)),
                Some(sequence) => if self.past_final(sequence) {
                    Err(Error::Closed)
                } else {
                    Ok(sequence)
                },
            }
        }
    }

    /// The timestamp of a datagram at the track's timescale, or why it is refused.
    pub open spec fn datagram_timestamp(self, timestamp: Timestamp, payload: Seq<u8>) -> Result<
        Timestamp,
        Error,
    > {
        if payload.len() > MAX_DATAGRAM_PAYLOAD {
            Err(Error::WrongSize)
        } else if self.closed {
            Err(self.close_error())
        } else {
            match timestamp.spec_convert(self.info->Some_0.timescale) {
                Ok(timestamp) => Ok(timestamp),
                Err(_) => Err(Error::TimestampMismatch),
            }
        }
    }

    /// What all live subscribers together ask for.
    pub open spec fn demand(self) -> Option<Subscription> {
        aggregate(self.subscriptions)
    }
}

} // verus!
