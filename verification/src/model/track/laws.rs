//! What holds of every track.

use vstd::prelude::*;

use crate::error::Error;
use crate::model::datagram::DatagramModel;
use crate::model::group;
use crate::model::time::{Duration, Instant};
use crate::model::group::read_frame;
use crate::model::subscription::{aggregate_covers_all, covers, Subscription};
use crate::model::time::{TimeOverflow, Timestamp};
use crate::model::track::model::{
    cached, fresh_datagrams, in_range, is_live, leading, least_in_range, live_at, local_index,
    next_arrival, scan_frames, Expiry, FrameScan, GroupRequested, Held, Slots, TrackModel,
};
use crate::poll::Poll;

verus! {

/// Groups and datagrams draw from one counter: appending either makes the next sequence one
/// higher, so interleaving them never reuses a number.
pub proof fn appended_sequences_increase(
    track: TrackModel,
    sequence: u64,
    datagram: DatagramModel,
    now: Instant,
)
    requires
        track.append_sequence() == Ok::<u64, Error>(sequence),
        datagram.sequence == sequence,
    ensures
        ({
            let grown = track.with_group(group::Info { sequence }, now);
            let sent = track.with_datagram(datagram, now);
            &&& grown.max_sequence == Some(sequence)
            &&& sent.max_sequence == Some(sequence)
            &&& sequence < u64::MAX && track.final_sequence is None ==> {
                &&& grown.append_sequence() == Ok::<u64, Error>((sequence + 1) as u64)
                &&& sent.append_sequence() == Ok::<u64, Error>((sequence + 1) as u64)
            }
        }),
{
}

/// Nothing at or past the final sequence can be added, and no sequence that is cached can be
/// added again.
pub proof fn finished_track_is_bounded(track: TrackModel, sequence: u64)
    requires
        track.past_final(sequence) || is_live(track.groups, sequence),
    ensures
        track.create_error(sequence) is Some,
        track.accept_error(sequence) is Some,
        track.append_sequence() != Ok::<u64, Error>(sequence) || !track.past_final(sequence),
{
}

/// Trimming keeps what is cached.
proof fn trimmed_is_live(slots: Slots, i: int, sequence: u64)
    requires
        live_at(slots, i, sequence),
    ensures
        is_live(slots.skip(leading(slots) as int), sequence),
        leading(slots) <= i,
    decreases slots.len(),
{
    if slots[0] is Some {
        assert(slots.skip(0) =~= slots);
    } else {
        let rest = slots.skip(1);
        assert(live_at(rest, i - 1, sequence));
        trimmed_is_live(rest, i - 1, sequence);
        assert(rest.skip(leading(rest) as int) =~= slots.skip(leading(slots) as int));
    }
}

/// Eviction never takes the newest group, nor one that has not expired.
pub proof fn eviction_keeps(track: TrackModel, now: Instant, max_age: Duration, i: int)
    requires
        0 <= i < track.groups.len(),
        track.groups[i] is Some,
        track.max_sequence == Some(track.groups[i]->Some_0.0.info.sequence)
            || now.since(track.groups[i]->Some_0.1).nanos <= max_age.nanos,
    ensures
        is_live(
            track.evicted(now, max_age).groups,
            track.groups[i]->Some_0.0.info.sequence,
        ),
{
    let expiry = Expiry { now, max_age, newest: track.max_sequence };
    let sequence = track.groups[i]->Some_0.0.info.sequence;
    assert(!expiry.evicts(track.groups, i)) by {
        if expiry.evicts(track.groups, i) {
            assert(!expiry.guards(track.groups[i]));
        }
    }
    let swept = expiry.swept(track.groups);
    assert(live_at(swept, i, sequence));
    trimmed_is_live(swept, i, sequence);
}

/// Eviction adds nothing: what is cached after it was cached before.
pub proof fn eviction_adds_nothing(
    track: TrackModel,
    now: Instant,
    max_age: Duration,
    sequence: u64,
)
    requires
        is_live(track.evicted(now, max_age).groups, sequence),
    ensures
        is_live(track.groups, sequence),
{
    let expiry = Expiry { now, max_age, newest: track.max_sequence };
    let swept = expiry.swept(track.groups);
    let after = track.evicted(now, max_age).groups;
    let i = choose|i: int| live_at(after, i, sequence);
    assert(live_at(after, i, sequence));
    leading_in_bounds(swept);
    assert(live_at(track.groups, i + leading(swept), sequence));
}

proof fn leading_in_bounds(slots: Slots)
    ensures
        leading(slots) <= slots.len(),
    decreases slots.len(),
{
    if slots.len() > 0 && slots[0] is None {
        leading_in_bounds(slots.skip(1));
    }
}

/// The least cached sequence in range is in range, and no other in range is smaller.
proof fn least_is_least(slots: Slots, n: nat, next: u64, end: Option<u64>)
    requires
        n <= slots.len(),
    ensures
        match least_in_range(slots, n, next, end) {
            Some(b) => {
                &&& 0 <= b < n
                &&& slots[b] is Some
                &&& in_range(slots[b]->Some_0.0.info.sequence, next, end)
                &&& forall|j: int|
                    0 <= j < n && slots[j] is Some && in_range(
                        slots[j]->Some_0.0.info.sequence,
                        next,
                        end,
                    ) ==> slots[b]->Some_0.0.info.sequence <= (
                    #[trigger] slots[j])->Some_0.0.info.sequence
            },
            None => forall|j: int|
                0 <= j < n && (#[trigger] slots[j]) is Some ==> !in_range(
                    slots[j]->Some_0.0.info.sequence,
                    next,
                    end,
                ),
        },
    decreases n,
{
    if n > 0 {
        least_is_least(slots, (n - 1) as nat, next, end);
    }
}

/// Reading groups in sequence order gives the smallest cached sequence in range, so that the
/// sequences given out increase, and none beyond the cap is given out.
pub proof fn next_group_is_least(track: TrackModel, next: u64, end: Option<u64>)
    ensures
        track.next_in_range(next, end) matches Poll::Ready(Ok(Some(b))) ==> {
            &&& 0 <= b < track.groups.len()
            &&& track.groups[b] is Some
            &&& in_range(track.groups[b]->Some_0.0.info.sequence, next, end)
            &&& forall|j: int|
                0 <= j < track.groups.len() && track.groups[j] is Some && in_range(
                    track.groups[j]->Some_0.0.info.sequence,
                    next,
                    end,
                ) ==> track.groups[b]->Some_0.0.info.sequence <= (
                #[trigger] track.groups[j])->Some_0.0.info.sequence
        },
        track.next_in_range(next, end) is Pending || (track.next_in_range(next, end) matches
            Poll::Ready(Ok(None))) ==> forall|j: int|
            0 <= j < track.groups.len() && (#[trigger] track.groups[j]) is Some ==> !in_range(
                track.groups[j]->Some_0.0.info.sequence,
                next,
                end,
            ),
{
    least_is_least(track.groups, track.groups.len(), next, end);
}

/// The next arrival lies at or after the cursor, and everything between is a tombstone or
/// below the minimum.
proof fn arrival_is_next(slots: Slots, start: int, min: u64)
    requires
        0 <= start,
    ensures
        ({
            let i = next_arrival(slots, start, min);
            &&& start <= slots.len() ==> start <= i <= slots.len()
            &&& i < slots.len() ==> slots[i] is Some && slots[i]->Some_0.0.info.sequence >= min
            &&& forall|j: int|
                start <= j < i && j < slots.len() && (#[trigger] slots[j]) is Some
                    ==> slots[j]->Some_0.0.info.sequence < min
        }),
    decreases slots.len() - start,
{
    if start < slots.len() && !(slots[start] is Some && slots[start]->Some_0.0.info.sequence
        >= min) {
        arrival_is_next(slots, start + 1, min);
    }
}

/// Reading groups in arrival order gives each group once: a group that is given out lies at
/// or after the cursor, the cursor moves past it, and no cached group between is skipped
/// unless it is below the minimum.
pub proof fn recv_group_in_arrival_order(track: TrackModel, index: nat, min: u64)
    ensures
        track.recv_group(index, min) matches Poll::Ready(Ok(Some(i))) ==> {
            &&& 0 <= i < track.groups.len()
            &&& track.groups[i] is Some
            &&& index < track.offset + i + 1
            &&& track.groups[i]->Some_0.0.info.sequence >= min
            &&& forall|j: int|
                local_index(index, track.offset) <= j < i && (#[trigger] track.groups[j]) is Some
                    ==> track.groups[j]->Some_0.0.info.sequence < min
        },
{
    arrival_is_next(track.groups, local_index(index, track.offset), min);
}

/// An aborted track has nothing left to give: every reader finds the error, unless the track
/// had been finished cleanly.
pub proof fn aborted_track_fails(
    track: TrackModel,
    err: Error,
    index: nat,
    sequence: u64,
    end: Option<u64>,
)
    ensures
        ({
            let gone = track.aborted(err);
            &&& track.final_sequence is None ==> {
                &&& gone.recv_group(index, sequence) == Poll::Ready(Err::<Option<int>, Error>(err))
                &&& gone.recv_datagram(index) == Poll::Ready(Err::<Option<int>, Error>(err))
                &&& gone.get_group(sequence) == Poll::Ready(Err::<Option<int>, Error>(err))
                &&& gone.finished() == Poll::Ready(Err::<u64, Error>(err))
            }
            &&& gone.next_in_range(sequence, end) == Poll::Ready(Err::<Option<int>, Error>(err))
            &&& gone.fetch(sequence, None) == Poll::Ready(Err::<int, Error>(err))
        }),
{
    let gone = track.aborted(err);
    assert(least_in_range(gone.groups, 0, sequence, end) is None);
    assert(next_arrival(gone.groups, local_index(index, gone.offset), sequence) == 0);
    assert(!is_live(gone.groups, sequence));
}

/// A finished track drains the same after its producer is gone.
pub proof fn finished_track_drains(
    track: TrackModel,
    index: nat,
    sequence: u64,
    end: Option<u64>,
)
    requires
        track.final_sequence is Some,
    ensures
        track.dropped().recv_group(index, sequence) == track.recv_group(index, sequence),
        track.dropped().recv_datagram(index) == track.recv_datagram(index),
        track.dropped().next_in_range(sequence, end) == track.next_in_range(sequence, end),
        track.dropped().read_frame(index, sequence) == track.read_frame(index, sequence),
        !(track.recv_group(index, sequence) is Pending),
{
}

/// Rejecting one attempt to fetch a group leaves every other attempt as it was, and is what
/// that attempt finds, if the group is not there after all.
pub proof fn rejection_is_private(
    track: TrackModel,
    id: u64,
    err: Error,
    sequence: u64,
    other: Option<u64>,
)
    requires
        !track.closed,
        !track.fetch_rejections.dom().contains(id),
    ensures
        other != Some(id) ==> track.rejected(id, err).fetch(sequence, other) == track.fetch(
            sequence,
            other,
        ),
        !is_live(track.groups, sequence) && track.abort is None ==> track.rejected(id, err).fetch(
            sequence,
            Some(id),
        ) == Poll::Ready(Err::<int, Error>(err)),
{
}

/// A miss that nobody can serve fails at once instead of waiting.
pub proof fn unservable_fetch_fails(track: TrackModel, sequence: u64)
    requires
        !is_live(track.groups, sequence),
        track.abort is None,
        track.past_final(sequence) || track.dynamic == 0,
    ensures
        track.fetch(sequence, None) == Poll::Ready(Err::<int, Error>(Error::NotFound)),
{
}

/// Reading groups in sequence order skips nothing that is cached: the next group lies at or past
/// `next` and not past `end`, no other cached group there comes before it, and where there is
/// one, one is given out. Without one the reader learns of an abort, of the end once it is
/// past it and not held back by a cap, and waits otherwise.
pub proof fn next_group_skips_nothing(track: TrackModel, next: u64, end: Option<u64>)
    ensures
        ({
            let found = track.next_in_range(next, end);
            let wanted = |j: int|
                0 <= j < track.groups.len() && track.groups[j] is Some && next
                    <= track.groups[j]->Some_0.0.info.sequence && (end matches Some(end)
                    ==> track.groups[j]->Some_0.0.info.sequence <= end);
            let any = exists|j: int| #[trigger] wanted(j);
            &&& found matches Poll::Ready(Ok(Some(i))) ==> {
                &&& wanted(i)
                &&& forall|j: int| #[trigger]
                    wanted(j) ==> track.groups[i]->Some_0.0.info.sequence
                        <= track.groups[j]->Some_0.0.info.sequence
            }
            &&& (found matches Poll::Ready(Ok(Some(_)))) == any
            &&& !any && track.abort is Some ==> found == Poll::Ready(
                Err::<Option<int>, Error>(track.abort->Some_0),
            )
            &&& !any && track.abort is None ==> {
                let over = track.final_sequence is Some && next >= track.final_sequence->Some_0;
                let held_back = end is Some && end->Some_0 < next;
                found == if over && !held_back {
                    Poll::Ready(Ok::<Option<int>, Error>(None))
                } else {
                    Poll::Pending
                }
            }
        }),
{
    least_is_least(track.groups, track.groups.len(), next, end);
    let wanted = |j: int|
        0 <= j < track.groups.len() && track.groups[j] is Some && next
            <= track.groups[j]->Some_0.0.info.sequence && (end matches Some(end)
            ==> track.groups[j]->Some_0.0.info.sequence <= end);
    match least_in_range(track.groups, track.groups.len(), next, end) {
        Some(b) => {
            assert(wanted(b));
        },
        None => {
            assert forall|j: int| !#[trigger] wanted(j) by {}
        },
    }
}

/// Reading groups in arrival order skips nothing either: the next group is the first one that
/// arrived at or after the cursor and reaches the minimum, and where there is one it is given
/// out. Without one the reader learns of a clean end, else of an abort, and waits otherwise.
pub proof fn recv_group_skips_nothing(track: TrackModel, index: nat, min: u64)
    ensures
        ({
            let found = track.recv_group(index, min);
            let wanted = |j: int|
                0 <= j < track.groups.len() && track.offset + j >= index && track.groups[j] is Some
                    && track.groups[j]->Some_0.0.info.sequence >= min;
            let any = exists|j: int| #[trigger] wanted(j);
            &&& found matches Poll::Ready(Ok(Some(i))) ==> wanted(i) && forall|j: int| #[trigger]
                wanted(j) ==> i <= j
            &&& (found matches Poll::Ready(Ok(Some(_)))) == any
            &&& !any ==> ended(track, found)
        }),
{
    let start = local_index(index, track.offset);
    arrival_is_next(track.groups, start, min);
    let i = next_arrival(track.groups, start, min);
    let wanted = |j: int|
        0 <= j < track.groups.len() && track.offset + j >= index && track.groups[j] is Some
            && track.groups[j]->Some_0.0.info.sequence >= min;
    assert forall|j: int| #[trigger] wanted(j) implies i <= j by {
        assert(start <= j);
    }
    if i < track.groups.len() {
        if start > track.groups.len() {
            arrival_past_the_end(track.groups, start, min);
        }
        assert(wanted(i));
    }
}

proof fn arrival_past_the_end(slots: Slots, start: int, min: u64)
    requires
        start >= slots.len(),
    ensures
        next_arrival(slots, start, min) == slots.len(),
{
}

/// Whether a reader that has read everything is told what it should be: that the track finished,
/// else that it was aborted, and otherwise to wait.
pub open spec fn ended<T>(track: TrackModel, found: Poll<Result<Option<T>, Error>>) -> bool {
    &&& track.final_sequence is Some ==> found == Poll::Ready(Ok::<Option<T>, Error>(None))
    &&& track.final_sequence is None && track.abort is Some ==> found == Poll::Ready(
        Err::<Option<T>, Error>(track.abort->Some_0),
    )
    &&& track.final_sequence is None && track.abort is None ==> found is Pending
}

/// Datagrams are read in arrival order, each once; a reader that fell behind goes on with the
/// oldest that is left.
pub proof fn recv_datagram_skips_nothing(track: TrackModel, index: nat)
    ensures
        ({
            let found = track.recv_datagram(index);
            let place = if index <= track.datagram_offset {
                0
            } else {
                index - track.datagram_offset
            };
            &&& place < track.datagrams.len() ==> found == Poll::Ready(
                Ok::<Option<int>, Error>(Some(place)),
            )
            &&& place >= track.datagrams.len() ==> ended(track, found)
        }),
{
}

/// A group is found exactly if it is cached. One that cannot come any more is reported as such,
/// else an abort, and otherwise the reader waits for it.
pub proof fn cached_group_is_found(track: TrackModel, sequence: u64)
    ensures
        ({
            let found = track.get_group(sequence);
            let there = exists|i: int|
                0 <= i < track.groups.len() && (#[trigger] track.groups[i]) is Some
                    && track.groups[i]->Some_0.0.info.sequence == sequence;
            let over = track.final_sequence is Some && sequence >= track.final_sequence->Some_0;
            &&& found matches Poll::Ready(Ok(Some(i))) ==> 0 <= i < track.groups.len()
                && track.groups[i] is Some && track.groups[i]->Some_0.0.info.sequence == sequence
            &&& (found matches Poll::Ready(Ok(Some(_)))) == there
            &&& !there && over ==> found == Poll::Ready(Ok::<Option<int>, Error>(None))
            &&& !there && !over && track.abort is Some ==> found == Poll::Ready(
                Err::<Option<int>, Error>(track.abort->Some_0),
            )
            &&& !there && !over && track.abort is None ==> found is Pending
        }),
{
    if is_live(track.groups, sequence) {
        let i = choose|i: int| live_at(track.groups, i, sequence);
        assert(live_at(track.groups, i, sequence));
        assert(track.groups[i] is Some);
    }
    if exists|i: int|
        0 <= i < track.groups.len() && (#[trigger] track.groups[i]) is Some
            && track.groups[i]->Some_0.0.info.sequence == sequence {
        let i = choose|i: int|
            0 <= i < track.groups.len() && (#[trigger] track.groups[i]) is Some
                && track.groups[i]->Some_0.0.info.sequence == sequence;
        assert(live_at(track.groups, i, sequence));
    }
}

/// A fetch is answered from the cache where it can be. Otherwise it fails with the track's error,
/// with its own rejection, or because nobody can ever serve it, in this order; else it waits.
pub proof fn fetch_is_answered(track: TrackModel, sequence: u64, request: Option<u64>)
    ensures
        ({
            let found = track.fetch(sequence, request);
            let there = exists|i: int|
                0 <= i < track.groups.len() && (#[trigger] track.groups[i]) is Some
                    && track.groups[i]->Some_0.0.info.sequence == sequence;
            let rejected = request is Some && track.fetch_rejections.contains_key(
                request->Some_0,
            );
            let hopeless = track.dynamic == 0 || track.final_sequence is Some && sequence
                >= track.final_sequence->Some_0;
            &&& found matches Poll::Ready(Ok(i)) ==> 0 <= i < track.groups.len()
                && track.groups[i] is Some && track.groups[i]->Some_0.0.info.sequence == sequence
            &&& (found matches Poll::Ready(Ok(_))) == there
            &&& !there && track.abort is Some ==> found == Poll::Ready(
                Err::<int, Error>(track.abort->Some_0),
            )
            &&& !there && track.abort is None && rejected ==> found == Poll::Ready(
                Err::<int, Error>(track.fetch_rejections[request->Some_0]),
            )
            &&& !there && track.abort is None && !rejected && hopeless ==> found == Poll::Ready(
                Err::<int, Error>(Error::NotFound),
            )
            &&& !there && track.abort is None && !rejected && !hopeless ==> found is Pending
        }),
{
    cached_group_is_found(track, sequence);
}

/// A closed track leaves no reader waiting, and changes no answer that there is.
pub proof fn closed_track_answers<T>(track: TrackModel, poll: Poll<Result<T, Error>>)
    ensures
        !(poll is Pending) ==> track.or_closed(poll) == poll,
        poll is Pending && !track.closed ==> track.or_closed(poll) is Pending,
        poll is Pending && track.closed ==> track.or_closed(poll) == Poll::Ready(
            Err::<T, Error>(
                match track.abort {
                    Some(err) => err,
                    None => Error::Dropped,
                },
            ),
        ),
{
}

/// What is the matter with a slot to someone who reads first frames.
pub open spec fn first_frame(slots: Slots, i: int) -> Poll<Result<Option<Seq<u8>>, Error>> {
    read_frame(slots[i]->Some_0.0.group, 0, seq![]).0
}

proof fn scan_is_first(slots: Slots, start: int, min: u64)
    requires
        0 <= start,
    ensures
        ({
            let wanted = |j: int|
                start <= j < slots.len() && slots[j] is Some && slots[j]->Some_0.0.info.sequence
                    >= min;
            let quiet = |j: int|
                first_frame(slots, j) is Pending || first_frame(slots, j) == Poll::Ready(
                    Ok::<Option<Seq<u8>>, Error>(None),
                );
            match scan_frames(slots, start, min) {
                FrameScan::Found(payload, i) => {
                    &&& wanted(i)
                    &&& first_frame(slots, i) == Poll::Ready(
                        Ok::<Option<Seq<u8>>, Error>(Some(payload)),
                    )
                    &&& forall|j: int| #[trigger] wanted(j) && j < i ==> quiet(j)
                },
                FrameScan::Failed(err) => exists|i: int|
                    {
                        &&& #[trigger] wanted(i)
                        &&& first_frame(slots, i) == Poll::Ready(
                            Err::<Option<Seq<u8>>, Error>(err),
                        )
                        &&& forall|j: int| #[trigger] wanted(j) && j < i ==> quiet(j)
                    },
                FrameScan::Nothing(waiting) => {
                    &&& forall|j: int| #[trigger] wanted(j) ==> quiet(j)
                    &&& waiting <==> exists|j: int| #[trigger]
                        wanted(j) && first_frame(slots, j) is Pending
                },
            }
        }),
    decreases slots.len() - start,
{
    let wanted = |j: int|
        start <= j < slots.len() && slots[j] is Some && slots[j]->Some_0.0.info.sequence >= min;
    if start < slots.len() {
        scan_is_first(slots, start + 1, min);
        let later = |j: int|
            start + 1 <= j < slots.len() && slots[j] is Some && slots[j]->Some_0.0.info.sequence
                >= min;
        assert forall|j: int| #[trigger] later(j) implies wanted(j) by {}
        assert forall|j: int| #[trigger] wanted(j) && j != start implies later(j) by {}
        if wanted(start) {
            assert(slots[start] is Some);
        }
        match scan_frames(slots, start + 1, min) {
            FrameScan::Failed(err) => {
                let i = choose|i: int|
                    {
                        &&& #[trigger] later(i)
                        &&& first_frame(slots, i) == Poll::Ready(
                            Err::<Option<Seq<u8>>, Error>(err),
                        )
                        &&& forall|j: int| #[trigger] later(j) && j < i ==> (first_frame(slots, j)
                            is Pending || first_frame(slots, j) == Poll::Ready(
                            Ok::<Option<Seq<u8>>, Error>(None),
                        ))
                    };
                assert(wanted(i));
            },
            _ => {},
        }
    }
}

/// Reading first frames takes them in arrival order: a frame that is given out is the first of
/// its group, every group before it that reaches the minimum has none yet or ended without one,
/// and the failure of such a group is reported in its turn. Only once no group can get a first
/// frame any more is the end of the track reported.
pub proof fn read_frame_in_arrival_order(track: TrackModel, index: nat, min: u64)
    ensures
        ({
            let found = track.read_frame(index, min);
            let wanted = |j: int|
                0 <= j < track.groups.len() && track.offset + j >= index && track.groups[j] is Some
                    && track.groups[j]->Some_0.0.info.sequence >= min;
            let quiet = |j: int|
                first_frame(track.groups, j) is Pending || first_frame(track.groups, j)
                    == Poll::Ready(Ok::<Option<Seq<u8>>, Error>(None));
            let busy = exists|j: int| #[trigger] wanted(j) && !quiet(j);
            let waiting = exists|j: int| #[trigger]
                wanted(j) && first_frame(track.groups, j) is Pending;
            &&& found matches Poll::Ready(Ok(Some((payload, i)))) ==> {
                &&& wanted(i)
                &&& first_frame(track.groups, i) == Poll::Ready(
                    Ok::<Option<Seq<u8>>, Error>(Some(payload)),
                )
                &&& forall|j: int| #[trigger] wanted(j) && j < i ==> quiet(j)
            }
            &&& busy ==> found is Ready && !(found matches Poll::Ready(Ok(None)))
            &&& busy && (found matches Poll::Ready(Err(_))) ==> exists|i: int|
                {
                    &&& #[trigger] wanted(i)
                    &&& first_frame(track.groups, i) == Poll::Ready(
                        Err::<Option<Seq<u8>>, Error>(found->Ready_0->Err_0),
                    )
                    &&& forall|j: int| #[trigger] wanted(j) && j < i ==> quiet(j)
                }
            &&& !busy && waiting ==> found is Pending
            &&& !busy && !waiting ==> ended(track, found)
        }),
{
    let start = local_index(index, track.offset);
    scan_is_first(track.groups, start, min);
    let wanted = |j: int|
        0 <= j < track.groups.len() && track.offset + j >= index && track.groups[j] is Some
            && track.groups[j]->Some_0.0.info.sequence >= min;
    let reached = |j: int|
        start <= j < track.groups.len() && track.groups[j] is Some
            && track.groups[j]->Some_0.0.info.sequence >= min;
    assert forall|j: int| #[trigger] wanted(j) implies reached(j) by {}
    assert forall|j: int| #[trigger] reached(j) implies wanted(j) by {}
    match scan_frames(track.groups, start, min) {
        FrameScan::Failed(err) => {
            let i = choose|i: int|
                {
                    &&& #[trigger] reached(i)
                    &&& first_frame(track.groups, i) == Poll::Ready(
                        Err::<Option<Seq<u8>>, Error>(err),
                    )
                    &&& forall|j: int| #[trigger] reached(j) && j < i ==> (first_frame(
                        track.groups,
                        j,
                    ) is Pending || first_frame(track.groups, j) == Poll::Ready(
                        Ok::<Option<Seq<u8>>, Error>(None),
                    ))
                };
            assert(wanted(i));
        },
        FrameScan::Found(payload, i) => {
            assert(wanted(i));
        },
        FrameScan::Nothing(waiting) => {
            if waiting {
                let j = choose|j: int| #[trigger]
                    reached(j) && first_frame(track.groups, j) is Pending;
                assert(wanted(j));
            }
        },
    }
}

/// A group can be added exactly if the track is open, its sequence is below the end, and it is
/// not cached already; if not, that is what the caller is told, in this order.
pub proof fn open_track_takes_groups(track: TrackModel, sequence: u64)
    ensures
        ({
            let over = track.final_sequence is Some && sequence >= track.final_sequence->Some_0;
            let there = exists|i: int|
                0 <= i < track.groups.len() && (#[trigger] track.groups[i]) is Some
                    && track.groups[i]->Some_0.0.info.sequence == sequence;
            let why = match track.abort {
                Some(err) => err,
                None => Error::Dropped,
            };
            &&& track.create_error(sequence) == if track.closed {
                Some(why)
            } else if over {
                Some(Error::Closed)
            } else if there {
                Some(Error::Duplicate)
            } else {
                None
            }
            &&& track.accept_error(sequence) == if track.closed || track.abort is Some {
                Some(why)
            } else if over {
                Some(Error::Closed)
            } else if there {
                Some(Error::Duplicate)
            } else {
                None
            }
        }),
{
    cached_group_is_found(track, sequence);
}

/// What is appended gets the number after the highest one used, or zero, as long as the track is
/// open, has not ended before it, and numbers are left.
pub proof fn appending_counts_up(track: TrackModel)
    ensures
        ({
            let next = track.append_sequence();
            let number: int = match track.max_sequence {
                Some(max) => max + 1,
                None => 0,
            };
            let over = track.final_sequence is Some && number >= track.final_sequence->Some_0;
            &&& next matches Ok(sequence) ==> sequence == number
            &&& next is Ok <==> !track.closed && number <= u64::MAX && !over
            &&& track.closed ==> next == Err::<u64, Error>(
                match track.abort {
                    Some(err) => err,
                    None => Error::Dropped,
                },
            )
            &&& !track.closed && number > u64::MAX ==> (next matches Err(e)
                && e is BoundsExceeded)
            &&& !track.closed && number <= u64::MAX && over ==> next == Err::<u64, Error>(
                Error::Closed,
            )
        }),
{
}

proof fn swept_trim(slots: Slots)
    ensures
        leading(slots) <= slots.len(),
        forall|i: int| 0 <= i < leading(slots) ==> (#[trigger] slots[i]) is None,
        leading(slots) < slots.len() ==> slots[leading(slots) as int] is Some,
    decreases slots.len(),
{
    if slots.len() > 0 && slots[0] is None {
        let rest = slots.skip(1);
        swept_trim(rest);
        assert forall|i: int| 0 <= i < leading(slots) implies (#[trigger] slots[i]) is None by {
            if i > 0 {
                assert(rest[i - 1] is None);
            }
        }
        if leading(slots) < slots.len() {
            assert(rest[leading(rest) as int] == slots[leading(slots) as int]);
        }
    }
}

/// Eviction goes by age, from the front: a slot is emptied exactly if its group is not the newest
/// and is too old, and so is every other group that arrived before it but the newest. All else
/// stays in place as it was, under the same absolute number, and emptied slots in front are
/// dropped.
pub proof fn eviction_is_by_age(track: TrackModel, now: Instant, max_age: Duration, i: int)
    requires
        0 <= i < track.groups.len(),
    ensures
        ({
            let after = track.evicted(now, max_age);
            let newest = |j: int|
                track.max_sequence == Some(track.groups[j]->Some_0.0.info.sequence);
            let old = |j: int|
                now.nanos > track.groups[j]->Some_0.1.nanos + max_age.nanos;
            let takes = track.groups[i] is Some && !newest(i) && (forall|j: int|
                0 <= j <= i && (#[trigger] track.groups[j]) is Some ==> newest(j) || old(j));
            let place = track.offset + i - after.offset;
            &&& track.offset <= after.offset
            &&& track.offset + track.groups.len() == after.offset + after.groups.len()
            &&& takes && place >= 0 ==> after.groups[place] is None
            &&& !takes && track.groups[i] is Some ==> place >= 0 && after.groups[place]
                == track.groups[i]
            &&& !takes && track.groups[i] is None && place >= 0 ==> after.groups[place] is None
            &&& after.groups.len() > 0 ==> after.groups[0] is Some
        }),
{
    let expiry = Expiry { now, max_age, newest: track.max_sequence };
    let swept = expiry.swept(track.groups);
    swept_trim(swept);
    let after = track.evicted(now, max_age);
    let newest = |j: int| track.max_sequence == Some(track.groups[j]->Some_0.0.info.sequence);
    let old = |j: int| now.nanos > track.groups[j]->Some_0.1.nanos + max_age.nanos;
    assert forall|j: int| 0 <= j < track.groups.len() implies (expiry.guards(
        #[trigger] track.groups[j],
    ) <==> track.groups[j] is Some && !newest(j) && !old(j)) by {}
    let place = track.offset + i - after.offset;
    if place >= 0 {
        assert(after.groups[place] == swept[i]);
    } else {
        assert(swept[i] is None);
    }
    if after.groups.len() > 0 {
        assert(after.groups[0] == swept[leading(swept) as int]);
    }
}

proof fn gone_holds(expiry: Expiry, slots: Slots, n: nat)
    requires
        n <= slots.len(),
    ensures
        forall|i: int|
            0 <= i < n && expiry.evicts(slots, i) ==> exists|k: int|
                0 <= k < expiry.gone(slots, n).len() && #[trigger] expiry.gone(slots, n)[k].info
                    == (#[trigger] slots[i])->Some_0.0.info,
        forall|k: int|
            0 <= k < expiry.gone(slots, n).len() ==> exists|i: int|
                {
                    &&& 0 <= i < n
                    &&& (#[trigger] slots[i]) is Some
                    &&& slots[i]->Some_0.0.info == (#[trigger] expiry.gone(slots, n)[k]).info
                    &&& slots[i]->Some_0.0.group.closed ==> expiry.gone(slots, n)[k]
                        == slots[i]->Some_0.0
                    &&& !slots[i]->Some_0.0.group.closed ==> {
                        &&& expiry.gone(slots, n)[k].group.abort == Some(Error::Old)
                        &&& expiry.gone(slots, n)[k].group.closed
                        &&& expiry.gone(slots, n)[k].group.frames.len() == 0
                    }
                },
    decreases n,
{
    if n > 0 {
        let m = (n - 1) as nat;
        gone_holds(expiry, slots, m);
        let before = expiry.gone(slots, m);
        let after = expiry.gone(slots, n);
        assert forall|k: int| 0 <= k < before.len() implies after[k] == #[trigger] before[k] by {}
        assert forall|i: int| 0 <= i < n && expiry.evicts(slots, i) implies exists|k: int|
            0 <= k < after.len() && #[trigger] after[k].info == (
            #[trigger] slots[i])->Some_0.0.info by {
            if i < m {
                let k = choose|k: int|
                    0 <= k < before.len() && #[trigger] before[k].info == slots[i]->Some_0.0.info;
                assert(after[k] == before[k]);
            } else {
                assert(after[after.len() - 1].info == slots[i]->Some_0.0.info);
            }
        }
        assert forall|k: int| 0 <= k < after.len() implies exists|i: int|
            {
                &&& 0 <= i < n
                &&& (#[trigger] slots[i]) is Some
                &&& slots[i]->Some_0.0.info == (#[trigger] after[k]).info
                &&& slots[i]->Some_0.0.group.closed ==> after[k] == slots[i]->Some_0.0
                &&& !slots[i]->Some_0.0.group.closed ==> {
                    &&& after[k].group.abort == Some(Error::Old)
                    &&& after[k].group.closed
                    &&& after[k].group.frames.len() == 0
                }
            } by {
            if k < before.len() {
                assert(after[k] == before[k]);
                let i = choose|i: int|
                    {
                        &&& 0 <= i < m
                        &&& (#[trigger] slots[i]) is Some
                        &&& slots[i]->Some_0.0.info == before[k].info
                        &&& slots[i]->Some_0.0.group.closed ==> before[k] == slots[i]->Some_0.0
                        &&& !slots[i]->Some_0.0.group.closed ==> {
                            &&& before[k].group.abort == Some(Error::Old)
                            &&& before[k].group.closed
                            &&& before[k].group.frames.len() == 0
                        }
                    };
                assert(slots[i] is Some);
            } else {
                assert(slots[n - 1] is Some);
            }
        }
    }
}

/// A reader that is still in an evicted group is told: each group that leaves the cache for its
/// age is kept aside, failed as too old unless it was closed by then, and nothing else is.
pub proof fn evicted_groups_are_failed(track: TrackModel, now: Instant, max_age: Duration, i: int)
    requires
        0 <= i < track.groups.len(),
        track.groups[i] is Some,
        !is_live(
            track.evicted(now, max_age).groups,
            track.groups[i]->Some_0.0.info.sequence,
        ),
    ensures
        ({
            let after = track.evicted(now, max_age);
            let n = track.retired.len();
            &&& after.retired.take(n as int) == track.retired
            &&& exists|k: int|
                n <= k < after.retired.len() && (#[trigger] after.retired[k]).info
                    == track.groups[i]->Some_0.0.info
        }),
        forall|k: int|
            track.retired.len() <= k < track.evicted(now, max_age).retired.len() ==> {
                let gone = #[trigger] track.evicted(now, max_age).retired[k];
                exists|j: int|
                    {
                        &&& 0 <= j < track.groups.len()
                        &&& (#[trigger] track.groups[j]) is Some
                        &&& track.groups[j]->Some_0.0.info == gone.info
                        &&& track.groups[j]->Some_0.0.group.closed ==> gone
                            == track.groups[j]->Some_0.0
                        &&& !track.groups[j]->Some_0.0.group.closed ==> {
                            &&& gone.group.abort == Some(Error::Old)
                            &&& gone.group.closed
                            &&& gone.group.frames.len() == 0
                        }
                    }
            },
{
    let expiry = Expiry { now, max_age, newest: track.max_sequence };
    let gone = expiry.gone(track.groups, track.groups.len());
    let after = track.evicted(now, max_age);
    let n = track.retired.len();
    gone_holds(expiry, track.groups, track.groups.len());
    assert(after.retired.take(n as int) =~= track.retired);
    assert(expiry.evicts(track.groups, i)) by {
        if !expiry.evicts(track.groups, i) {
            let swept = expiry.swept(track.groups);
            assert(live_at(swept, i, track.groups[i]->Some_0.0.info.sequence));
            trimmed_is_live(swept, i, track.groups[i]->Some_0.0.info.sequence);
        }
    }
    let k = choose|k: int|
        0 <= k < gone.len() && #[trigger] gone[k].info == track.groups[i]->Some_0.0.info;
    assert(after.retired[n + k] == gone[k]);
    assert forall|k: int| n <= k < after.retired.len() implies #[trigger] after.retired[k]
        == gone[k - n] by {}
}

/// A new group is the last one, empty, with the track's properties, and from then on the highest
/// sequence is no lower than its own.
pub proof fn new_group_arrives_last(track: TrackModel, info: group::Info, now: Instant)
    requires
        track.info is Some,
    ensures
        ({
            let after = track.with_group(info, now);
            &&& after.groups.len() > 0
            &&& after.groups.last() matches Some((held, at)) && {
                &&& at == now
                &&& held.info == info
                &&& held.track == track.info->Some_0
                &&& held.group.frames.len() == 0
                &&& held.group.partial is None
                &&& held.group.offset == 0
                &&& !held.group.fin && !held.group.closed && held.group.abort is None
            }
            &&& after.offset + after.groups.len() == track.offset + track.groups.len() + 1
            &&& after.max_sequence matches Some(max) && {
                &&& max >= info.sequence
                &&& track.max_sequence matches Some(before) ==> max >= before
                &&& max == info.sequence || track.max_sequence == Some(max)
            }
            &&& after.final_sequence == track.final_sequence
            &&& after.abort == track.abort
            &&& after.closed == track.closed
            &&& after.datagrams == track.datagrams
            &&& after.subscriptions == track.subscriptions
            &&& after.consumers == track.consumers
        }),
{
    let held = Held {
        info,
        track: track.info->Some_0,
        group: group::empty_group(),
    };
    let grown = TrackModel {
        groups: track.groups.push(Some((held, now))),
        max_sequence: track.newest_with(info.sequence),
        ..track
    };
    let last = track.groups.len() as int;
    eviction_is_by_age(grown, now, track.info->Some_0.cache, last);
    let after = track.with_group(info, now);
    assert(grown.groups[last] == Some((held, now)));
    assert(now.nanos <= now.nanos + track.info->Some_0.cache.nanos);
    assert(after.groups[grown.offset + last - after.offset] == grown.groups[last]);
}

proof fn fresh_is_suffix(datagrams: Seq<(DatagramModel, Instant)>, now: Instant)
    ensures
        ({
            let kept = fresh_datagrams(datagrams, now);
            let dropped = datagrams.len() - kept.len();
            &&& 0 <= dropped
            &&& kept == datagrams.skip(dropped)
            &&& forall|i: int|
                0 <= i < dropped ==> now.nanos > (#[trigger] datagrams[i]).1.nanos + 50_000_000
            &&& kept.len() > 0 ==> now.nanos <= kept[0].1.nanos + 50_000_000
        }),
    decreases datagrams.len(),
{
    if datagrams.len() == 0 || now.since(datagrams[0].1).nanos <= 50_000_000 {
        assert(datagrams.skip(0) =~= datagrams);
    } else {
        let rest = datagrams.skip(1);
        fresh_is_suffix(rest, now);
        let kept = fresh_datagrams(datagrams, now);
        let dropped = datagrams.len() - kept.len();
        assert(rest.skip(dropped - 1) =~= datagrams.skip(dropped));
        assert forall|i: int| 0 <= i < dropped implies now.nanos > (
        #[trigger] datagrams[i]).1.nanos + 50_000_000 by {
            if i > 0 {
                assert(rest[i - 1] == datagrams[i]);
            }
        }
    }
}

/// A new datagram is the last one and is kept. Of those before it, only ones at the front that
/// are older than 50 milliseconds go, and the one that is then in front is not that old.
pub proof fn new_datagram_arrives_last(track: TrackModel, datagram: DatagramModel, now: Instant)
    ensures
        ({
            let after = track.with_datagram(datagram, now);
            let all = track.datagrams.push((datagram, now));
            let dropped = after.datagram_offset - track.datagram_offset;
            &&& 0 <= dropped < all.len()
            &&& after.datagrams == all.skip(dropped)
            &&& after.datagrams.last() == (datagram, now)
            &&& forall|i: int|
                0 <= i < dropped ==> now.nanos > (#[trigger] all[i]).1.nanos + 50_000_000
            &&& now.nanos <= after.datagrams[0].1.nanos + 50_000_000
            &&& after.max_sequence matches Some(max) && {
                &&& max >= datagram.sequence
                &&& track.max_sequence matches Some(before) ==> max >= before
                &&& max == datagram.sequence || track.max_sequence == Some(max)
            }
            &&& after.groups == track.groups
        }),
{
    let all = track.datagrams.push((datagram, now));
    fresh_is_suffix(all, now);
    let kept = fresh_datagrams(all, now);
    if kept.len() == 0 {
        assert(now.nanos > all[all.len() - 1].1.nanos + 50_000_000);
    }
    assert(kept.last() == all.last());
}

/// A datagram is taken exactly if it fits, the track is open, and its timestamp fits the track's
/// scale.
pub proof fn open_track_takes_datagrams(
    track: TrackModel,
    timestamp: Timestamp,
    payload: Seq<u8>,
)
    requires
        track.info is Some,
    ensures
        ({
            let r = track.datagram_timestamp(timestamp, payload);
            let scaled = timestamp.spec_convert(track.info->Some_0.timescale);
            &&& r is Ok <==> payload.len() <= 1200 && !track.closed && scaled is Ok
            &&& r matches Ok(at) ==> scaled == Ok::<Timestamp, TimeOverflow>(at)
            &&& payload.len() > 1200 ==> r == Err::<Timestamp, Error>(Error::WrongSize)
            &&& payload.len() <= 1200 && track.closed ==> r == Err::<Timestamp, Error>(
                match track.abort {
                    Some(err) => err,
                    None => Error::Dropped,
                },
            )
            &&& payload.len() <= 1200 && !track.closed && scaled is Err ==> r == Err::<
                Timestamp,
                Error,
            >(Error::TimestampMismatch)
        }),
{
}

/// A subscriber counts for as long as it is there, with the preferences it gave last: it joins
/// under a new number, changing its mind affects no other, and once it leaves the track is asked
/// for what it was before.
pub proof fn subscribers_come_and_go(
    track: TrackModel,
    subscription: Subscription,
    changed: Subscription,
)
    requires
        track.subscription_ids.len() == track.subscriptions.len(),
        track.next_subscription < u64::MAX,
        !track.subscription_ids.contains(track.next_subscription),
    ensures
        ({
            let id = track.next_subscription;
            let joined = track.subscribed(subscription);
            let moved = joined.resubscribed(id, changed);
            let left = moved.unsubscribed(id);
            &&& joined.subscription_ids == track.subscription_ids.push(id)
            &&& joined.subscriptions == track.subscriptions.push(subscription)
            &&& joined.next_subscription == id + 1
            &&& joined.demand() matches Some(all) && covers(all, subscription)
            &&& moved.subscription_ids == joined.subscription_ids
            &&& moved.subscriptions == track.subscriptions.push(changed)
            &&& moved.demand() matches Some(all) && covers(all, changed)
            &&& left.subscription_ids == track.subscription_ids
            &&& left.subscriptions == track.subscriptions
            &&& left.demand() == track.demand()
            &&& left == (TrackModel { next_subscription: left.next_subscription, ..track })
        }),
{
    let id = track.next_subscription;
    let n = track.subscription_ids.len() as int;
    let joined = track.subscribed(subscription);
    assert(joined.subscription_ids[n] == id);
    assert(joined.subscription_ids.contains(id));
    assert(joined.subscription_ids.index_of(id) == n) by {
        let i = joined.subscription_ids.index_of(id);
        if i < n {
            assert(track.subscription_ids[i] == id);
        }
    }
    let moved = joined.resubscribed(id, changed);
    assert(moved.subscriptions =~= track.subscriptions.push(changed));
    aggregate_covers_all(joined.subscriptions);
    aggregate_covers_all(moved.subscriptions);
    assert(joined.subscriptions[n] == subscription);
    assert(moved.subscriptions[n] == changed);
    let left = moved.unsubscribed(id);
    assert(left.subscription_ids =~= track.subscription_ids);
    assert(left.subscriptions =~= track.subscriptions);
}

/// Changing or ending one subscription leaves the others alone.
pub proof fn subscribers_are_apart(
    track: TrackModel,
    id: u64,
    changed: Subscription,
    other: int,
)
    requires
        track.subscription_ids.len() == track.subscriptions.len(),
        track.subscription_ids.no_duplicates(),
        0 <= other < track.subscription_ids.len(),
        track.subscription_ids[other] != id,
    ensures
        ({
            let moved = track.resubscribed(id, changed);
            let left = track.unsubscribed(id);
            let name = track.subscription_ids[other];
            &&& moved.subscription_ids == track.subscription_ids
            &&& moved.subscriptions[other] == track.subscriptions[other]
            &&& !left.subscription_ids.contains(id)
            &&& left.subscription_ids.contains(name)
            &&& left.subscriptions[left.subscription_ids.index_of(name)]
                == track.subscriptions[other]
        }),
{
    let name = track.subscription_ids[other];
    let left = track.unsubscribed(id);
    if track.subscription_ids.contains(id) {
        let i = track.subscription_ids.index_of(id);
        let ids = left.subscription_ids;
        let at = if other < i {
            other
        } else {
            other - 1
        };
        assert(ids[at] == name);
        assert(ids.contains(name));
        let found = ids.index_of(name);
        assert(track.subscription_ids[if found < i {
            found
        } else {
            found + 1
        }] == name);
        assert(found == at);
        if ids.contains(id) {
            let k = ids.index_of(id);
            assert(track.subscription_ids[if k < i {
                k
            } else {
                k + 1
            }] == id);
        }
    } else {
        let found = track.subscription_ids.index_of(name);
        assert(track.subscription_ids.contains(name));
        assert(found == other);
    }
}

/// A fetch is queued behind those before it, under a number of its own.
pub proof fn fetches_queue_up(track: TrackModel, sequence: u64, priority: u8)
    ensures
        ({
            let after = track.requested(sequence, priority);
            &&& after.fetches == track.fetches.push(
                (GroupRequested { id: track.next_fetch, sequence, priority }),
            )
            &&& after.next_fetch != track.next_fetch
            &&& track.next_fetch < u64::MAX ==> after.next_fetch == track.next_fetch + 1
            &&& after.groups == track.groups
            &&& after.fetch_rejections == track.fetch_rejections
        }),
{
}

proof fn cached_holds(slots: Slots, i: int)
    requires
        0 <= i < slots.len(),
        slots[i] is Some,
    ensures
        cached(slots).contains(slots[i]->Some_0.0),
    decreases slots.len(),
{
    let less = slots.drop_last();
    let all = cached(slots);
    if i < less.len() {
        cached_holds(less, i);
        let k = cached(less).index_of(less[i]->Some_0.0);
        assert(all[k] == cached(less)[k]);
    } else {
        assert(all[all.len() - 1] == slots[i]->Some_0.0);
    }
}

/// An aborted track frees its groups and datagrams, but each group stays at hand for those who
/// still read it. A track whose writer is gone does the same, unless it was finished.
pub proof fn abort_frees_the_track(track: TrackModel, err: Error, i: int)
    requires
        0 <= i < track.groups.len(),
        track.groups[i] is Some,
    ensures
        ({
            let gone = track.aborted(err);
            &&& gone.groups.len() == 0
            &&& gone.datagrams.len() == 0
            &&& gone.abort == Some(err)
            &&& gone.closed
            &&& gone.retired.contains(track.groups[i]->Some_0.0)
            &&& gone.subscriptions == track.subscriptions
            &&& gone.final_sequence == track.final_sequence
            &&& gone.max_sequence == track.max_sequence
        }),
        ({
            let left = track.dropped();
            &&& left.closed
            &&& left.abort == track.abort
            &&& !track.closed && track.final_sequence is None ==> left.groups.len() == 0
                && left.datagrams.len() == 0 && left.retired.contains(
                track.groups[i]->Some_0.0,
            )
            &&& track.closed || track.final_sequence is Some ==> left.groups == track.groups
                && left.datagrams == track.datagrams && left.retired == track.retired
        }),
{
    cached_holds(track.groups, i);
    let all = cached(track.groups);
    let k = all.index_of(track.groups[i]->Some_0.0);
    let both = track.retired + all;
    assert(both[track.retired.len() + k] == track.groups[i]->Some_0.0);
}

/// Whether a track is over is told as it is: finished ahead of aborted.
pub proof fn end_of_track_is_told(track: TrackModel)
    ensures
        track.final_sequence matches Some(fin) ==> {
            &&& track.poll_closed() == Poll::Ready(Ok::<(), Error>(()))
            &&& track.finished() == Poll::Ready(Ok::<u64, Error>(fin))
        },
        track.final_sequence is None ==> match track.abort {
            Some(err) => {
                &&& track.poll_closed() == Poll::Ready(Err::<(), Error>(err))
                &&& track.finished() == Poll::Ready(Err::<u64, Error>(err))
            },
            None => track.poll_closed() is Pending && track.finished() is Pending,
        },
{
}

/// Replacing the group in one slot leaves every other slot, and when it arrived, as they were.
pub proof fn slots_are_apart(track: TrackModel, i: int, held: Held, j: int)
    requires
        0 <= i < track.groups.len(),
        track.groups[i] is Some,
        0 <= j < track.groups.len(),
    ensures
        ({
            let after = track.with_slot(i, held);
            &&& after.groups.len() == track.groups.len()
            &&& after.groups[i] == Some((held, track.groups[i]->Some_0.1))
            &&& j != i ==> after.groups[j] == track.groups[j]
            &&& after.offset == track.offset
            &&& after.max_sequence == track.max_sequence
        }),
{
}

/// The first rejection of a fetch counts, and a closed track takes none.
pub proof fn first_rejection_counts(track: TrackModel, id: u64, err: Error, other: u64)
    ensures
        ({
            let after = track.rejected(id, err);
            &&& track.closed || track.fetch_rejections.contains_key(id) ==> after == track
            &&& !track.closed && !track.fetch_rejections.contains_key(id) ==> {
                &&& after.fetch_rejections.contains_key(id)
                &&& after.fetch_rejections[id] == err
            }
            &&& other != id ==> (after.fetch_rejections.contains_key(other)
                <==> track.fetch_rejections.contains_key(other))
            &&& after.groups == track.groups
            &&& after.fetches == track.fetches
        }),
{
}

/// A track starts out open and empty.
pub proof fn track_starts_empty(info: Option<crate::model::track::Info>)
    ensures
        ({
            let track = TrackModel::empty(info);
            &&& track.info == info
            &&& track.groups.len() == 0
            &&& track.offset == 0
            &&& track.datagrams.len() == 0
            &&& track.datagram_offset == 0
            &&& track.max_sequence is None
            &&& track.final_sequence is None
            &&& track.abort is None
            &&& track.subscriptions.len() == 0
            &&& track.subscription_ids.len() == 0
            &&& track.next_subscription == 0
            &&& track.fetches.len() == 0
            &&& track.next_fetch == 0
            &&& track.fetch_rejections == Map::<u64, Error>::empty()
            &&& track.dynamic == 0
            &&& track.consumers == 0
            &&& track.retired.len() == 0
            &&& !track.closed
        }),
{
}

/// Forgetting a group that left the cache forgets that one and no other.
pub proof fn forgetting_is_private(track: TrackModel, sequence: u64, held: Held)
    ensures
        track.forgotten(sequence).retired.contains(held) <==> track.retired.contains(held)
            && held.info.sequence != sequence,
        track.forgotten(sequence).groups == track.groups,
    decreases track.retired.len(),
{
    reveal(Seq::filter);
    let all = track.retired;
    let kept = track.forgotten(sequence).retired;
    if all.len() > 0 {
        let less = TrackModel { retired: all.drop_last(), ..track };
        forgetting_is_private(less, sequence, held);
        let before = less.forgotten(sequence).retired;
        let last = all.last();
        assert(all =~= less.retired.push(last));
        if all.contains(held) {
            let k = all.index_of(held);
            if k < less.retired.len() {
                assert(less.retired[k] == held);
            }
        }
        if less.retired.contains(held) {
            assert(all[less.retired.index_of(held)] == held);
        }
        assert(all[all.len() - 1] == last);
        if last.info.sequence != sequence {
            assert(kept == before.push(last));
            assert(kept[before.len() as int] == last);
            if before.contains(held) {
                assert(kept[before.index_of(held)] == held);
            }
            if kept.contains(held) {
                let k = kept.index_of(held);
                if k < before.len() {
                    assert(before[k] == held);
                }
            }
        } else {
            assert(kept == before);
        }
    }
}

} // verus!
