//! Reading a track.

use vstd::prelude::*;

use crate::error::Error;
use crate::model::datagram::Datagram;
use crate::model::group;
use crate::model::subscription::Subscription;
use crate::model::track::info::Info;
use crate::model::track::model::{slot_of, TrackModel};
use crate::model::track::state::{reads, TrackState};
use crate::poll::Poll;

verus! {

/// The sequence after `sequence`, as far as there is one.
pub open spec fn after(sequence: u64) -> u64 {
    if sequence == u64::MAX {
        u64::MAX
    } else {
        (sequence + 1) as u64
    }
}

fn sequence_after(sequence: u64) -> (r: u64)
    ensures
        r == after(sequence),
{
    if sequence == u64::MAX {
        sequence
    } else {
        sequence + 1
    }
}

/// The higher of two sequences.
pub open spec fn highest(a: u64, b: u64) -> u64 {
    if a >= b {
        a
    } else {
        b
    }
}

fn higher(a: u64, b: u64) -> (r: u64)
    ensures
        r == highest(a, b),
{
    if a >= b {
        a
    } else {
        b
    }
}

/// A live subscription to a track, used to read its groups: a set of cursors into the
/// track's state, which is handed to every call.
///
/// Carries this subscriber's [`Subscription`] preferences, which feed the producer's
/// aggregate.
pub struct Subscriber {
    /// The track's name.
    pub name: String,
    /// The track's properties.
    pub info: Info,
    /// Which track this reads.
    pub channel: u64,
    /// The number of this subscriber, unless the track was closed when it was opened.
    pub id: Option<u64>,
    /// This subscriber's current preferences.
    pub subscription: Subscription,
    /// Arrival-order cursor used by [`Self::poll_recv_group`].
    pub index: usize,
    /// Arrival-order cursor used by [`Self::poll_recv_datagram`], independent of groups.
    pub datagram_index: usize,
    /// Minimum sequence to return from any `recv` method. Set by [`Self::start_at`].
    pub min_sequence: u64,
    /// One past the highest sequence returned by [`Self::poll_next_group`]. Used only by
    /// that method to skip late arrivals; does not affect [`Self::poll_recv_group`].
    pub next_sequence: u64,
    /// Inclusive upper sequence bound for [`Self::poll_next_group`]. `None` means no cap.
    /// Groups beyond the cap stay in the producer's cache and become eligible again when the
    /// cap rises (or is removed).
    pub end_sequence: Option<u64>,
}

impl Subscriber {
    /// Whether this is a subscriber that has read nothing.
    pub open spec fn fresh(&self) -> bool {
        &&& self.index == 0
        &&& self.datagram_index == 0
        &&& self.min_sequence == 0
        &&& self.next_sequence == 0
        &&& self.end_sequence is None
    }

    /// A subscriber that has read nothing.
    pub(super) fn new(
        name: String,
        info: Info,
        channel: u64,
        id: Option<u64>,
        subscription: Subscription,
    ) -> (r: Subscriber)
        ensures
            r.fresh(),
            r.name == name,
            r.info == info,
            r.channel == channel,
            r.id == id,
            r.subscription == subscription,
    {
        Subscriber {
            name,
            info,
            channel,
            id,
            subscription,
            index: 0,
            datagram_index: 0,
            min_sequence: 0,
            next_sequence: 0,
            end_sequence: None,
        }
    }

    /// The track's properties.
    pub fn info(&self) -> (r: &Info)
        ensures
            *r == self.info,
    {
        &self.info
    }

    /// The track's name.
    pub fn name(&self) -> (r: &String)
        ensures
            *r == self.name,
    {
        &self.name
    }

    /// Poll for the next group in arrival order, without blocking.
    ///
    /// Returns every group exactly once in the order it landed on the wire, which may be out
    /// of sequence due to network reordering or loss. Use [`Self::poll_next_group`] if you
    /// only want groups whose sequence number is higher than any previously returned.
    ///
    /// Returns a group when one is available, `None` when the track is finished, an error
    /// when the track has been aborted, or `Pending` when no group is available yet.
    pub fn poll_recv_group(&mut self, track: &TrackState) -> (r: Poll<
        Result<Option<group::Consumer>, Error>,
    >)
        requires
            track.well_formed(),
        ensures
            ({
                let found = track@.or_closed(
                    track@.recv_group(old(self).index as nat, old(self).min_sequence),
                );
                match found {
                    Poll::Ready(Ok(Some(i))) => {
                        &&& r matches Poll::Ready(Ok(Some(reader))) && reads(
                            reader,
                            track@.groups[i]->Some_0.0,
                        )
                        &&& *final(self) == (Subscriber {
                            index: (track@.offset + i + 1) as usize,
                            ..*old(self)
                        })
                    },
                    Poll::Ready(Ok(None)) => (r matches Poll::Ready(Ok(None))) && *final(self)
                        == *old(self),
                    Poll::Ready(Err(err)) => (r matches Poll::Ready(Err(e)) && e == err)
                        && *final(self) == *old(self),
                    Poll::Pending => r is Pending && *final(self) == *old(self),
                }
            }),
    {
        match track.poll_recv_group(self.index, self.min_sequence) {
            Poll::Ready(Ok(Some((consumer, found)))) => {
                self.index = found + 1;
                Poll::Ready(Ok(Some(consumer)))
            },
            Poll::Ready(Ok(None)) => Poll::Ready(Ok(None)),
            Poll::Ready(Err(err)) => Poll::Ready(Err(err)),
            Poll::Pending => if track.closed {
                Poll::Ready(Err(track.close_error()))
            } else {
                Poll::Pending
            },
        }
    }

    /// Poll for the next datagram in arrival order, without blocking.
    ///
    /// Datagrams are a separate best-effort channel from groups; they share only the sequence
    /// namespace. A consumer that falls too far behind silently loses the oldest datagrams.
    /// Returning a datagram advances [`Self::poll_next_group`] past that sequence.
    pub fn poll_recv_datagram(&mut self, track: &TrackState) -> (r: Poll<
        Result<Option<Datagram>, Error>,
    >)
        requires
            track.well_formed(),
        ensures
            ({
                let found = track@.or_closed(
                    track@.recv_datagram(old(self).datagram_index as nat),
                );
                match found {
                    Poll::Ready(Ok(Some(i))) => {
                        &&& r matches Poll::Ready(Ok(Some(datagram))) && datagram@
                            == track@.datagrams[i].0
                        &&& *final(self) == (Subscriber {
                            datagram_index: (track@.datagram_offset + i + 1) as usize,
                            next_sequence: highest(
                                old(self).next_sequence,
                                after(track@.datagrams[i].0.sequence),
                            ),
                            ..*old(self)
                        })
                    },
                    Poll::Ready(Ok(None)) => (r matches Poll::Ready(Ok(None))) && *final(self)
                        == *old(self),
                    Poll::Ready(Err(err)) => (r matches Poll::Ready(Err(e)) && e == err)
                        && *final(self) == *old(self),
                    Poll::Pending => r is Pending && *final(self) == *old(self),
                }
            }),
    {
        match track.poll_recv_datagram(self.datagram_index) {
            Poll::Ready(Ok(Some((datagram, found)))) => {
                self.datagram_index = found + 1;
                self.next_sequence = higher(self.next_sequence, sequence_after(datagram.sequence));
                Poll::Ready(Ok(Some(datagram)))
            },
            Poll::Ready(Ok(None)) => Poll::Ready(Ok(None)),
            Poll::Ready(Err(err)) => Poll::Ready(Err(err)),
            Poll::Pending => if track.closed {
                Poll::Ready(Err(track.close_error()))
            } else {
                Poll::Pending
            },
        }
    }

    /// Poll for the next group with a higher sequence number than any previously returned.
    ///
    /// Late arrivals (sequence at or below the last returned) are silently skipped, so this
    /// produces a monotonically increasing sequence at the cost of dropping out-of-order
    /// groups. Use [`Self::poll_recv_group`] to see every group in arrival order instead.
    ///
    /// Honors the cap set by [`Self::end_at`]: groups with sequence past the cap are left in
    /// the producer's cache and become eligible again if the cap is raised or removed.
    pub fn poll_next_group(&mut self, track: &TrackState) -> (r: Poll<
        Result<Option<group::Consumer>, Error>,
    >)
        requires
            track.well_formed(),
        ensures
            ({
                let floor = highest(old(self).next_sequence, old(self).min_sequence);
                let found = track@.or_closed(track@.next_in_range(floor, old(self).end_sequence));
                match found {
                    Poll::Ready(Ok(Some(i))) => {
                        &&& r matches Poll::Ready(Ok(Some(reader))) && reads(
                            reader,
                            track@.groups[i]->Some_0.0,
                        )
                        &&& *final(self) == (Subscriber {
                            next_sequence: after(track@.groups[i]->Some_0.0.info.sequence),
                            ..*old(self)
                        })
                    },
                    Poll::Ready(Ok(None)) => (r matches Poll::Ready(Ok(None))) && *final(self)
                        == *old(self),
                    Poll::Ready(Err(err)) => (r matches Poll::Ready(Err(e)) && e == err)
                        && *final(self) == *old(self),
                    Poll::Pending => r is Pending && *final(self) == *old(self),
                }
            }),
    {
        let floor: u64 = higher(self.next_sequence, self.min_sequence);
        match track.poll_next_in_range(floor, self.end_sequence) {
            Poll::Ready(Ok(Some(group))) => {
                self.next_sequence = sequence_after(group.info.sequence);
                Poll::Ready(Ok(Some(group)))
            },
            Poll::Ready(Ok(None)) => Poll::Ready(Ok(None)),
            Poll::Ready(Err(err)) => Poll::Ready(Err(err)),
            Poll::Pending => if track.closed {
                Poll::Ready(Err(track.close_error()))
            } else {
                Poll::Pending
            },
        }
    }

    /// Poll for the first frame of the next group that has one, skipping the rest of that
    /// group. Intended for single-frame groups.
    pub fn poll_read_frame(&mut self, track: &TrackState) -> (r: Poll<
        Result<Option<Vec<u8>>, Error>,
    >)
        requires
            track.well_formed(),
        ensures
            ({
                let lower = highest(old(self).min_sequence, old(self).next_sequence);
                let found = track@.or_closed(track@.read_frame(old(self).index as nat, lower));
                match found {
                    Poll::Ready(Ok(Some((payload, i)))) => {
                        &&& r matches Poll::Ready(Ok(Some(frame))) && frame@ == payload
                        &&& *final(self) == (Subscriber {
                            index: (track@.offset + i + 1) as usize,
                            next_sequence: after(track@.groups[i]->Some_0.0.info.sequence),
                            ..*old(self)
                        })
                    },
                    Poll::Ready(Ok(None)) => (r matches Poll::Ready(Ok(None))) && *final(self)
                        == *old(self),
                    Poll::Ready(Err(err)) => (r matches Poll::Ready(Err(e)) && e == err)
                        && *final(self) == *old(self),
                    Poll::Pending => r is Pending && *final(self) == *old(self),
                }
            }),
    {
        let lower: u64 = higher(self.min_sequence, self.next_sequence);
        match track.poll_read_frame(self.index, lower) {
            Poll::Ready(Ok(Some((frame, found, sequence)))) => {
                self.index = found + 1;
                self.next_sequence = sequence_after(sequence);
                Poll::Ready(Ok(Some(frame)))
            },
            Poll::Ready(Ok(None)) => Poll::Ready(Ok(None)),
            Poll::Ready(Err(err)) => Poll::Ready(Err(err)),
            Poll::Pending => if track.closed {
                Poll::Ready(Err(track.close_error()))
            } else {
                Poll::Pending
            },
        }
    }

    /// Poll for the group with the given sequence.
    ///
    /// This waits for live arrival, not on-demand retrieval. If the sequence is below the
    /// final sequence but was already evicted from the cache, this parks until the track
    /// closes. Use [`Consumer::fetch_group`] for a past group that can be served on demand.
    pub fn poll_get_group(&self, track: &TrackState, sequence: u64) -> (r: Poll<
        Result<Option<group::Consumer>, Error>,
    >)
        requires
            track.well_formed(),
        ensures
            match track@.or_closed(track@.get_group(sequence)) {
                Poll::Ready(Ok(Some(i))) => r matches Poll::Ready(Ok(Some(reader))) && reads(
                    reader,
                    track@.groups[i]->Some_0.0,
                ),
                Poll::Ready(Ok(None)) => r matches Poll::Ready(Ok(None)),
                Poll::Ready(Err(err)) => r matches Poll::Ready(Err(e)) && e == err,
                Poll::Pending => r is Pending,
            },
    {
        match track.poll_get_group(sequence) {
            Poll::Pending => if track.closed {
                Poll::Ready(Err(track.close_error()))
            } else {
                Poll::Pending
            },
            found => found,
        }
    }

    /// Poll for track closure, without blocking: `Ok` if the track was cleanly finished.
    pub fn poll_closed(&self, track: &TrackState) -> (r: Poll<Result<(), Error>>)
        ensures
            r == track@.or_closed(track@.poll_closed()),
    {
        match track.poll_closed() {
            Poll::Pending => if track.closed {
                Poll::Ready(Err(track.close_error()))
            } else {
                Poll::Pending
            },
            found => found,
        }
    }

    /// Poll for the total number of groups in the track.
    pub fn poll_finished(&self, track: &TrackState) -> (r: Poll<Result<u64, Error>>)
        ensures
            r == track@.or_closed(track@.finished()),
    {
        match track.poll_finished() {
            Poll::Pending => if track.closed {
                Poll::Ready(Err(track.close_error()))
            } else {
                Poll::Pending
            },
            found => found,
        }
    }

    /// Whether `other` reads the same track.
    pub fn is_clone(&self, other: &Subscriber) -> (r: bool)
        ensures
            r == (self.channel == other.channel),
    {
        self.channel == other.channel
    }

    /// Start the consumer at the specified sequence.
    pub fn start_at(&mut self, sequence: u64)
        ensures
            *final(self) == (Subscriber { min_sequence: sequence, ..*old(self) }),
    {
        self.min_sequence = sequence;
    }

    /// Cap the consumer at the specified sequence (inclusive), or remove the cap entirely.
    ///
    /// Affects [`Self::poll_next_group`] only: groups beyond the cap stay in the producer's
    /// cache rather than being skipped past, so a later call with a higher value (or `None`)
    /// makes them available again. Lowering the cap below the consumer's current cursor
    /// parks the consumer until the cap is raised.
    pub fn end_at(&mut self, sequence: Option<u64>)
        ensures
            *final(self) == (Subscriber { end_sequence: sequence, ..*old(self) }),
    {
        self.end_sequence = sequence;
    }

    /// This subscriber's current preferences.
    pub fn subscription(&self) -> (r: Subscription)
        ensures
            r == self.subscription,
    {
        self.subscription
    }

    /// Replace this subscriber's preferences, updating the producer's aggregate.
    pub fn update(&mut self, track: &mut TrackState, subscription: Subscription)
        requires
            old(track).well_formed(),
        ensures
            final(track).well_formed(),
            *final(self) == (Subscriber { subscription, ..*old(self) }),
            final(track)@ == match old(self).id {
                Some(id) => old(track)@.resubscribed(id, subscription),
                None => old(track)@,
            },
    {
        self.subscription = subscription;
        match self.id {
            Some(id) => track.resubscribe(id, subscription),
            None => {},
        }
    }

    /// End the subscription: it leaves the producer's aggregate.
    pub fn close(self, track: &mut TrackState)
        requires
            old(track).well_formed(),
            old(track).consumers > 0,
        ensures
            final(track).well_formed(),
            final(track)@ == (TrackModel {
                consumers: (old(track)@.consumers - 1) as nat,
                ..match self.id {
                    Some(id) => old(track)@.unsubscribed(id),
                    None => old(track)@,
                }
            }),
    {
        match self.id {
            Some(id) => track.unsubscribe(id),
            None => {},
        }
        track.remove_consumer();
    }

    /// Return the latest sequence number in the track.
    pub fn latest(&self, track: &TrackState) -> (r: Option<u64>)
        ensures
            r == track@.max_sequence,
    {
        track.max_sequence
    }
}

/// A handle to a single track within a broadcast.
///
/// Holding it sends nothing to the publisher; it just names a track you can
/// [`subscribe`](Self::subscribe) to (a live, ongoing stream of groups) later. The same
/// handle can be subscribed to multiple times.
pub struct Consumer {
    /// The track's name.
    pub name: String,
    /// Which track this reads.
    pub channel: u64,
}

impl Consumer {
    /// The track name this handle is bound to.
    pub fn name(&self) -> (r: &String)
        ensures
            *r == self.name,
    {
        &self.name
    }

    /// Open a live subscription.
    ///
    /// Registers the subscription on the track and returns a [`Subscribe`] that resolves to
    /// the [`Subscriber`] once the track info is available, or the track's abort error (or
    /// [`Error::Dropped`]) if it is already closed. It counts as a reader until it is closed.
    pub fn subscribe(&self, track: &mut TrackState, subscription: Option<Subscription>) -> (r:
        Subscribe)
        requires
            old(track).well_formed(),
            old(track).next_subscription < u64::MAX,
            old(track).consumers < usize::MAX,
        ensures
            final(track).well_formed(),
            r.name == self.name,
            r.channel == self.channel,
            !r.resolved,
            r.subscription == match subscription {
                Some(subscription) => subscription,
                None => Subscription::spec_default(),
            },
            r.id == if old(track)@.closed {
                None
            } else {
                Some(old(track)@.next_subscription)
            },
            final(track)@ == (TrackModel {
                consumers: old(track)@.consumers + 1,
                ..if old(track)@.closed {
                    old(track)@
                } else {
                    old(track)@.subscribed(r.subscription)
                }
            }),
    {
        let subscription: Subscription = match subscription {
            Some(subscription) => subscription,
            None => Subscription::default(),
        };
        let id: Option<u64> = if track.closed {
            None
        } else {
            Some(track.subscribe(subscription))
        };
        track.add_consumer();
        Subscribe {
            name: self.name.clone(),
            channel: self.channel,
            id,
            subscription,
            resolved: false,
        }
    }

    /// Return a cached group by sequence without blocking, or `None` if it isn't in the
    /// cache. Use [`Self::fetch_group`] to wait for a group that is served on demand.
    pub fn get_group(&self, track: &TrackState, sequence: u64) -> (r: Option<group::Consumer>)
        requires
            track.well_formed(),
        ensures
            match slot_of(track@.groups, sequence) {
                Some(i) => r matches Some(reader) && reads(reader, track@.groups[i]->Some_0.0),
                None => r is None,
            },
    {
        track.cached_group(sequence)
    }

    /// Fetch a single past group, without holding a live subscription.
    ///
    /// Returns a [`Fetch`] that resolves to the group: immediately if the group is cached,
    /// otherwise once a [`super::Dynamic`] serves the request. It resolves to
    /// [`Error::NotFound`] when the group can never be served (past the final sequence, or no
    /// handler on the track), or the track's abort error if it's already closed. It counts as a
    /// reader until it is released.
    pub fn fetch_group(&self, track: &mut TrackState, sequence: u64, options: group::Fetch) -> (r:
        Fetch)
        requires
            old(track).well_formed(),
            old(track).consumers < usize::MAX,
        ensures
            final(track).well_formed(),
            r.sequence == sequence,
            ({
                let reading = TrackModel { consumers: old(track)@.consumers + 1, ..old(track)@ };
                if !old(track)@.closed && old(track)@.fetch(sequence, None) is Pending {
                    &&& r.request_id == Some(old(track)@.next_fetch)
                    &&& final(track)@ == reading.requested(sequence, options.priority)
                } else {
                    &&& r.request_id is None
                    &&& final(track)@ == reading
                }
            }),
    {
        let request_id: Option<u64> = track.request_group(sequence, options.priority);
        track.add_consumer();
        Fetch { sequence, request_id }
    }

    /// Ask for the track's properties. The query counts as a reader until it is released.
    pub fn info(&self, track: &mut TrackState) -> (r: InfoQuery)
        requires
            old(track).well_formed(),
            old(track).consumers < usize::MAX,
        ensures
            final(track).well_formed(),
            r.channel == self.channel,
            final(track)@ == (TrackModel { consumers: old(track)@.consumers + 1, ..old(track)@ }),
    {
        track.add_consumer();
        InfoQuery { channel: self.channel }
    }

    /// Give the handle up.
    pub fn release(self, track: &mut TrackState)
        requires
            old(track).well_formed(),
            old(track).consumers > 0,
        ensures
            final(track).well_formed(),
            final(track)@ == (TrackModel {
                consumers: (old(track)@.consumers - 1) as nat,
                ..old(track)@
            }),
    {
        track.remove_consumer();
    }
}

/// The track's properties once it is accepted, or why they will not come.
pub open spec fn info_outcome(track: TrackModel) -> Poll<Result<Info, Error>> {
    match track.info {
        Some(info) => Poll::Ready(Ok(info)),
        None => if track.closed {
            Poll::Ready(Err(track.close_error()))
        } else {
            Poll::Pending
        },
    }
}

fn poll_info(track: &TrackState) -> (r: Poll<Result<Info, Error>>)
    ensures
        r == info_outcome(track@),
{
    match track.poll_info() {
        Poll::Pending => if track.closed {
            Poll::Ready(Err(track.close_error()))
        } else {
            Poll::Pending
        },
        found => found,
    }
}

/// The pollable state of a [`Consumer::subscribe`].
pub struct Subscribe {
    /// The track's name.
    pub name: String,
    /// Which track this reads.
    pub channel: u64,
    /// The number of the subscriber, unless the track was closed when it was opened.
    pub id: Option<u64>,
    /// The preferences.
    pub subscription: Subscription,
    /// Whether a subscriber was handed out, which keeps the subscription.
    pub resolved: bool,
}

impl Subscribe {
    /// The subscriber, once the track info is available.
    pub fn poll_ok(&mut self, track: &mut TrackState) -> (r: Poll<Result<Subscriber, Error>>)
        requires
            old(track).well_formed(),
            old(track).consumers < usize::MAX,
        ensures
            final(track).well_formed(),
            match info_outcome(old(track)@) {
                Poll::Ready(Ok(info)) => {
                    &&& r matches Poll::Ready(Ok(subscriber)) && subscriber.fresh()
                        && subscriber.name == old(self).name && subscriber.info == info
                        && subscriber.channel == old(self).channel && subscriber.id == old(self).id
                        && subscriber.subscription == old(self).subscription
                    &&& final(track)@ == (TrackModel {
                        consumers: old(track)@.consumers + 1,
                        ..old(track)@
                    })
                    &&& *final(self) == (Subscribe { resolved: true, ..*old(self) })
                },
                Poll::Ready(Err(err)) => {
                    &&& r matches Poll::Ready(Err(e)) && e == err
                    &&& final(track)@ == old(track)@
                    &&& *final(self) == *old(self)
                },
                Poll::Pending => {
                    &&& r is Pending
                    &&& final(track)@ == old(track)@
                    &&& *final(self) == *old(self)
                },
            },
    {
        match poll_info(track) {
            Poll::Ready(Ok(info)) => {
                track.add_consumer();
                self.resolved = true;
                Poll::Ready(
                    Ok(
                        Subscriber::new(
                            self.name.clone(),
                            info,
                            self.channel,
                            self.id,
                            self.subscription,
                        ),
                    ),
                )
            },
            Poll::Ready(Err(err)) => Poll::Ready(Err(err)),
            Poll::Pending => Poll::Pending,
        }
    }

    /// Change the subscription preferences before (or after) it resolves.
    pub fn update(&mut self, track: &mut TrackState, subscription: Subscription)
        requires
            old(track).well_formed(),
        ensures
            final(track).well_formed(),
            *final(self) == (Subscribe { subscription, ..*old(self) }),
            final(track)@ == match old(self).id {
                Some(id) => old(track)@.resubscribed(id, subscription),
                None => old(track)@,
            },
    {
        self.subscription = subscription;
        match self.id {
            Some(id) => track.resubscribe(id, subscription),
            None => {},
        }
    }

    /// Stop waiting. Unless a subscriber was handed out, the subscription leaves the producer's
    /// aggregate.
    pub fn close(self, track: &mut TrackState)
        requires
            old(track).well_formed(),
            old(track).consumers > 0,
        ensures
            final(track).well_formed(),
            final(track)@ == (TrackModel {
                consumers: (old(track)@.consumers - 1) as nat,
                ..match self.id {
                    Some(id) => if self.resolved {
                        old(track)@
                    } else {
                        old(track)@.unsubscribed(id)
                    },
                    None => old(track)@,
                }
            }),
    {
        match self.id {
            Some(id) => {
                if !self.resolved {
                    track.unsubscribe(id);
                }
            },
            None => {},
        }
        track.remove_consumer();
    }
}

/// The pollable state of a [`Consumer::info`].
pub struct InfoQuery {
    /// Which track this asks about.
    pub channel: u64,
}

impl InfoQuery {
    /// The track's properties, once they are available.
    pub fn poll_ok(&self, track: &TrackState) -> (r: Poll<Result<Info, Error>>)
        ensures
            r == info_outcome(track@),
    {
        poll_info(track)
    }

    /// Stop waiting.
    pub fn release(self, track: &mut TrackState)
        requires
            old(track).well_formed(),
            old(track).consumers > 0,
        ensures
            final(track).well_formed(),
            final(track)@ == (TrackModel {
                consumers: (old(track)@.consumers - 1) as nat,
                ..old(track)@
            }),
    {
        track.remove_consumer();
    }
}

/// The pollable state of a [`Consumer::fetch_group`].
///
/// Resolves to the group once it lands in the track's cache (already present, or produced
/// on demand), or [`Error::NotFound`] if it can never exist.
pub struct Fetch {
    /// The group sequence.
    pub sequence: u64,
    /// The number of the queued request, if there is one.
    pub request_id: Option<u64>,
}

impl Fetch {
    /// The group, once it is there. Seeing the outcome forgets a rejection, so that a retry
    /// starts afresh.
    pub fn poll(&self, track: &mut TrackState) -> (r: Poll<Result<group::Consumer, Error>>)
        requires
            old(track).well_formed(),
        ensures
            final(track).well_formed(),
            match old(track)@.or_closed(old(track)@.fetch(self.sequence, self.request_id)) {
                Poll::Ready(Ok(i)) => r matches Poll::Ready(Ok(reader)) && reads(
                    reader,
                    old(track)@.groups[i]->Some_0.0,
                ),
                Poll::Ready(Err(err)) => r matches Poll::Ready(Err(e)) && e == err,
                Poll::Pending => r is Pending,
            },
            final(track)@ == if old(track)@.closed || r is Pending || self.request_id is None {
                old(track)@
            } else {
                (TrackModel {
                    fetch_rejections: old(track)@.fetch_rejections.remove(
                        self.request_id->Some_0,
                    ),
                    ..old(track)@
                })
            },
    {
        match track.poll_fetch(self.sequence, self.request_id) {
            Poll::Pending => if track.closed {
                Poll::Ready(Err(track.close_error()))
            } else {
                Poll::Pending
            },
            Poll::Ready(result) => {
                match self.request_id {
                    Some(id) => track.clear_group_request_rejection(id),
                    None => {},
                }
                Poll::Ready(result)
            },
        }
    }

    /// Stop waiting.
    pub fn release(self, track: &mut TrackState)
        requires
            old(track).well_formed(),
            old(track).consumers > 0,
        ensures
            final(track).well_formed(),
            final(track)@ == (TrackModel {
                consumers: (old(track)@.consumers - 1) as nat,
                ..old(track)@
            }),
    {
        track.remove_consumer();
    }
}

} // verus!
