//! Writing a track.

use vstd::prelude::*;

use crate::coding::BoundsExceeded;
use crate::error::Error;
use crate::model::broadcast;
use crate::model::datagram::{Datagram, DatagramModel};
use crate::model::frame::FrameModel;
use crate::model::group;
use crate::model::group::{empty_group, GroupModel};
use crate::model::subscription::Subscription;
use crate::model::time::{Clock, Instant, TimeOverflow, Timestamp};
use crate::model::track::info::Info;
use crate::model::track::model::{
    held, live_at, slot_is_unique, slot_of, GroupRequested, Held, TrackModel,
};
use crate::model::track::state::TrackState;
use crate::model::track::store::new_group_is_last;
use crate::model::track::subscriber::{Consumer, Subscriber};
use crate::poll::Poll;

verus! {

/// A producer for a track, used to create new groups.
pub struct Producer {
    /// The track's name.
    pub name: String,
    /// The parent broadcast's info.
    pub broadcast: broadcast::Info,
    /// Which track this is.
    pub channel: u64,
    /// The groups, the readers and what they ask for.
    pub state: TrackState,
    /// The aggregate subscription that was reported last.
    pub prev_subscription: Option<Subscription>,
}

impl View for Producer {
    type V = TrackModel;

    open spec fn view(&self) -> TrackModel {
        self.state@
    }
}

/// The group that a single frame makes.
pub open spec fn single_frame(timestamp: Timestamp, payload: Seq<u8>) -> GroupModel {
    GroupModel {
        fin: true,
        ..empty_group().written((FrameModel { timestamp, payload }))
    }
}

impl Producer {
    /// What every producer satisfies.
    pub open spec fn well_formed(&self) -> bool {
        &&& self.state.well_formed()
        &&& self.state.info is Some
    }

    /// Whether two values are the same producer, but for the track's state.
    pub open spec fn same_handle(&self, other: &Producer) -> bool {
        &&& self.name == other.name
        &&& self.broadcast == other.broadcast
        &&& self.channel == other.channel
        &&& self.prev_subscription == other.prev_subscription
    }

    /// Build a producer for the given track metadata.
    pub fn new(
        broadcast: broadcast::Info,
        name: String,
        info: Option<Info>,
        channel: u64,
    ) -> (r: Producer)
        ensures
            r.well_formed(),
            r.name == name,
            r.broadcast == broadcast,
            r.channel == channel,
            r.prev_subscription is None,
            r@ == TrackModel::empty(
                Some(
                    match info {
                        Some(info) => info,
                        None => Info::spec_default(),
                    },
                ),
            ),
    {
        let info: Info = match info {
            Some(info) => info,
            None => Info::default(),
        };
        Producer {
            name,
            broadcast,
            channel,
            state: TrackState::new(Some(info)),
            prev_subscription: None,
        }
    }

    /// The track's name.
    pub fn name(&self) -> (r: &String)
        ensures
            *r == self.name,
    {
        &self.name
    }

    /// The parent broadcast this track belongs to.
    pub fn broadcast(&self) -> (r: &broadcast::Info)
        ensures
            *r == self.broadcast,
    {
        &self.broadcast
    }

    /// Create a new group with the given sequence number.
    pub fn create_group(&mut self, group: group::Info, now: Instant) -> (r: Result<(), Error>)
        requires
            old(self).well_formed(),
            old(self)@.offset + old(self)@.groups.len() < usize::MAX,
        ensures
            final(self).well_formed(),
            final(self).same_handle(old(self)),
            match old(self)@.create_error(group.sequence) {
                Some(err) => r == Err::<(), Error>(err) && final(self)@ == old(self)@,
                None => r is Ok && final(self)@ == old(self)@.with_group(group, now),
            },
    {
        self.state.create_group(group, now)
    }

    /// Create a new group with the next sequence number, and return that number.
    pub fn append_group(&mut self, now: Instant) -> (r: Result<u64, Error>)
        requires
            old(self).well_formed(),
            old(self)@.offset + old(self)@.groups.len() < usize::MAX,
        ensures
            final(self).well_formed(),
            final(self).same_handle(old(self)),
            r == old(self)@.append_sequence(),
            final(self)@ == match r {
                Err(_) => old(self)@,
                Ok(sequence) => old(self)@.with_group((group::Info { sequence }), now),
            },
    {
        self.state.append_group(now)
    }

    /// A cached group, to write to. Its sequence must stay.
    pub fn group_mut(&mut self, sequence: u64) -> (r: Option<&mut group::Producer>)
        requires
            old(self).well_formed(),
        ensures
            final(self).same_handle(old(self)),
            match slot_of(old(self)@.groups, sequence) {
                None => r is None && final(self).well_formed() && final(self)@ == old(self)@,
                Some(i) => {
                    &&& r is Some
                    &&& held(*r->Some_0) == old(self)@.groups[i]->Some_0.0
                    &&& r->Some_0.well_formed()
                    &&& final(r->Some_0).well_formed() && final(r->Some_0).info.sequence == sequence
                        ==> {
                        &&& final(self).well_formed()
                        &&& final(self)@ == old(self)@.with_slot(i, held(*final(r->Some_0)))
                    }
                },
            },
    {
        self.state.group_mut(sequence)
    }

    /// Append a datagram with the next sequence number, returning the assigned sequence.
    ///
    /// A datagram is delivered best-effort over a single QUIC datagram, parallel to the
    /// track's groups but drawing from the same sequence namespace (so interleaving with
    /// [`Self::append_group`] never reuses a number). There is no group fallback for a
    /// payload that is too large. A relay preserving upstream numbering uses
    /// [`Self::write_datagram`].
    pub fn append_datagram(&mut self, timestamp: Timestamp, payload: Vec<u8>, now: Instant) -> (r:
        Result<u64, Error>)
        requires
            old(self).well_formed(),
            old(self)@.datagram_offset + old(self)@.datagrams.len() < usize::MAX,
        ensures
            final(self).well_formed(),
            final(self).same_handle(old(self)),
            r == match old(self)@.datagram_timestamp(timestamp, payload@) {
                Err(err) => Err(err),
                Ok(_) => old(self)@.append_sequence(),
            },
            final(self)@ == match r {
                Err(_) => old(self)@,
                Ok(sequence) => old(self)@.with_datagram(
                    (DatagramModel {
                        sequence,
                        timestamp: old(self)@.datagram_timestamp(timestamp, payload@)->Ok_0,
                        payload: payload@,
                    }),
                    now,
                ),
            },
    {
        self.state.append_datagram(timestamp, payload, now)
    }

    /// Write a datagram with an explicit sequence number.
    ///
    /// Preserves the supplied sequence (bumping the newest if needed), so a relay can
    /// forward a datagram without renumbering it.
    pub fn write_datagram(&mut self, datagram: Datagram, now: Instant) -> (r: Result<(), Error>)
        requires
            old(self).well_formed(),
            old(self)@.datagram_offset + old(self)@.datagrams.len() < usize::MAX,
        ensures
            final(self).well_formed(),
            final(self).same_handle(old(self)),
            r == match old(self)@.datagram_timestamp(datagram.timestamp, datagram.payload@) {
                Err(err) => Err(err),
                Ok(_) => if old(self)@.past_final(datagram.sequence) {
                    Err(Error::Closed)
                } else {
                    Ok(())
                },
            },
            final(self)@ == match r {
                Err(_) => old(self)@,
                Ok(_) => old(self)@.with_datagram(
                    (DatagramModel {
                        timestamp: old(self)@.datagram_timestamp(
                            datagram.timestamp,
                            datagram.payload@,
                        )->Ok_0,
                        ..datagram@
                    }),
                    now,
                ),
            },
    {
        self.state.write_datagram(datagram, now)
    }

    /// Create a group with a single frame, at the given presentation timestamp.
    ///
    /// The timestamp is converted into the track's timescale.
    pub fn write_frame(&mut self, timestamp: Timestamp, frame: Vec<u8>, now: Instant) -> (r: Result<
        (),
        Error,
    >)
        requires
            old(self).well_formed(),
            old(self)@.offset + old(self)@.groups.len() < usize::MAX,
        ensures
            final(self).well_formed(),
            final(self).same_handle(old(self)),
            match old(self)@.append_sequence() {
                Err(err) => r == Err::<(), Error>(err) && final(self)@ == old(self)@,
                Ok(sequence) => {
                    let info = group::Info { sequence };
                    let track = old(self)@.with_group(info, now);
                    match frame_timestamp(old(self)@.info->Some_0, timestamp, frame@.len()) {
                        Err(err) => r == Err::<(), Error>(err) && final(self)@ == track,
                        Ok(timestamp) => r is Ok && final(self)@ == track.with_slot(
                            track.groups.len() - 1,
                            (Held {
                                info,
                                track: old(self)@.info->Some_0,
                                group: single_frame(timestamp, frame@),
                            }),
                        ),
                    }
                },
            },
    {
        let sequence: u64 = self.append_group(now)?;
        let ghost track = self@;
        let ghost last = self@.groups.len() - 1;
        proof {
            new_group_is_last(old(self)@, group::Info { sequence }, now);
            assert(live_at(track.groups, last, sequence));
            slot_is_unique(track.groups, last, sequence);
            assert(track.groups.update(last, track.groups[last]) =~= track.groups);
        }
        match self.state.group_mut(sequence) {
            None => Ok(()),
            Some(group) => {
                match group.write_frame(timestamp, frame) {
                    Ok(()) => group.finish(),
                    Err(err) => Err(err),
                }
            },
        }
    }

    /// Like [`Self::write_frame`] but stamps the frame with the clock's time.
    pub fn write_frame_now(&mut self, clock: &Clock, frame: Vec<u8>, now: Instant) -> (r: Result<
        (),
        Error,
    >)
        requires
            old(self).well_formed(),
            old(self)@.offset + old(self)@.groups.len() < usize::MAX,
        ensures
            final(self).well_formed(),
            final(self).same_handle(old(self)),
            match old(self)@.append_sequence() {
                Err(err) => r == Err::<(), Error>(err) && final(self)@ == old(self)@,
                Ok(sequence) => {
                    let info = group::Info { sequence };
                    let track = old(self)@.with_group(info, now);
                    exists|at: Instant|
                        at.nanos >= clock.anchor.nanos && match #[trigger] stamped_frame(
                            old(self)@.info->Some_0,
                            clock,
                            at,
                            frame@.len(),
                        ) {
                            Err(err) => r == Err::<(), Error>(err) && final(self)@ == track,
                            Ok(timestamp) => r is Ok && final(self)@ == track.with_slot(
                                track.groups.len() - 1,
                                (Held {
                                    info,
                                    track: old(self)@.info->Some_0,
                                    group: single_frame(timestamp, frame@),
                                }),
                            ),
                        }
                },
            },
    {
        let stamp: Result<Timestamp, TimeOverflow> = Timestamp::now(clock);
        let ghost at = choose|at: Instant|
            at.nanos >= clock.anchor.nanos && stamp == #[trigger] clock.stamped(at);
        proof {
            let _ = stamped_frame(self@.info->Some_0, clock, at, frame@.len());
        }
        match stamp {
            Ok(timestamp) => self.write_frame(timestamp, frame, now),
            Err(_) => {
                let _ = self.append_group(now)?;
                Err(Error::TimestampMismatch)
            },
        }
    }

    /// Mark the track as finished after the last appended group.
    pub fn finish(&mut self) -> (r: Result<(), Error>)
        requires
            old(self).well_formed(),
        ensures
            final(self).well_formed(),
            final(self).same_handle(old(self)),
            r == if old(self)@.closed {
                Err::<(), Error>(old(self)@.close_error())
            } else if old(self)@.final_sequence is Some {
                Err(Error::Closed)
            } else if old(self)@.next_sequence() is None {
                Err(Error::BoundsExceeded(BoundsExceeded))
            } else {
                Ok(())
            },
            final(self)@ == if r is Err {
                old(self)@
            } else {
                (TrackModel { final_sequence: old(self)@.next_sequence(), ..old(self)@ })
            },
    {
        self.state.finish()
    }

    /// Mark the track as finished at an exact final sequence, which must be the newest.
    pub fn finish_at(&mut self, sequence: u64) -> (r: Result<(), Error>)
        requires
            old(self).well_formed(),
        ensures
            final(self).well_formed(),
            final(self).same_handle(old(self)),
            r == if old(self)@.closed {
                Err::<(), Error>(old(self)@.close_error())
            } else if old(self)@.max_sequence != Some(sequence) || old(self)@.final_sequence
                is Some {
                Err(Error::Closed)
            } else if sequence == u64::MAX {
                Err(Error::BoundsExceeded(BoundsExceeded))
            } else {
                Ok(())
            },
            final(self)@ == if r is Err {
                old(self)@
            } else {
                (TrackModel { final_sequence: Some((sequence + 1) as u64), ..old(self)@ })
            },
    {
        self.state.finish_at(sequence)
    }

    /// Abort the track with the given error.
    pub fn abort(&mut self, err: Error) -> (r: Result<(), Error>)
        requires
            old(self).well_formed(),
        ensures
            final(self).well_formed(),
            final(self).same_handle(old(self)),
            r == if old(self)@.closed {
                Err::<(), Error>(old(self)@.close_error())
            } else {
                Ok(())
            },
            final(self)@ == if old(self)@.closed {
                old(self)@
            } else {
                old(self)@.aborted(err)
            },
    {
        self.state.abort(err)
    }

    /// The last writer goes away: see [`TrackState::close`].
    pub fn close(&mut self)
        requires
            old(self).well_formed(),
        ensures
            final(self).well_formed(),
            final(self).same_handle(old(self)),
            final(self)@ == old(self)@.dropped(),
    {
        self.state.close()
    }

    /// Poll for the producer becoming unused (every consumer dropped).
    pub fn poll_unused(&self) -> (r: Poll<()>)
        ensures
            r == if self@.closed || self@.consumers == 0 {
                Poll::Ready(())
            } else {
                Poll::Pending
            },
    {
        match self.state.poll_unused() {
            Poll::Ready(_) => Poll::Ready(()),
            Poll::Pending => Poll::Pending,
        }
    }

    /// Poll for the first reader. Fails once the track is closed.
    pub fn poll_used(&self) -> (r: Poll<Result<(), Error>>)
        ensures
            r == if self@.closed {
                Poll::Ready(Err(self@.close_error()))
            } else if self@.consumers > 0 {
                Poll::Ready(Ok(()))
            } else {
                Poll::Pending
            },
    {
        self.state.poll_used()
    }

    /// Whether the track is closed or aborted, and the cause.
    pub fn poll_closed(&self) -> (r: Poll<Error>)
        ensures
            r == if self@.closed {
                Poll::Ready(self@.close_error())
            } else {
                Poll::Pending
            },
    {
        if self.state.closed {
            Poll::Ready(self.state.close_error())
        } else {
            Poll::Pending
        }
    }

    /// Return true if the track has been closed.
    pub fn is_closed(&self) -> (r: bool)
        ensures
            r == self@.closed,
    {
        self.state.closed
    }

    /// Return the latest sequence number successfully appended to the track.
    pub fn latest(&self) -> (r: Option<u64>)
        ensures
            r == self@.max_sequence,
    {
        self.state.max_sequence
    }

    /// Return true if this is the same track.
    pub fn is_clone(&self, other: &Producer) -> (r: bool)
        ensures
            r == (self.channel == other.channel),
    {
        self.channel == other.channel
    }

    /// Get a consumer handle for this in-process track.
    pub fn consume(&mut self) -> (r: Consumer)
        requires
            old(self).well_formed(),
            old(self).state.consumers < usize::MAX,
        ensures
            final(self).well_formed(),
            final(self).same_handle(old(self)),
            r.name == old(self).name,
            r.channel == old(self).channel,
            final(self)@ == (TrackModel { consumers: old(self)@.consumers + 1, ..old(self)@ }),
    {
        self.state.add_consumer();
        Consumer { name: self.name.clone(), channel: self.channel }
    }

    /// Subscribe to this in-process track, resolving synchronously.
    ///
    /// The info is fixed at creation, so there's nothing to wait for. The subscriber's stale
    /// window is clamped to the track's cache.
    pub fn subscribe(&mut self, subscription: Option<Subscription>) -> (r: Subscriber)
        requires
            old(self).well_formed(),
            !old(self)@.closed,
            old(self).state.consumers < usize::MAX,
            old(self).state.next_subscription < u64::MAX,
        ensures
            final(self).well_formed(),
            final(self).same_handle(old(self)),
            r.fresh(),
            r.name == old(self).name,
            r.channel == old(self).channel,
            r.info == old(self)@.info->Some_0,
            r.id == Some(old(self)@.next_subscription),
            r.subscription == clamped(
                match subscription {
                    Some(subscription) => subscription,
                    None => Subscription::spec_default(),
                },
                old(self)@.info->Some_0,
            ),
            final(self)@ == (TrackModel {
                consumers: old(self)@.consumers + 1,
                ..old(self)@.subscribed(r.subscription)
            }),
    {
        let mut preferences: Subscription = match subscription {
            Some(subscription) => subscription,
            None => Subscription::default(),
        };
        let info: Info = match self.state.info {
            Some(info) => info,
            None => Info::default(),
        };
        preferences.stale = info.clamp_stale(preferences.stale);
        let id: u64 = self.state.subscribe(preferences);
        self.state.add_consumer();
        Subscriber::new(self.name.clone(), info, self.channel, Some(id), preferences)
    }

    /// A non-blocking snapshot of the current aggregate subscription, or `None` when there
    /// are no live subscribers. This doesn't wait for a change or advance the change cursor.
    pub fn subscription(&self) -> (r: Option<Subscription>)
        ensures
            r == self@.demand(),
    {
        self.state.subscription()
    }

    /// Poll for a change of the aggregate subscription.
    ///
    /// Yields the most demanding request across all live subscribers, or `None` once the last
    /// one drops. Used by relays to forward downstream demand upstream.
    pub fn poll_subscription_changed(&mut self) -> (r: Poll<Result<Option<Subscription>, Error>>)
        requires
            old(self).well_formed(),
        ensures
            final(self).well_formed(),
            final(self)@ == old(self)@,
            if old(self)@.closed {
                &&& r == Poll::Ready(Err::<Option<Subscription>, Error>(old(self)@.close_error()))
                &&& *final(self) == *old(self)
            } else if old(self)@.demand() != old(self).prev_subscription {
                &&& r == Poll::Ready(Ok::<Option<Subscription>, Error>(old(self)@.demand()))
                &&& *final(self) == (Producer {
                    prev_subscription: old(self)@.demand(),
                    ..*old(self)
                })
            } else {
                &&& r is Pending
                &&& *final(self) == *old(self)
            },
    {
        let r: Poll<Result<Option<Subscription>, Error>> = self.state.poll_subscription_changed(
            &self.prev_subscription,
        );
        match &r {
            Poll::Ready(Ok(next)) => {
                self.prev_subscription = *next;
            },
            _ => {},
        }
        r
    }

    /// Create a [`Dynamic`] handle that serves on-demand fetches of uncached (old) groups.
    /// Most producers never need this; a relay creates one to fetch past groups from
    /// upstream.
    pub fn dynamic(&mut self) -> (r: Dynamic)
        requires
            old(self).well_formed(),
            old(self).state.dynamic < usize::MAX,
        ensures
            final(self).well_formed(),
            final(self).same_handle(old(self)),
            r.name == old(self).name,
            r.channel == old(self).channel,
            final(self)@ == if old(self)@.closed {
                old(self)@
            } else {
                (TrackModel { dynamic: old(self)@.dynamic + 1, ..old(self)@ })
            },
    {
        self.state.add_dynamic();
        Dynamic { name: self.name.clone(), channel: self.channel }
    }

    /// A watch-only handle to this track's subscriber demand.
    pub fn demand(&self) -> (r: Demand)
        ensures
            r.name == self.name,
            r.channel == self.channel,
    {
        Demand { name: self.name.clone(), channel: self.channel }
    }
}

/// A subscription whose stale window is no longer than the track keeps its groups.
pub open spec fn clamped(subscription: Subscription, info: Info) -> Subscription {
    Subscription {
        stale: if subscription.stale.nanos <= info.cache.nanos {
            subscription.stale
        } else {
            info.cache
        },
        ..subscription
    }
}

/// Like [`frame_timestamp`], for a frame stamped when `clock` reads `at`.
pub open spec fn stamped_frame(track: Info, clock: &Clock, at: Instant, size: nat) -> Result<
    Timestamp,
    Error,
> {
    match clock.stamped(at) {
        Err(_) => Err(Error::TimestampMismatch),
        Ok(timestamp) => frame_timestamp(track, timestamp, size),
    }
}

/// The timestamp that a frame gets in an open group, or why it is refused.
pub open spec fn frame_timestamp(track: Info, timestamp: Timestamp, size: nat) -> Result<
    Timestamp,
    Error,
> {
    match timestamp.spec_convert(track.timescale) {
        Err(_) => Err(Error::TimestampMismatch),
        Ok(timestamp) => if size > group::MAX_GROUP_CACHE {
            Err(Error::FrameTooLarge)
        } else {
            Ok(timestamp)
        },
    }
}

/// Serves on-demand fetches of uncached (old) groups for a track.
///
/// Most tracks never serve old content, so this capability lives on a dedicated handle
/// rather than [`Producer`]: a relay creates one to pull past groups from upstream. While at
/// least one is alive the track will block a cache-miss fetch waiting to be served; with
/// none, a miss fails fast with [`Error::NotFound`].
pub struct Dynamic {
    /// The track's name.
    pub name: String,
    /// Which track this serves.
    pub channel: u64,
}

impl Dynamic {
    /// The track's name.
    pub fn name(&self) -> (r: &String)
        ensures
            *r == self.name,
    {
        &self.name
    }

    /// Poll for a consumer fetching a group that isn't cached, as a [`GroupRequest`] to serve.
    ///
    /// Errors once the track is aborted.
    pub fn poll_requested_group(&self, track: &mut TrackState) -> (r: Poll<
        Result<GroupRequest, Error>,
    >)
        requires
            old(track).well_formed(),
        ensures
            final(track).well_formed(),
            if old(track)@.closed {
                &&& r matches Poll::Ready(Err(e)) && e == old(track)@.close_error()
                &&& final(track)@ == old(track)@
            } else if old(track)@.fetches.len() > 0 {
                &&& r matches Poll::Ready(Ok(request)) && request.requested
                    == old(track)@.fetches[0]
                &&& final(track)@ == (TrackModel {
                    fetches: old(track)@.fetches.skip(1),
                    ..old(track)@
                })
            } else {
                &&& match old(track)@.abort {
                    Some(err) => r matches Poll::Ready(Err(e)) && e == err,
                    None => r is Pending,
                }
                &&& final(track)@ == old(track)@
            },
    {
        match track.poll_requested_group() {
            Poll::Ready(Ok(requested)) => Poll::Ready(Ok(GroupRequest { requested })),
            Poll::Ready(Err(err)) => Poll::Ready(Err(err)),
            Poll::Pending => Poll::Pending,
        }
    }

    /// Poll for the track becoming unused (every consumer dropped).
    pub fn poll_unused(&self, track: &TrackState) -> (r: Poll<()>)
        ensures
            r == if track@.closed || track@.consumers == 0 {
                Poll::Ready(())
            } else {
                Poll::Pending
            },
    {
        match track.poll_unused() {
            Poll::Ready(_) => Poll::Ready(()),
            Poll::Pending => Poll::Pending,
        }
    }

    /// One more handle, counted like this one.
    pub fn share(&self, track: &mut TrackState) -> (r: Dynamic)
        requires
            old(track).well_formed(),
            old(track).dynamic < usize::MAX,
        ensures
            final(track).well_formed(),
            r == *self,
            final(track)@ == if old(track)@.closed {
                old(track)@
            } else {
                (TrackModel { dynamic: old(track)@.dynamic + 1, ..old(track)@ })
            },
    {
        track.add_dynamic();
        Dynamic { name: self.name.clone(), channel: self.channel }
    }

    /// Stop serving. The last handle going away doesn't abort the track: a live [`Producer`]
    /// may still be serving the subscription.
    pub fn release(self, track: &mut TrackState)
        requires
            old(track).well_formed(),
        ensures
            final(track).well_formed(),
            final(track)@ == if old(track)@.closed || old(track)@.dynamic == 0 {
                old(track)@
            } else {
                (TrackModel { dynamic: (old(track)@.dynamic - 1) as nat, ..old(track)@ })
            },
    {
        track.remove_dynamic();
    }
}

/// A consumer's request for a single past group, handed to a handler via
/// [`Dynamic::poll_requested_group`].
///
/// The handler fulfills it by calling [`Self::accept`], which inserts the group into the
/// track cache (resolving the matching fetch).
pub struct GroupRequest {
    /// What was asked for.
    pub requested: GroupRequested,
}

impl GroupRequest {
    /// The group sequence the consumer wants.
    pub fn sequence(&self) -> (r: u64)
        ensures
            r == self.requested.sequence,
    {
        self.requested.sequence
    }

    /// The delivery priority the consumer requested for this group.
    pub fn priority(&self) -> (r: u8)
        ensures
            r == self.requested.priority,
    {
        self.requested.priority
    }

    /// Insert the fetched group into the track cache, resolving the waiting fetch. The group
    /// is then filled through the track.
    ///
    /// `info` sets the track's info if it hasn't been accepted yet (a fetch with no live
    /// subscription), and is ignored once accepted. Returns [`Error::Duplicate`] if the group
    /// is already present, or the track's abort error if it closed while pending.
    pub fn accept(self, track: &mut TrackState, info: Option<Info>, now: Instant) -> (r: Result<
        (),
        Error,
    >)
        requires
            old(track).well_formed(),
            old(track)@.offset + old(track)@.groups.len() < usize::MAX,
        ensures
            final(track).well_formed(),
            match old(track)@.accept_error(self.requested.sequence) {
                Some(err) => r == Err::<(), Error>(err) && final(track)@ == old(track)@,
                None => r is Ok && final(track)@ == (TrackModel {
                    info: Some(
                        match old(track)@.info {
                            Some(info) => info,
                            None => match info {
                                Some(info) => info,
                                None => Info::spec_default(),
                            },
                        },
                    ),
                    ..old(track)@
                }).with_group((group::Info { sequence: self.requested.sequence }), now),
            },
    {
        track.insert_group_request(self.requested.sequence, info, now)
    }

    /// Reject the fetch, resolving the waiting fetch with `err`.
    pub fn reject(self, track: &mut TrackState, err: Error)
        requires
            old(track).well_formed(),
        ensures
            final(track).well_formed(),
            final(track)@ == old(track)@.rejected(self.requested.id, err),
    {
        track.reject_group_request(self.requested.id, err);
    }

    /// Give the request up without an answer: the fetch resolves with [`Error::Dropped`].
    pub fn abandon(self, track: &mut TrackState)
        requires
            old(track).well_formed(),
        ensures
            final(track).well_formed(),
            final(track)@ == old(track)@.rejected(self.requested.id, Error::Dropped),
    {
        track.reject_group_request(self.requested.id, Error::Dropped);
    }
}

/// A cloneable, watch-only handle to a track's subscriber demand.
///
/// A publisher uses it to react to whether anyone is subscribed (on-demand capture /
/// encoding) without being able to publish frames or close the track.
pub struct Demand {
    /// The track's name.
    pub name: String,
    /// Which track this watches.
    pub channel: u64,
}

impl Demand {
    /// The track name this handle is bound to.
    pub fn name(&self) -> (r: &String)
        ensures
            *r == self.name,
    {
        &self.name
    }

    /// Whether there is at least one active consumer.
    pub fn poll_used(&self, track: &TrackState) -> (r: Poll<Result<(), Error>>)
        ensures
            r == if track@.closed {
                Poll::Ready(Err(track@.close_error()))
            } else if track@.consumers > 0 {
                Poll::Ready(Ok(()))
            } else {
                Poll::Pending
            },
    {
        track.poll_used()
    }

    /// Whether there are no active consumers.
    pub fn poll_unused(&self, track: &TrackState) -> (r: Poll<Result<(), Error>>)
        ensures
            r == if track@.closed {
                Poll::Ready(Err(track@.close_error()))
            } else if track@.consumers == 0 {
                Poll::Ready(Ok(()))
            } else {
                Poll::Pending
            },
    {
        track.poll_unused()
    }

    /// Whether the track is closed or aborted, and the cause.
    pub fn poll_closed(&self, track: &TrackState) -> (r: Poll<Error>)
        ensures
            r == if track@.closed {
                Poll::Ready(track@.close_error())
            } else {
                Poll::Pending
            },
    {
        if track.closed {
            Poll::Ready(track.close_error())
        } else {
            Poll::Pending
        }
    }
}

/// A track that was asked for by name, and whose properties are not known yet.
///
/// It is served on demand, so it counts as fetch-capable from birth: a consumer's cache-miss
/// fetch waits to be served instead of racing the producer (e.g. a relay) into creating its
/// own handler. That ends when the request is accepted or given up; by then a relay holds
/// its own handle.
pub struct Request {
    /// The requested track name.
    pub name: String,
    /// The parent broadcast's info, handed to the [`Producer`] on accept.
    pub broadcast: broadcast::Info,
    /// Which track this is.
    pub channel: u64,
    /// The readers and what they ask for.
    pub state: TrackState,
    /// The aggregate subscription that was reported last.
    pub prev_subscription: Option<Subscription>,
}

impl View for Request {
    type V = TrackModel;

    open spec fn view(&self) -> TrackModel {
        self.state@
    }
}

impl Request {
    /// What every request satisfies.
    pub open spec fn well_formed(&self) -> bool {
        &&& self.state.well_formed()
        &&& !self.state.closed
        &&& self.state.dynamic > 0
    }

    /// A request for the track `name`.
    pub fn new(broadcast: broadcast::Info, name: String, channel: u64) -> (r: Request)
        ensures
            r.well_formed(),
            r.name == name,
            r.broadcast == broadcast,
            r.channel == channel,
            r.prev_subscription is None,
            r@ == (TrackModel { dynamic: 1, ..TrackModel::empty(None) }),
    {
        let mut state: TrackState = TrackState::new(None);
        state.add_dynamic();
        Request { name, broadcast, channel, state, prev_subscription: None }
    }

    /// The requested track name.
    pub fn name(&self) -> (r: &String)
        ensures
            *r == self.name,
    {
        &self.name
    }

    /// Get a consumer handle for the requested track.
    pub fn consume(&mut self) -> (r: Consumer)
        requires
            old(self).well_formed(),
            old(self).state.consumers < usize::MAX,
        ensures
            final(self).well_formed(),
            r.name == old(self).name,
            r.channel == old(self).channel,
            final(self)@ == (TrackModel { consumers: old(self)@.consumers + 1, ..old(self)@ }),
            *final(self) == (Request { state: final(self).state, ..*old(self) }),
    {
        self.state.add_consumer();
        Consumer { name: self.name.clone(), channel: self.channel }
    }

    /// Create a [`Dynamic`] handle that serves on-demand fetches of uncached groups, before
    /// [`Self::accept`] is even called.
    pub fn dynamic(&mut self) -> (r: Dynamic)
        requires
            old(self).well_formed(),
            old(self).state.dynamic < usize::MAX,
        ensures
            final(self).well_formed(),
            r.name == old(self).name,
            r.channel == old(self).channel,
            final(self)@ == (TrackModel { dynamic: old(self)@.dynamic + 1, ..old(self)@ }),
            *final(self) == (Request { state: final(self).state, ..*old(self) }),
    {
        self.state.add_dynamic();
        Dynamic { name: self.name.clone(), channel: self.channel }
    }

    /// Poll for the request becoming unused (every consumer dropped), so a relay can stop
    /// serving and drop the request.
    pub fn poll_unused(&self) -> (r: Poll<()>)
        requires
            self.well_formed(),
        ensures
            r == if self@.consumers == 0 {
                Poll::Ready(())
            } else {
                Poll::Pending
            },
    {
        match self.state.poll_unused() {
            Poll::Ready(_) => Poll::Ready(()),
            Poll::Pending => Poll::Pending,
        }
    }

    /// Serve the request with the given properties, resolving every waiting subscriber.
    pub fn accept(self, info: Option<Info>) -> (r: Producer)
        requires
            self.well_formed(),
        ensures
            r.well_formed(),
            r.name == self.name,
            r.broadcast == self.broadcast,
            r.channel == self.channel,
            r.prev_subscription is None,
            r@ == (TrackModel {
                info: Some(
                    match info {
                        Some(info) => info,
                        None => Info::spec_default(),
                    },
                ),
                dynamic: (self@.dynamic - 1) as nat,
                ..self@
            }),
    {
        let mut state: TrackState = self.state;
        state.info = Some(
            match info {
                Some(info) => info,
                None => Info::default(),
            },
        );
        state.remove_dynamic();
        Producer {
            name: self.name,
            broadcast: self.broadcast,
            channel: self.channel,
            state,
            prev_subscription: None,
        }
    }

    /// Reject the request, waking all waiting subscribers with `err`. The track's state is
    /// closed unless another handler of fetches still holds it.
    pub fn reject(self, err: Error) -> (r: TrackState)
        requires
            self.well_formed(),
        ensures
            r.well_formed(),
            r@ == (TrackModel {
                abort: Some(err),
                dynamic: (self@.dynamic - 1) as nat,
                closed: self@.dynamic == 1,
                ..self@
            }),
    {
        let mut state: TrackState = self.state;
        state.abort = Some(err);
        state.remove_dynamic();
        state.closed = state.dynamic == 0;
        state
    }

    /// A snapshot of what all waiting subscribers together ask for.
    pub fn subscription(&self) -> (r: Option<Subscription>)
        ensures
            r == self@.demand(),
    {
        self.state.subscription()
    }

    /// Poll for a change of the aggregate subscription.
    pub fn poll_subscription_changed(&mut self) -> (r: Poll<Option<Subscription>>)
        requires
            old(self).well_formed(),
        ensures
            final(self).well_formed(),
            if old(self)@.demand() != old(self).prev_subscription {
                &&& r == Poll::Ready(old(self)@.demand())
                &&& *final(self) == (Request {
                    prev_subscription: old(self)@.demand(),
                    ..*old(self)
                })
            } else {
                &&& r is Pending
                &&& *final(self) == *old(self)
            },
    {
        match self.state.poll_subscription_changed(&self.prev_subscription) {
            Poll::Ready(Ok(next)) => {
                self.prev_subscription = next;
                Poll::Ready(next)
            },
            _ => Poll::Pending,
        }
    }
}

/// No subscriber waits longer for a late group than the track keeps it, and nothing else of what
/// it asks for changes.
pub proof fn stale_is_clamped(subscription: Subscription, info: Info)
    ensures
        ({
            let r = clamped(subscription, info);
            &&& r.stale.nanos <= info.cache.nanos
            &&& r.stale.nanos <= subscription.stale.nanos
            &&& r.stale == subscription.stale || r.stale == info.cache
            &&& r.priority == subscription.priority
            &&& r.ordered == subscription.ordered
            &&& r.group_start == subscription.group_start
            &&& r.group_end == subscription.group_end
        }),
{
}

/// A frame in a group of its own is all there is in it: its payload, at its timestamp, and then
/// the end.
pub proof fn single_frame_is_the_group(timestamp: Timestamp, payload: Seq<u8>)
    requires
        payload.len() <= group::MAX_GROUP_CACHE,
    ensures
        ({
            let group = single_frame(timestamp, payload);
            &&& group.frames.len() == 1
            &&& group.frames[0].timestamp == timestamp
            &&& group.frames[0].payload == payload
            &&& group.offset == 0
            &&& group.fin
            &&& !group.closed
            &&& group.abort is None
            &&& group.partial is None
        }),
{
    let frame = FrameModel { timestamp, payload };
    group::writing_evicts_the_least(empty_group(), frame);
    let all = empty_group().frames.push(frame);
    assert(all.skip(0) =~= all);
}

/// A frame that is written with a group of its own gets its timestamp at the track's scale, and
/// is refused if that cannot be had or if it is too large.
pub proof fn frame_gets_its_timestamp(
    track: Info,
    timestamp: Timestamp,
    clock: Clock,
    at: Instant,
    size: nat,
)
    ensures
        ({
            let r = frame_timestamp(track, timestamp, size);
            let scaled = timestamp.spec_convert(track.timescale);
            &&& r is Ok <==> scaled is Ok && size <= group::MAX_GROUP_CACHE
            &&& r matches Ok(stamp) ==> scaled == Ok::<Timestamp, TimeOverflow>(stamp)
            &&& scaled is Err ==> r == Err::<Timestamp, Error>(Error::TimestampMismatch)
            &&& scaled is Ok && size > group::MAX_GROUP_CACHE ==> r == Err::<Timestamp, Error>(
                Error::FrameTooLarge,
            )
        }),
        clock.stamped(at) matches Ok(stamp) ==> stamped_frame(track, &clock, at, size)
            == frame_timestamp(track, stamp, size),
        clock.stamped(at) is Err ==> stamped_frame(track, &clock, at, size) == Err::<
            Timestamp,
            Error,
        >(Error::TimestampMismatch),
{
}

/// The same handle is to the same track, and has been told the same.
pub proof fn same_handle_is_the_same_track(a: Producer, b: Producer)
    requires
        a.same_handle(&b),
    ensures
        a.name == b.name,
        a.broadcast == b.broadcast,
        a.channel == b.channel,
        a.prev_subscription == b.prev_subscription,
{
}

} // verus!
