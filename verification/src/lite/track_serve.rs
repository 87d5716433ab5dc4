//! Serving one track for a relay: the single upstream subscription, opened lazily on the
//! first downstream subscriber and paused and resumed across consumer churn, and any number
//! of one-shot fetches. When nothing is left to serve, the track lingers before the upstream
//! is torn down, so a returning consumer reuses the cache.

use vstd::prelude::*;

use crate::error::Error;
use crate::lite::{Fetch, Subscribe, SubscribeResponse, SubscribeUpdate, Version};
use crate::model::broadcast;
use crate::model::subscription::{aggregate, Subscription};
use crate::model::time::{Duration, Timescale};
use crate::model::track;
use crate::model::track::model::{GroupRequested, TrackModel};
use crate::model::track::state::TrackState;
use crate::path::Path;
use crate::poll::Poll;

verus! {

/// How long an idle track keeps its upstream subscription alive, in milliseconds: five
/// seconds.
pub const LINGER_TIMEOUT_MILLIS: u64 = 5_000;

/// The at-most-one live upstream subscription: the params echoed in every SUBSCRIBE_UPDATE.
#[derive(Clone, Copy, Debug, PartialEq, Eq, Structural)]
pub struct SubStream {
    pub id: u64,
    /// Capped at the latest group and dropped to priority 0 because the last downstream
    /// subscriber left. The stream stays open during the linger window so a returning
    /// consumer resumes without a fresh SUBSCRIBE.
    pub paused: bool,
    pub ordered: bool,
    pub max_latency: Duration,
    pub start_group: Option<u64>,
    pub priority: u8,
}

/// What a change of demand calls for.
#[derive(Clone, Copy, Debug, PartialEq, Eq, Structural)]
pub enum Decision {
    Nothing,
    /// Open the upstream SUBSCRIBE.
    Open(Subscription),
    /// Send a SUBSCRIBE_UPDATE.
    Update(SubscribeUpdate),
}

/// The subscription that a demand leads to.
pub open spec fn stream_for(id: u64, subscription: Subscription) -> SubStream {
    SubStream {
        id,
        paused: false,
        ordered: subscription.ordered,
        max_latency: subscription.stale,
        start_group: subscription.group_start,
        priority: subscription.priority,
    }
}

/// The update that tells the upstream of a demand.
pub open spec fn update_for(subscription: Subscription) -> SubscribeUpdate {
    SubscribeUpdate {
        priority: subscription.priority,
        ordered: subscription.ordered,
        max_latency: subscription.stale,
        start_group: subscription.group_start,
        end_group: subscription.group_end,
    }
}

/// What a change of demand calls for, and what it makes of the upstream subscription.
///
/// The first subscriber opens the upstream, unless the track already finished. While it is
/// live, changed preferences are forwarded. When the last subscriber leaves it is paused: no
/// more groups than there are, at the lowest priority. Before lite-03 there is no update to
/// pause with.
pub open spec fn decide(
    version: Version,
    accepted: bool,
    completed: bool,
    sub: Option<SubStream>,
    latest: Option<u64>,
    demand: Option<Subscription>,
) -> (Option<SubStream>, Decision) {
    match (demand, sub) {
        (Some(subscription), None) => if !accepted || version.rank() >= 5 && !completed {
            (sub, Decision::Open(subscription))
        } else {
            (sub, Decision::Nothing)
        },
        (Some(subscription), Some(active)) => (
            Some(stream_for(active.id, subscription)),
            if active.paused || version.rank() >= 3 {
                Decision::Update(update_for(subscription))
            } else {
                Decision::Nothing
            },
        ),
        (None, Some(active)) => if version.rank() >= 3 && !active.paused {
            (
                Some(SubStream { paused: true, start_group: None, ..active }),
                Decision::Update(
                    SubscribeUpdate {
                        priority: 0,
                        ordered: active.ordered,
                        max_latency: active.max_latency,
                        start_group: None,
                        end_group: Some(
                            match latest {
                                Some(latest) => latest,
                                None => 0,
                            },
                        ),
                    },
                ),
            )
        } else {
            (sub, Decision::Nothing)
        },
        (None, None) => (sub, Decision::Nothing),
    }
}

/// The producer side of one track. From lite-05 on it is active from the start (the TRACK
/// stream resolves the properties up front); before that it stays pending until the first
/// SUBSCRIBE_OK promotes it.
pub enum Track {
    Pending(track::Request),
    Active(track::Producer),
}

impl View for Track {
    type V = TrackModel;

    open spec fn view(&self) -> TrackModel {
        match *self {
            Track::Pending(request) => request@,
            Track::Active(producer) => producer@,
        }
    }
}

impl Track {
    /// What every track satisfies.
    pub open spec fn well_formed(&self) -> bool {
        match *self {
            Track::Pending(request) => request.well_formed(),
            Track::Active(producer) => producer.well_formed(),
        }
    }

    /// Which track this is: its name, its broadcast and its channel.
    pub open spec fn identity(&self) -> (String, broadcast::Info, u64) {
        match *self {
            Track::Pending(request) => (request.name, request.broadcast, request.channel),
            Track::Active(producer) => (producer.name, producer.broadcast, producer.channel),
        }
    }

    /// The aggregate subscription that was reported last.
    pub open spec fn seen(&self) -> Option<Subscription> {
        match *self {
            Track::Pending(request) => request.prev_subscription,
            Track::Active(producer) => producer.prev_subscription,
        }
    }

    /// The track's state.
    pub fn state(&mut self) -> (r: &mut TrackState)
        requires
            old(self).well_formed(),
        ensures
            r@ == old(self)@,
            r.well_formed(),
            final(self)@ == final(r)@,
            final(self).seen() == old(self).seen(),
            final(self).identity() == old(self).identity(),
            (*final(self) is Pending) == (*old(self) is Pending),
            match *old(self) {
                Track::Pending(_) => final(r).well_formed() && !final(r).closed && final(r).dynamic
                    > 0 ==> final(self).well_formed(),
                Track::Active(_) => final(r).well_formed() && final(r).info is Some
                    ==> final(self).well_formed(),
            },
    {
        match self {
            Track::Pending(request) => &mut request.state,
            Track::Active(producer) => &mut producer.state,
        }
    }

    /// Poll for a change of the aggregate subscription.
    pub fn poll_subscription_changed(&mut self) -> (r: Poll<Result<Option<Subscription>, Error>>)
        requires
            old(self).well_formed(),
        ensures
            final(self).well_formed(),
            final(self)@ == old(self)@,
            final(self).identity() == old(self).identity(),
            (*final(self) is Pending) == (*old(self) is Pending),
            r == if *old(self) is Active && old(self)@.closed {
                Poll::Ready(Err(old(self)@.close_error()))
            } else if old(self)@.demand() != old(self).seen() {
                Poll::Ready(Ok(old(self)@.demand()))
            } else {
                Poll::Pending
            },
            final(self).seen() == if r matches Poll::Ready(Ok(_)) {
                old(self)@.demand()
            } else {
                old(self).seen()
            },
    {
        match self {
            Track::Pending(request) => match request.poll_subscription_changed() {
                Poll::Ready(next) => Poll::Ready(Ok(next)),
                Poll::Pending => Poll::Pending,
            },
            Track::Active(producer) => producer.poll_subscription_changed(),
        }
    }

    /// Whether no reader is left.
    pub fn poll_unused(&self) -> (r: Poll<()>)
        requires
            self.well_formed(),
        ensures
            r == if self@.closed || self@.consumers == 0 {
                Poll::Ready(())
            } else {
                Poll::Pending
            },
    {
        match self {
            Track::Pending(request) => request.poll_unused(),
            Track::Active(producer) => producer.poll_unused(),
        }
    }

    /// Latest cached sequence, used to cap the upstream while pausing. `None` before the track
    /// is accepted or any group has arrived.
    pub fn latest(&self) -> (r: Option<u64>)
        ensures
            r == match *self {
                Track::Active(producer) => producer@.max_sequence,
                Track::Pending(_) => None,
            },
    {
        match self {
            Track::Active(producer) => producer.latest(),
            Track::Pending(_) => None,
        }
    }
}

/// One step for a track, out of track demand, the upstream stream, the broadcast, and the
/// linger timer.
pub enum Event {
    /// A consumer fetched a past group.
    Fetch(GroupRequested),
    /// The downstream aggregate subscription changed (`None` once the last subscriber leaves).
    Subscription(Option<Subscription>),
    /// Nothing left to serve (no subscription, no fetch, no consumers).
    Idle,
    /// An in-flight fetch finished.
    FetchDone,
    /// The upstream subscribe stream closed: `Ok` is a clean FIN, `Err` a transport error.
    SubClosed(Result<(), Error>),
    /// The whole broadcast went away.
    BroadcastClosed(Error),
    /// The linger window elapsed with nobody returning.
    LingerExpired,
}

/// What to do after an event.
pub enum Action {
    /// Keep going.
    Continue,
    /// Open a SUBSCRIBE for this demand.
    Open(Subscription),
    /// Send a SUBSCRIBE_UPDATE.
    Update(SubscribeUpdate),
    /// Serve a fetch on a stream of its own.
    Fetch(GroupRequested),
    /// Start the linger timer.
    Linger,
    /// The upstream finished: drop its subscription with this id, finish its stream, and
    /// finish the track, which can still be fetched from.
    Complete(Option<u64>),
    /// Tear the track down with this error, and with it the upstream with this id.
    Stop(Option<u64>, Error),
}

/// The decisions about one track.
pub struct TrackServe {
    pub version: Version,
    /// The broadcast's path.
    pub path: Path,
    /// The track's name.
    pub name: String,
    /// Whether the track's properties are known.
    pub accepted: bool,
    /// The upstream subscription, while there is one.
    pub sub: Option<SubStream>,
    /// Set once the upstream subscription FIN'd: a later subscriber must not reopen it.
    pub completed: bool,
    /// Whether the linger timer is running.
    pub lingering: bool,
    /// How many fetches are in flight.
    pub fetches: u64,
}

/// The number of the upstream subscription.
pub open spec fn sub_id(sub: Option<SubStream>) -> Option<u64> {
    match sub {
        Some(active) => Some(active.id),
        None => None,
    }
}

/// What the readers of a track call for, given the aggregate subscription that was reported
/// last.
pub open spec fn demand_event(
    serve: TrackServe,
    track: TrackModel,
    seen: Option<Subscription>,
) -> Option<Event> {
    if track.closed {
        Some(Event::BroadcastClosed(track.close_error()))
    } else if track.fetches.len() > 0 {
        Some(Event::Fetch(track.fetches[0]))
    } else if track.abort is Some {
        Some(Event::BroadcastClosed(track.abort->Some_0))
    } else if track.demand() != seen {
        Some(Event::Subscription(track.demand()))
    } else if !serve.lingering && serve.fetches == 0 && track.consumers == 0 {
        Some(Event::Idle)
    } else {
        None
    }
}

impl TrackServe {
    /// The decisions about a track that was just asked for. From lite-05 on its properties are
    /// known by then.
    pub fn new(version: Version, path: Path, name: String) -> (r: TrackServe)
        ensures
            r == (TrackServe {
                version,
                path,
                name,
                accepted: version.rank() >= 5,
                sub: None,
                completed: false,
                lingering: false,
                fetches: 0,
            }),
    {
        TrackServe {
            version,
            path,
            name,
            accepted: version.has_track_stream(),
            sub: None,
            completed: false,
            lingering: false,
            fetches: 0,
        }
    }

    /// SUBSCRIBE_UPDATE (and thus pause/resume linger) only exists on lite-03+. Older versions
    /// tear the upstream down as soon as the track goes idle.
    pub fn supports_linger(&self) -> (r: bool)
        ensures
            r == (self.version.rank() >= 3),
    {
        match self.version {
            Version::Lite01 | Version::Lite02 => false,
            _ => true,
        }
    }

    /// Poll track demand: a fetch, a subscription change, or full idle. A fetch is cheap and
    /// one-shot, so it goes ahead of subscription churn.
    pub fn poll_demand(&self, track: &mut Track) -> (r: Poll<Event>)
        requires
            old(track).well_formed(),
        ensures
            final(track).well_formed(),
            final(track).identity() == old(track).identity(),
            (*final(track) is Pending) == (*old(track) is Pending),
            ({
                let event = demand_event(*self, old(track)@, old(track).seen());
                &&& r == match event {
                    Some(event) => Poll::Ready(event),
                    None => Poll::Pending,
                }
                &&& final(track)@ == if event matches Some(Event::Fetch(_)) {
                    (TrackModel { fetches: old(track)@.fetches.skip(1), ..old(track)@ })
                } else {
                    old(track)@
                }
                &&& final(track).seen() == if event matches Some(Event::Subscription(_)) {
                    old(track)@.demand()
                } else {
                    old(track).seen()
                }
            }),
    {
        match track.state().poll_requested_group() {
            Poll::Ready(Ok(request)) => {
                return Poll::Ready(Event::Fetch(request));
            },
            Poll::Ready(Err(err)) => {
                return Poll::Ready(Event::BroadcastClosed(err));
            },
            Poll::Pending => {},
        }
        match track.poll_subscription_changed() {
            Poll::Ready(Ok(demand)) => {
                return Poll::Ready(Event::Subscription(demand));
            },
            Poll::Ready(Err(err)) => {
                return Poll::Ready(Event::BroadcastClosed(err));
            },
            Poll::Pending => {},
        }
        if !self.lingering && self.fetches == 0 && track.poll_unused().is_ready() {
            return Poll::Ready(Event::Idle);
        }
        Poll::Pending
    }

    /// The next event: track demand first, then a finished fetch, the upstream stream, the
    /// broadcast, and the linger timer.
    pub fn poll_event(
        &self,
        track: &mut Track,
        fetch_done: bool,
        sub_closed: Poll<Result<(), Error>>,
        broadcast_closed: Option<Error>,
        linger_expired: bool,
    ) -> (r: Poll<Event>)
        requires
            old(track).well_formed(),
        ensures
            final(track).well_formed(),
            final(track).identity() == old(track).identity(),
            (*final(track) is Pending) == (*old(track) is Pending),
            match demand_event(*self, old(track)@, old(track).seen()) {
                Some(event) => {
                    &&& r == Poll::Ready(event)
                    &&& final(track)@ == if event is Fetch {
                        (TrackModel { fetches: old(track)@.fetches.skip(1), ..old(track)@ })
                    } else {
                        old(track)@
                    }
                    &&& final(track).seen() == if event is Subscription {
                        old(track)@.demand()
                    } else {
                        old(track).seen()
                    }
                },
                None => {
                    &&& final(track)@ == old(track)@
                    &&& final(track).seen() == old(track).seen()
                    &&& r == if fetch_done && self.fetches > 0 {
                        Poll::Ready(Event::FetchDone)
                    } else if sub_closed is Ready && self.sub is Some {
                        Poll::Ready(Event::SubClosed(sub_closed->Ready_0))
                    } else if broadcast_closed is Some {
                        Poll::Ready(Event::BroadcastClosed(broadcast_closed->Some_0))
                    } else if linger_expired && self.lingering {
                        Poll::Ready(Event::LingerExpired)
                    } else {
                        Poll::Pending
                    }
                },
            },
    {
        match self.poll_demand(track) {
            Poll::Ready(event) => {
                return Poll::Ready(event);
            },
            Poll::Pending => {},
        }
        if fetch_done && self.fetches > 0 {
            return Poll::Ready(Event::FetchDone);
        }
        match sub_closed {
            Poll::Ready(result) => {
                if self.sub.is_some() {
                    return Poll::Ready(Event::SubClosed(result));
                }
            },
            Poll::Pending => {},
        }
        match broadcast_closed {
            Some(err) => {
                return Poll::Ready(Event::BroadcastClosed(err));
            },
            None => {},
        }
        if linger_expired && self.lingering {
            return Poll::Ready(Event::LingerExpired);
        }
        Poll::Pending
    }

    /// Apply a subscription-demand change: open the upstream SUBSCRIBE on the first
    /// subscriber, resume/update it while live, or pause it when the last leaves.
    pub fn handle_subscription(&mut self, demand: Option<Subscription>, latest: Option<u64>) -> (r:
        Decision)
        ensures
            (final(self).sub, r) == decide(
                old(self).version,
                old(self).accepted,
                old(self).completed,
                old(self).sub,
                latest,
                demand,
            ),
            *final(self) == (TrackServe { sub: final(self).sub, ..*old(self) }),
    {
        let supports_linger: bool = self.supports_linger();
        match demand {
            Some(subscription) => match self.sub {
                None => {
                    if !self.accepted || self.version.has_track_stream() && !self.completed {
                        Decision::Open(subscription)
                    } else {
                        Decision::Nothing
                    }
                },
                Some(active) => {
                    let resumed: SubStream = open_stream(active.id, &subscription);
                    self.sub = Some(resumed);
                    if active.paused || supports_linger {
                        Decision::Update(
                            SubscribeUpdate {
                                priority: resumed.priority,
                                ordered: resumed.ordered,
                                max_latency: resumed.max_latency,
                                start_group: resumed.start_group,
                                end_group: subscription.group_end,
                            },
                        )
                    } else {
                        Decision::Nothing
                    }
                },
            },
            None => match self.sub {
                Some(active) => {
                    if !supports_linger || active.paused {
                        return Decision::Nothing;
                    }
                    self.sub = Some(SubStream { paused: true, start_group: None, ..active });
                    let cap: u64 = match latest {
                        Some(latest) => latest,
                        None => 0,
                    };
                    Decision::Update(
                        SubscribeUpdate {
                            priority: 0,
                            ordered: active.ordered,
                            max_latency: active.max_latency,
                            start_group: None,
                            end_group: Some(cap),
                        },
                    )
                },
                None => Decision::Nothing,
            },
        }
    }

    /// The SUBSCRIBE that opens the upstream.
    pub fn subscribe_message(&self, id: u64, subscription: &Subscription) -> (r: Subscribe)
        ensures
            r.id == id,
            r.broadcast@ == self.path@,
            r.track@ == self.name@,
            r.priority == subscription.priority,
            r.ordered == subscription.ordered,
            r.max_latency == subscription.stale,
            r.start_group == subscription.group_start,
            r.end_group == subscription.group_end,
    {
        Subscribe {
            id,
            broadcast: self.path.clone(),
            track: self.name.clone(),
            priority: subscription.priority,
            ordered: subscription.ordered,
            max_latency: subscription.stale,
            start_group: subscription.group_start,
            end_group: subscription.group_end,
        }
    }

    /// The SUBSCRIBE was sent. From lite-05 on that is all: acceptance is implicit. Before,
    /// the first answer has to be a SUBSCRIBE_OK, which promotes the pending request with
    /// default properties; anything else is a protocol violation.
    ///
    /// The subscription that was just sent is not reported as a change again.
    pub fn establish(
        &mut self,
        track: Track,
        id: u64,
        subscription: &Subscription,
        response: Option<SubscribeResponse>,
    ) -> (r: (Track, Result<(), Error>))
        requires
            track.well_formed(),
            old(self).accepted == (track is Active),
            old(self).version.rank() >= 5 ==> old(self).accepted,
        ensures
            r.0.well_formed(),
            r.0.identity() == track.identity(),
            ({
                let agreed = old(self).version.rank() >= 5 || (response matches Some(
                    SubscribeResponse::Accepted(_),
                ));
                &&& r.1 == if agreed {
                    Ok::<(), Error>(())
                } else {
                    Err(Error::ProtocolViolation)
                }
                &&& *final(self) == if agreed {
                    (TrackServe {
                        accepted: true,
                        sub: Some(stream_for(id, *subscription)),
                        ..*old(self)
                    })
                } else {
                    *old(self)
                }
                &&& if !agreed || track is Active {
                    r.0 == track
                } else {
                    &&& r.0 is Active
                    &&& r.0@ == (TrackModel {
                        info: Some(track::Info::spec_default()),
                        dynamic: (track@.dynamic - 1) as nat,
                        ..track@
                    })
                    &&& r.0.seen() == track@.demand()
                }
            }),
    {
        if !self.version.has_track_stream() {
            let agreed: bool = match response {
                Some(SubscribeResponse::Accepted(_)) => true,
                _ => false,
            };
            if !agreed {
                return (track, Err(Error::ProtocolViolation));
            }
        }
        self.accepted = true;
        self.sub = Some(open_stream(id, subscription));
        match track {
            Track::Active(producer) => (Track::Active(producer), Ok(())),
            Track::Pending(request) => {
                let mut producer: track::Producer = request.accept(None);
                // The accepted producer starts with a fresh subscription cursor. Prime it.
                let _ = producer.poll_subscription_changed();
                (Track::Active(producer), Ok(()))
            },
        }
    }

    /// What to do after an event. `latest` is the latest cached sequence.
    pub fn on_event(&mut self, event: Event, latest: Option<u64>) -> (r: Action)
        requires
            old(self).fetches < u64::MAX,
            event is FetchDone ==> old(self).fetches > 0,
        ensures
            match event {
                Event::Fetch(request) => {
                    &&& r == Action::Fetch(request)
                    &&& *final(self) == (TrackServe {
                        lingering: false,
                        fetches: (old(self).fetches + 1) as u64,
                        ..*old(self)
                    })
                },
                Event::Subscription(demand) => {
                    let (sub, decision) = decide(
                        old(self).version,
                        old(self).accepted,
                        old(self).completed,
                        old(self).sub,
                        latest,
                        demand,
                    );
                    &&& r == match decision {
                        Decision::Nothing => Action::Continue,
                        Decision::Open(subscription) => Action::Open(subscription),
                        Decision::Update(update) => Action::Update(update),
                    }
                    &&& *final(self) == (TrackServe { lingering: false, sub, ..*old(self) })
                },
                Event::Idle => if old(self).version.rank() >= 3 {
                    &&& r == Action::Linger
                    &&& *final(self) == (TrackServe { lingering: true, ..*old(self) })
                } else {
                    // No SUBSCRIBE_UPDATE to pause with, so there's nothing to keep open.
                    &&& r == Action::Stop(sub_id(old(self).sub), Error::Cancel)
                    &&& *final(self) == *old(self)
                },
                Event::FetchDone => {
                    &&& r == Action::Continue
                    &&& *final(self) == (TrackServe {
                        fetches: (old(self).fetches - 1) as u64,
                        ..*old(self)
                    })
                },
                Event::SubClosed(Ok(_)) => {
                    &&& r == Action::Complete(sub_id(old(self).sub))
                    &&& *final(self) == (TrackServe { completed: true, sub: None, ..*old(self) })
                },
                Event::SubClosed(Err(err)) => {
                    &&& r == Action::Stop(sub_id(old(self).sub), err)
                    &&& *final(self) == *old(self)
                },
                Event::BroadcastClosed(err) => {
                    &&& r == Action::Stop(sub_id(old(self).sub), err)
                    &&& *final(self) == *old(self)
                },
                Event::LingerExpired => {
                    &&& r == Action::Stop(sub_id(old(self).sub), Error::Cancel)
                    &&& *final(self) == *old(self)
                },
            },
    {
        let id: Option<u64> = match self.sub {
            Some(active) => Some(active.id),
            None => None,
        };
        match event {
            Event::Fetch(request) => {
                self.lingering = false;
                self.fetches = self.fetches + 1;
                Action::Fetch(request)
            },
            Event::Subscription(demand) => {
                self.lingering = false;
                match self.handle_subscription(demand, latest) {
                    Decision::Nothing => Action::Continue,
                    Decision::Open(subscription) => Action::Open(subscription),
                    Decision::Update(update) => Action::Update(update),
                }
            },
            Event::Idle => {
                if self.supports_linger() {
                    self.lingering = true;
                    Action::Linger
                } else {
                    Action::Stop(id, Error::Cancel)
                }
            },
            Event::FetchDone => {
                self.fetches = self.fetches - 1;
                Action::Continue
            },
            Event::SubClosed(Ok(_)) => {
                self.completed = true;
                self.sub = None;
                Action::Complete(id)
            },
            Event::SubClosed(Err(err)) => Action::Stop(id, err),
            Event::BroadcastClosed(err) => Action::Stop(id, err),
            Event::LingerExpired => Action::Stop(id, Error::Cancel),
        }
    }

    /// The FETCH for a group that a consumer asked for.
    pub fn fetch_message(&self, request: &GroupRequested) -> (r: Fetch)
        ensures
            r.broadcast@ == self.path@,
            r.track@ == self.name@,
            r.priority == request.priority,
            r.group == request.sequence,
    {
        Fetch {
            broadcast: self.path.clone(),
            track: self.name.clone(),
            priority: request.priority,
            group: request.sequence,
        }
    }
}

/// The properties to serve a fetched group with, should the track not be accepted yet.
pub fn fetch_info(timescale: Option<Timescale>) -> (r: track::Info)
    ensures
        r == (track::Info {
            timescale: match timescale {
                Some(timescale) => timescale,
                None => Timescale::of(1_000),
            },
            ..track::Info::spec_default()
        }),
{
    let info: track::Info = track::Info::default();
    match timescale {
        Some(timescale) => info.with_timescale(timescale),
        None => info,
    }
}

fn open_stream(id: u64, subscription: &Subscription) -> (r: SubStream)
    ensures
        r == stream_for(id, *subscription),
{
    SubStream {
        id,
        paused: false,
        ordered: subscription.ordered,
        max_latency: subscription.stale,
        start_group: subscription.group_start,
        priority: subscription.priority,
    }
}

/// Tear a track down: an accepted one is aborted, a pending one rejected, with `err`.
pub fn finish_track(track: Track, err: Error) -> (r: TrackState)
    requires
        track.well_formed(),
    ensures
        r.well_formed(),
        r@ == match track {
            Track::Active(producer) => if producer@.closed {
                producer@
            } else {
                producer@.aborted(err)
            },
            Track::Pending(request) => (TrackModel {
                abort: Some(err),
                dynamic: (request@.dynamic - 1) as nat,
                closed: request@.dynamic == 1,
                ..request@
            }),
        },
{
    match track {
        Track::Active(producer) => {
            let mut producer: track::Producer = producer;
            let _ = producer.abort(err);
            producer.state
        },
        Track::Pending(request) => request.reject(err),
    }
}

/// A paused upstream resumes: the last subscriber leaving caps it at what is cached, and one
/// that returns gets its preferences through, on the same subscription, without a fresh
/// SUBSCRIBE.
pub proof fn pause_and_resume(
    version: Version,
    completed: bool,
    active: SubStream,
    latest: Option<u64>,
    subscription: Subscription,
)
    requires
        version.rank() >= 3,
        !active.paused,
    ensures
        ({
            let (paused, pause) = decide(version, true, completed, Some(active), latest, None);
            let (resumed, resume) = decide(
                version,
                true,
                completed,
                paused,
                latest,
                Some(subscription),
            );
            &&& pause matches Decision::Update(update) && update.priority == 0 && update.end_group
                is Some
            &&& resumed == Some(stream_for(active.id, subscription))
            &&& resume == Decision::Update(update_for(subscription))
        }),
{
}

/// A track that finished upstream is never subscribed to again.
pub proof fn completed_track_stays_closed(
    version: Version,
    latest: Option<u64>,
    demand: Option<Subscription>,
)
    ensures
        decide(version, true, true, None, latest, demand) == (
            None::<SubStream>,
            Decision::Nothing,
        ),
{
}

/// The upstream serves what is asked for downstream: as long as there is an upstream
/// subscription and someone to read it, every change of the aggregate is sent on, field by
/// field, on that same subscription, paused or not. Before lite-03 there is no update, so only
/// the record changes.
pub proof fn upstream_follows_demand(
    version: Version,
    accepted: bool,
    completed: bool,
    active: SubStream,
    latest: Option<u64>,
    subscription: Subscription,
)
    ensures
        ({
            let (sub, decision) = decide(
                version,
                accepted,
                completed,
                Some(active),
                latest,
                Some(subscription),
            );
            &&& version.rank() >= 3 || active.paused ==> (decision matches Decision::Update(update)
                && {
                &&& update.priority == subscription.priority
                &&& update.ordered == subscription.ordered
                &&& update.max_latency == subscription.stale
                &&& update.start_group == subscription.group_start
                &&& update.end_group == subscription.group_end
            })
            &&& version.rank() < 3 && !active.paused ==> decision is Nothing
            &&& sub matches Some(stream) && {
                &&& stream.id == active.id
                &&& !stream.paused
                &&& stream.priority == subscription.priority
                &&& stream.ordered == subscription.ordered
                &&& stream.max_latency == subscription.stale
                &&& stream.start_group == subscription.group_start
            }
        }),
{
}

/// When the last reader leaves, the upstream is told once to send nothing past what is cached,
/// at the lowest priority, and is otherwise left as it was. It stays open.
pub proof fn last_reader_pauses_the_upstream(
    version: Version,
    accepted: bool,
    completed: bool,
    active: SubStream,
    latest: Option<u64>,
)
    ensures
        ({
            let (sub, decision) = decide(version, accepted, completed, Some(active), latest, None);
            &&& sub matches Some(stream) && {
                &&& stream.id == active.id
                &&& stream.priority == active.priority
                &&& stream.ordered == active.ordered
                &&& stream.max_latency == active.max_latency
                &&& stream.paused == (version.rank() >= 3 || active.paused)
                &&& decision is Nothing ==> stream == active
            }
            &&& version.rank() >= 3 && !active.paused ==> (decision matches Decision::Update(update)
                && {
                &&& update.priority == 0
                &&& update.ordered == active.ordered
                &&& update.max_latency == active.max_latency
                &&& update.start_group is None
                &&& update.end_group is Some
                &&& latest is Some ==> update.end_group == latest
                &&& latest is None ==> update.end_group == Some(0u64)
            })
            &&& version.rank() < 3 || active.paused ==> decision is Nothing
        }),
{
}

/// The first reader opens one upstream subscription for what it asked for, unless the upstream
/// has finished, or, before lite-05, has been open before. Without a reader and without an
/// upstream there is nothing to do.
pub proof fn first_reader_opens_the_upstream(
    version: Version,
    accepted: bool,
    completed: bool,
    latest: Option<u64>,
    subscription: Subscription,
)
    ensures
        ({
            let (sub, decision) = decide(
                version,
                accepted,
                completed,
                None,
                latest,
                Some(subscription),
            );
            &&& sub is None
            &&& !accepted ==> decision == Decision::Open(subscription)
            &&& version.rank() >= 5 && !completed ==> decision == Decision::Open(subscription)
            &&& accepted && (version.rank() < 5 || completed) ==> decision is Nothing
        }),
        decide(version, accepted, completed, None, latest, None) == (
            None::<SubStream>,
            Decision::Nothing,
        ),
{
}

/// A new upstream subscription is recorded as it was asked for, and is not paused.
pub proof fn opened_upstream_is_recorded(id: u64, subscription: Subscription)
    ensures
        ({
            let stream = stream_for(id, subscription);
            &&& stream.id == id
            &&& !stream.paused
            &&& stream.priority == subscription.priority
            &&& stream.ordered == subscription.ordered
            &&& stream.max_latency == subscription.stale
            &&& stream.start_group == subscription.group_start
        }),
        sub_id(Some(stream_for(id, subscription))) == Some(id),
        sub_id(None) is None,
{
}

/// The readers of a track are heard in order of urgency, and nothing of theirs is missed: a
/// waiting fetch first, then an aggregate that differs from the one reported last, then that
/// all of them left. A track that is over is reported as such. With none of these there is
/// nothing to report.
pub proof fn demand_is_reported(
    serve: TrackServe,
    track: TrackModel,
    seen: Option<Subscription>,
)
    ensures
        ({
            let event = demand_event(serve, track, seen);
            let over = track.closed || track.fetches.len() == 0 && track.abort is Some;
            let idle = !serve.lingering && serve.fetches == 0 && track.consumers == 0;
            &&& over <==> event is Some && event->Some_0 is BroadcastClosed
            &&& event matches Some(Event::BroadcastClosed(err)) ==> err == match track.abort {
                Some(err) => err,
                None => Error::Dropped,
            }
            &&& !track.closed && track.fetches.len() > 0 ==> event == Some(
                Event::Fetch(track.fetches[0]),
            )
            &&& !over && track.fetches.len() == 0 && aggregate(track.subscriptions) != seen
                ==> event == Some(Event::Subscription(aggregate(track.subscriptions)))
            &&& !over && track.fetches.len() == 0 && aggregate(track.subscriptions) == seen
                ==> event == if idle {
                Some(Event::Idle)
            } else {
                None
            }
        }),
{
}

} // verus!
