//! A broadcast is a named collection of tracks.
//!
//! A [`Producer`] creates tracks on demand: a [`Consumer`] asks for one by name, and the
//! producer either serves a track it already has or is handed a [`track::Request`] to fill.
//! A broadcast closes when its last producer or handler is gone.
//!
//! [`Info`] is the static metadata; [`Route`] is the dynamic path the broadcast takes to
//! reach an origin, including whether it is announced to subscribers.

use std::collections::VecDeque;

use vstd::prelude::*;
use vstd::string::*;

use crate::error::Error;
use crate::keyed::KeyMap;
use crate::model::channels::Channels;
use crate::model::origin;
use crate::model::requests::Requests;
use crate::model::route::{Route, RouteModel};
use crate::model::subscription::Subscription;
use crate::model::track;
use crate::model::track::model::TrackModel;
use crate::model::weak_cache::{
    collected, gc_keeps_live, gc_only_removes, without_key, Probe, WeakCache,
};
use crate::poll::Poll;
use crate::text::{decimal, decimal_string};

verus! {

/// A collection of media tracks that can be published and subscribed to.
///
/// This is the broadcast's static identity, fixed for its lifetime; the path it takes to
/// get here is the dynamic [`Route`].
#[derive(Clone, Copy, Debug, PartialEq, Eq, Structural)]
#[non_exhaustive]
pub struct Info {
    /// The origin this broadcast belongs to (its identity, and the cache pool its tracks and
    /// groups inherit). Defaults to an unknown origin with an unbounded pool (a standalone
    /// broadcast with no relay origin).
    pub origin: origin::Info,
}

impl Default for Info {
    fn default() -> (r: Info)
        ensures
            r.origin.id == origin::Origin::of(0),
            r.origin.pool.capacity is None,
    {
        Info { origin: origin::Info::default() }
    }
}

impl Info {
    /// A broadcast with default metadata.
    pub fn new() -> (r: Info)
        ensures
            r.origin.id == origin::Origin::of(0),
            r.origin.pool.capacity is None,
    {
        Info::default()
    }

    /// Consume this [`Info`] to create a producer that carries its metadata, on the given
    /// channel.
    pub fn produce(self, channel: u64) -> (r: Producer)
        ensures
            r.info == self,
            r.channel == channel,
            r.state.well_formed(),
            r.state@ == BroadcastModel::fresh(None),
    {
        Producer::new(self, channel)
    }
}

/// The spliced (route-fed) half of a broadcast: logical tracks that outlive any single
/// session, plus the queue of tracks awaiting a serving route.
pub struct Spliced {
    /// The channels of logical tracks by name: they live as long as the broadcast, not as
    /// long as any consumer.
    pub tracks: KeyMap<String, u64>,
    /// Names awaiting assignment to a route, in request order.
    pub pending: VecDeque<String>,
}

/// What a [`Spliced`] stands for.
pub struct SplicedModel {
    pub tracks: Map<Seq<char>, u64>,
    pub pending: Seq<Seq<char>>,
}

/// The names of a queue.
pub open spec fn names(queue: Seq<String>) -> Seq<Seq<char>> {
    queue.map_values(|name: String| name@)
}

impl View for Spliced {
    type V = SplicedModel;

    open spec fn view(&self) -> SplicedModel {
        SplicedModel { tracks: self.tracks@, pending: names(self.pending@) }
    }
}

/// What a pending track request stands for.
pub struct RequestModel {
    pub name: Seq<char>,
    pub broadcast: Info,
    pub channel: u64,
    pub track: TrackModel,
    pub prev_subscription: Option<Subscription>,
}

/// What a pending track request stands for.
pub open spec fn request_model(request: track::Request) -> RequestModel {
    RequestModel {
        name: request.name@,
        broadcast: request.broadcast,
        channel: request.channel,
        track: request@,
        prev_subscription: request.prev_subscription,
    }
}

/// What pending track requests stand for.
pub open spec fn request_models(requests: Seq<track::Request>) -> Seq<RequestModel> {
    requests.map_values(|request: track::Request| request_model(request))
}

/// The state of a broadcast.
pub struct BroadcastState {
    /// The channels of tracks by name, for deduplication. A closed one is reclaimed
    /// incrementally, so a long-lived broadcast churning distinct track names stays bounded
    /// by the live count.
    pub tracks: WeakCache<String>,
    /// Pending requests keyed by track name, coalescing concurrent lookups and waiting for a
    /// dynamic handler to accept or deny them. A request leaves here once handed out.
    pub requests: Requests<String, track::Request>,
    /// Route-fed mode: tracks are spliced logical tracks joined across per-session tracks.
    /// `None` for an ordinary broadcast.
    pub spliced: Option<Spliced>,
    /// The path the broadcast currently takes to reach us.
    pub route: Route,
    /// Bumped on every change of the route so consumers can watch for updates.
    pub route_epoch: u64,
    /// Set by an explicit finish or abort, to tell a deliberate shutdown apart from a
    /// producer dropped by accident.
    pub closing: bool,
    /// The number of producers and handlers. None left means that the broadcast is closed.
    pub alive: usize,
    /// The number for the next track's channel.
    pub next_channel: u64,
}

/// What a [`BroadcastState`] stands for.
pub struct BroadcastModel {
    pub tracks: Map<Seq<char>, u64>,
    pub ring: Seq<Probe<Seq<char>>>,
    pub request_names: Seq<Seq<char>>,
    pub requests: Seq<RequestModel>,
    pub handlers: nat,
    pub spliced: Option<SplicedModel>,
    pub route: RouteModel,
    pub route_epoch: u64,
    pub closing: bool,
    pub alive: nat,
    pub next_channel: u64,
}

impl View for BroadcastState {
    type V = BroadcastModel;

    open spec fn view(&self) -> BroadcastModel {
        BroadcastModel {
            tracks: self.tracks.map(),
            ring: self.tracks.ring(),
            request_names: self.requests.ids(),
            requests: request_models(self.requests.values()),
            handlers: self.requests.handlers() as nat,
            spliced: match self.spliced {
                Some(spliced) => Some(spliced@),
                None => None,
            },
            route: self.route@,
            route_epoch: self.route_epoch,
            closing: self.closing,
            alive: self.alive as nat,
            next_channel: self.next_channel,
        }
    }
}

/// What a lookup of a track finds.
pub enum Lookup {
    /// Nothing, and why.
    Missing(Error),
    /// A logical track that is there already.
    Logical(u64),
    /// A new logical track.
    NewLogical(u64),
    /// A live track.
    Live(u64),
    /// A pending request, at this place.
    Joined(int),
    /// A new request.
    Requested(u64),
}

impl BroadcastModel {
    /// A broadcast that nothing was done with.
    pub open spec fn fresh(spliced: Option<SplicedModel>) -> BroadcastModel {
        BroadcastModel {
            tracks: Map::empty(),
            ring: seq![],
            request_names: seq![],
            requests: seq![],
            handlers: 0,
            spliced,
            route: RouteModel::direct(false),
            route_epoch: 0,
            closing: false,
            alive: 1,
            next_channel: 0,
        }
    }

    /// The channel of the live track `name`, if there is one.
    pub open spec fn live_track(self, name: Seq<char>, closed: Set<u64>) -> Option<u64> {
        if self.tracks.contains_key(name) && !closed.contains(self.tracks[name]) {
            Some(self.tracks[name])
        } else {
            None
        }
    }

    /// The broadcast with a track entered under a name that no live track holds.
    pub open spec fn entered(self, name: Seq<char>, channel: u64, closed: Set<u64>) -> Self {
        let (tracks, ring) = collected(self.tracks.insert(name, channel), self.ring, closed);
        BroadcastModel { tracks, ring: ring.push((name, channel)), ..self }
    }

    /// What a lookup of the track `name` finds.
    pub open spec fn lookup(self, name: Seq<char>, closed: Set<u64>) -> Lookup {
        if self.alive == 0 {
            Lookup::Missing(Error::Dropped)
        } else if self.spliced is Some {
            let tracks = self.spliced->Some_0.tracks;
            if tracks.contains_key(name) {
                Lookup::Logical(tracks[name])
            } else {
                Lookup::NewLogical(self.next_channel)
            }
        } else if self.live_track(name, closed) is Some {
            Lookup::Live(self.tracks[name])
        } else if self.request_names.contains(name) {
            Lookup::Joined(first_place(self.request_names, name))
        } else if self.closing || self.handlers == 0 {
            Lookup::Missing(Error::NotFound)
        } else {
            Lookup::Requested(self.next_channel)
        }
    }

    /// The broadcast after a lookup of the track `name`.
    pub open spec fn looked_up(self, info: Info, name: Seq<char>, closed: Set<u64>) -> Self {
        let pruned = BroadcastModel { tracks: self.tracks.remove(name), ..self };
        match self.lookup(name, closed) {
            Lookup::Missing(_) => if self.alive == 0 {
                self
            } else {
                pruned
            },
            Lookup::Logical(_) => self,
            Lookup::NewLogical(channel) => BroadcastModel {
                spliced: Some(
                    SplicedModel {
                        tracks: self.spliced->Some_0.tracks.insert(name, channel),
                        pending: self.spliced->Some_0.pending.push(name),
                    },
                ),
                next_channel: (self.next_channel + 1) as u64,
                ..self
            },
            Lookup::Live(_) => self,
            Lookup::Joined(i) => BroadcastModel {
                requests: pruned.requests.update(i, consumed(pruned.requests[i])),
                ..pruned
            },
            Lookup::Requested(channel) => BroadcastModel {
                request_names: self.request_names.push(name),
                requests: self.requests.push(consumed(new_request(info, name, channel))),
                next_channel: (self.next_channel + 1) as u64,
                ..pruned
            },
        }
    }

    /// Whether anyone wants the broadcast's content: a track in `used`, or a pending request.
    pub open spec fn is_used(self, used: Set<u64>) -> bool {
        match self.spliced {
            Some(spliced) => exists|name: Seq<char>| #[trigger]
                spliced.tracks.contains_key(name) && used.contains(spliced.tracks[name]),
            None => self.requests.len() > 0 || exists|name: Seq<char>| #[trigger]
                self.tracks.contains_key(name) && used.contains(self.tracks[name]),
        }
    }
}

/// Whether some track has the channel.
pub open spec fn holds_channel(tracks: Map<Seq<char>, u64>, channel: u64) -> bool {
    exists|name: Seq<char>| #[trigger] tracks.contains_key(name) && tracks[name] == channel
}

/// The first place of `name` in `names`.
pub open spec fn first_place(names: Seq<Seq<char>>, name: Seq<char>) -> int
    decreases names.len(),
{
    if names.len() == 0 || names[0] == name {
        0
    } else {
        1 + first_place(names.skip(1), name)
    }
}

proof fn first_place_is(names: Seq<Seq<char>>, name: Seq<char>, i: int)
    requires
        0 <= i < names.len(),
        names[i] == name,
        !names.take(i).contains(name),
    ensures
        first_place(names, name) == i,
    decreases i,
{
    if i > 0 {
        assert(names.take(i)[0] == names[0]);
        assert(names[0] != name);
        let rest = names.skip(1);
        assert(!rest.take(i - 1).contains(name)) by {
            if rest.take(i - 1).contains(name) {
                let j = rest.take(i - 1).index_of(name);
                assert(names.take(i)[j + 1] == name);
            }
        }
        first_place_is(rest, name, i - 1);
    }
}

/// A request with one more reader.
pub open spec fn consumed(request: RequestModel) -> RequestModel {
    RequestModel {
        track: TrackModel { consumers: request.track.consumers + 1, ..request.track },
        ..request
    }
}

/// A request that nothing was done with.
pub open spec fn new_request(info: Info, name: Seq<char>, channel: u64) -> RequestModel {
    RequestModel {
        name,
        broadcast: info,
        channel,
        track: TrackModel { dynamic: 1, ..TrackModel::empty(None) },
        prev_subscription: None,
    }
}

/// The name `{i}{suffix}`.
pub open spec fn numbered(i: nat, suffix: Seq<char>) -> Seq<char> {
    decimal(i) + suffix
}

impl BroadcastState {
    /// What every broadcast satisfies: requests wait only while someone can serve them, and
    /// each is a valid request whose readers can be counted.
    pub open spec fn well_formed(&self) -> bool {
        &&& self.requests.ids().len() == self.requests.values().len()
        &&& forall|i: int|
            0 <= i < self.requests.values().len() ==> (
            #[trigger] self.requests.values()[i]).well_formed()
        &&& self.requests.handlers() == 0 ==> self.requests.ids().len() == 0
        &&& self.requests.handlers() <= self.alive
        &&& self.spliced matches Some(spliced) ==> forall|i: int|
            0 <= i < spliced@.pending.len() ==> spliced@.tracks.contains_key(
                #[trigger] spliced@.pending[i],
            )
    }

    /// A broadcast that nothing was done with.
    fn new(spliced: Option<Spliced>) -> (r: BroadcastState)
        requires
            spliced matches Some(spliced) ==> spliced@.pending.len() == 0,
        ensures
            r.well_formed(),
            r@ == BroadcastModel::fresh(
                match spliced {
                    Some(spliced) => Some(spliced@),
                    None => None,
                },
            ),
    {
        let r: BroadcastState = BroadcastState {
            tracks: WeakCache::new(),
            requests: Requests::new(),
            spliced,
            route: Route::new(),
            route_epoch: 0,
            closing: false,
            alive: 1,
            next_channel: 0,
        };
        assert(r@.requests =~= seq![]);
        r
    }

    /// Enter a track into the lookup, returning an error if a live track already holds the
    /// name. A closed entry under the name is reclaimed.
    pub fn insert_track(&mut self, name: String, channel: u64, closed: &Channels) -> (r: Result<
        (),
        Error,
    >)
        requires
            old(self).well_formed(),
        ensures
            final(self).well_formed(),
            if old(self)@.live_track(name@, closed@) is Some {
                &&& r == Err::<(), Error>(Error::Duplicate)
                &&& final(self)@ == old(self)@
            } else {
                &&& r is Ok
                &&& final(self)@ == old(self)@.entered(name@, channel, closed@)
            },
    {
        match self.tracks.insert(name, channel, closed) {
            Some(_) => Err(Error::Duplicate),
            None => Ok(()),
        }
    }

    /// Whether there is live demand, given the channels that are in use: a used logical track
    /// (route-fed broadcast), or a pending request or used track (ordinary broadcast).
    pub fn is_used(&self, used: &Channels) -> (r: bool)
        requires
            self.well_formed(),
        ensures
            r == self@.is_used(used@),
    {
        match &self.spliced {
            Some(spliced) => {
                let n: usize = spliced.tracks.len();
                let mut i: usize = 0;
                while i < n
                    invariant
                        n == spliced.tracks.order().len(),
                        i <= n,
                        self.spliced == Some(*spliced),
                        spliced.tracks.order().to_set() == spliced.tracks@.dom(),
                        forall|j: int|
                            0 <= j < i ==> !used@.contains(
                                spliced.tracks@[#[trigger] spliced.tracks.order()[j]],
                            ),
                    decreases n - i,
                {
                    let (_, channel): (&String, &u64) = spliced.tracks.nth(i);
                    if used.contains(*channel) {
                        assert(self@.spliced == Some(spliced@));
                        proof {
                            let name: Seq<char> = spliced.tracks.order()[i as int];
                            let tracks = self@.spliced->Some_0.tracks;
                            assert(tracks.contains_key(name) && used@.contains(tracks[name]));
                        }
                        return true;
                    }
                    i += 1;
                }
                proof {
                    assert(self@.spliced == Some(spliced@));
                    assert forall|name: Seq<char>| #[trigger]
                        spliced@.tracks.contains_key(name) implies !used@.contains(
                        spliced@.tracks[name],
                    ) by {
                        assert(spliced.tracks.order().to_set().contains(name));
                        let j = spliced.tracks.order().index_of(name);
                        assert(spliced.tracks.order()[j] == name);
                    }
                }
                false
            },
            None => {
                let found: bool = self.tracks.any_in(used);
                assert(self@.spliced is None);
                assert(self@.tracks == self.tracks.map());
                !self.requests.is_empty() || found
            },
        }
    }

    /// Get a handle to a track.
    ///
    /// The reader of a live or logical track is to be counted on that track's state; the one
    /// of a request is counted already.
    #[verifier::rlimit(40)]
    pub fn track(&mut self, info: Info, name: &String, closed: &Channels) -> (r: Result<
        track::Consumer,
        Error,
    >)
        requires
            old(self).well_formed(),
            old(self).next_channel < u64::MAX,
            forall|i: int|
                0 <= i < old(self).requests.values().len() ==> (
                #[trigger] old(self).requests.values()[i]).state.consumers < usize::MAX,
        ensures
            final(self).well_formed(),
            final(self)@ == old(self)@.looked_up(info, name@, closed@),
            match old(self)@.lookup(name@, closed@) {
                Lookup::Missing(err) => r matches Err(e) && e == err,
                Lookup::Logical(channel) | Lookup::NewLogical(channel) | Lookup::Live(channel)
                | Lookup::Requested(channel) => r matches Ok(consumer) && consumer.name@ == name@
                    && consumer.channel == channel,
                Lookup::Joined(i) => r matches Ok(consumer) && consumer.name@
                    == old(self)@.requests[i].name && consumer.channel
                    == old(self)@.requests[i].channel,
            },
    {
        // A closed broadcast (every producer and handler gone) serves nothing.
        if self.alive == 0 {
            return Err(Error::Dropped);
        }
        // A route-fed broadcast mints spliced logical tracks: they outlive any session, and a
        // route is asked (via the pending queue) to start serving.
        match &mut self.spliced {
            Some(spliced) => {
                let known: Option<u64> = match spliced.tracks.get(name) {
                    Some(channel) => Some(*channel),
                    None => None,
                };
                match known {
                    Some(channel) => {
                        return Ok(track::Consumer { name: name.clone(), channel });
                    },
                    None => {},
                }
                let channel: u64 = self.next_channel;
                let ghost before = names(spliced.pending@);
                let _ = spliced.tracks.insert(name.clone(), channel);
                spliced.pending.push_back(name.clone());
                assert(names(spliced.pending@) =~= before.push(name@));
                self.next_channel = channel + 1;
                return Ok(track::Consumer { name: name.clone(), channel });
            },
            None => {},
        }
        // Reuse a live track if one is already being published. A closed entry is dropped, so
        // we fall through to a fresh request.
        match self.tracks.get(name, closed) {
            Some(channel) => {
                return Ok(track::Consumer { name: name.clone(), channel });
            },
            None => {},
        }
        match self.requests.find(name) {
            Some(i) => {
                // Coalesce onto a queued request for the same name.
                proof {
                    assert(self.requests.ids() == old(self)@.request_names);
                    first_place_is(old(self)@.request_names, name@, i as int);
                }
                let ghost values = self.requests.values();
                let consumer: track::Consumer = self.requests.at(i).consume();
                assert(self@.requests =~= old(self)@.requests.update(
                    i as int,
                    consumed(old(self)@.requests[i as int]),
                ));
                return Ok(consumer);
            },
            None => {},
        }
        // A deliberately-ended broadcast serves nothing new; existing tracks above stay
        // readable so consumers can drain the cache.
        if self.closing {
            return Err(Error::NotFound);
        }
        let channel: u64 = self.next_channel;
        let mut request: track::Request = track::Request::new(info, name.clone(), channel);
        let consumer: track::Consumer = request.consume();
        let ghost model = request_model(request);
        // With no handler alive to serve it, the request is dropped: `NotFound` beats handing
        // back a consumer that would only resolve `Dropped`.
        match self.requests.insert(name.clone(), request) {
            Err(_) => {
                return Err(Error::NotFound);
            },
            Ok(()) => {},
        }
        assert(self@.requests =~= old(self)@.requests.push(model));
        self.next_channel = channel + 1;
        Ok(consumer)
    }
}

/// Manages tracks within a broadcast.
///
/// Create tracks up front with [`Self::create_track`], reserve a name to fill in later with
/// [`Self::reserve_track`], or handle on-demand consumer requests via [`Self::dynamic`].
pub struct Producer {
    /// The broadcast's static metadata.
    pub info: Info,
    /// Which broadcast this is.
    pub channel: u64,
    /// The tracks, the requests and the route.
    pub state: BroadcastState,
}

impl Producer {
    /// Create a producer for the given broadcast metadata.
    pub fn new(info: Info, channel: u64) -> (r: Producer)
        ensures
            r.info == info,
            r.channel == channel,
            r.state.well_formed(),
            r.state@ == BroadcastModel::fresh(None),
    {
        Producer { info, channel, state: BroadcastState::new(None) }
    }

    /// Create a route-fed (spliced) broadcast: track lookups mint logical tracks that are
    /// spliced across per-session tracks, queued for a route to serve.
    pub fn new_spliced(info: Info, channel: u64) -> (r: Producer)
        ensures
            r.info == info,
            r.channel == channel,
            r.state.well_formed(),
            r.state@ == BroadcastModel::fresh(
                Some(SplicedModel { tracks: Map::empty(), pending: seq![] }),
            ),
    {
        let spliced: Spliced = Spliced { tracks: KeyMap::new(), pending: VecDeque::new() };
        assert(spliced@.pending =~= seq![]);
        Producer { info, channel, state: BroadcastState::new(Some(spliced)) }
    }

    /// Whether two values are the same producer, but for the broadcast's state.
    pub open spec fn same_handle(&self, other: &Producer) -> bool {
        self.info == other.info && self.channel == other.channel
    }

    /// The broadcast's static metadata, fixed when it was created.
    pub fn info(&self) -> (r: &Info)
        ensures
            *r == self.info,
    {
        &self.info
    }

    /// A watch-only handle to the broadcast's demand. See [`Demand`].
    pub fn demand(&self) -> (r: Demand)
        ensures
            r.channel == self.channel,
    {
        Demand { channel: self.channel }
    }

    /// Remove a track from the lookup.
    pub fn remove_track(&mut self, name: &String) -> (r: Result<(), Error>)
        requires
            old(self).state.well_formed(),
        ensures
            final(self).state.well_formed(),
            final(self).same_handle(old(self)),
            r == if old(self).state@.tracks.contains_key(name@) {
                Ok::<(), Error>(())
            } else {
                Err(Error::NotFound)
            },
            final(self).state@ == (BroadcastModel {
                tracks: old(self).state@.tracks.remove(name@),
                ring: without_key(old(self).state@.ring, name@),
                ..old(self).state@
            }),
    {
        match self.state.tracks.remove(name) {
            Some(_) => Ok(()),
            None => Err(Error::NotFound),
        }
    }

    /// Produce a new track and enter it into the broadcast.
    pub fn create_track(&mut self, name: String, info: Option<track::Info>, closed: &Channels) -> (r:
        Result<track::Producer, Error>)
        requires
            old(self).state.well_formed(),
            old(self).state.next_channel < u64::MAX,
        ensures
            final(self).state.well_formed(),
            final(self).same_handle(old(self)),
            if old(self).state@.live_track(name@, closed@) is Some {
                &&& r matches Err(e) && e == Error::Duplicate
                &&& final(self).state@ == old(self).state@
            } else {
                let channel = old(self).state@.next_channel;
                &&& r matches Ok(track) && track.well_formed() && track.name@ == name@
                    && track.broadcast == old(self).info && track.channel == channel
                    && track.prev_subscription is None && track@ == TrackModel::empty(
                    Some(
                        match info {
                            Some(info) => info,
                            None => track::Info::spec_default(),
                        },
                    ),
                )
                &&& final(self).state@ == (BroadcastModel {
                    next_channel: (channel + 1) as u64,
                    ..old(self).state@.entered(name@, channel, closed@)
                })
            },
    {
        let channel: u64 = self.state.next_channel;
        let track: track::Producer = track::Producer::new(
            self.info,
            name.clone(),
            info,
            channel,
        );
        self.state.insert_track(name, channel, closed)?;
        self.state.next_channel = channel + 1;
        Ok(track)
    }

    /// Reserve a track by name without finalizing its info.
    ///
    /// Returns a [`track::Request`] already discoverable by consumers. Use this when the
    /// producer can't pick the track's properties (e.g. timescale) until it has inspected the
    /// media.
    pub fn reserve_track(&mut self, name: String, closed: &Channels) -> (r: Result<
        track::Request,
        Error,
    >)
        requires
            old(self).state.well_formed(),
            old(self).state.next_channel < u64::MAX,
        ensures
            final(self).state.well_formed(),
            final(self).same_handle(old(self)),
            if old(self).state@.live_track(name@, closed@) is Some {
                &&& r matches Err(e) && e == Error::Duplicate
                &&& final(self).state@ == old(self).state@
            } else {
                let channel = old(self).state@.next_channel;
                &&& r matches Ok(request) && request.well_formed() && request_model(request)
                    == new_request(old(self).info, name@, channel)
                &&& final(self).state@ == (BroadcastModel {
                    next_channel: (channel + 1) as u64,
                    ..old(self).state@.entered(name@, channel, closed@)
                })
            },
    {
        let channel: u64 = self.state.next_channel;
        let request: track::Request = track::Request::new(self.info, name.clone(), channel);
        self.state.insert_track(name, channel, closed)?;
        self.state.next_channel = channel + 1;
        Ok(request)
    }

    /// Generate a unique track name from a suffix without creating the track.
    ///
    /// Returns a fresh name like `0{suffix}`, `1{suffix}`, etc.
    pub fn unique_name(&self, suffix: &str) -> (r: String)
        requires
            exists|i: u16| !#[trigger]
                self.state@.tracks.contains_key(numbered(i as nat, suffix@)),
        ensures
            exists|i: u16|
                {
                    &&& r@ == #[trigger] numbered(i as nat, suffix@)
                    &&& !self.state@.tracks.contains_key(r@)
                    &&& forall|j: u16|
                        j < i ==> self.state@.tracks.contains_key(
                            #[trigger] numbered(j as nat, suffix@),
                        )
                },
    {
        let mut i: u16 = 0;
        loop
            invariant
                exists|k: u16| !#[trigger]
                    self.state@.tracks.contains_key(numbered(k as nat, suffix@)),
                forall|j: u16|
                    j < i ==> self.state@.tracks.contains_key(
                        #[trigger] numbered(j as nat, suffix@),
                    ),
            decreases u16::MAX - i,
        {
            let name: String = decimal_string(i as u128).concat(suffix);
            assert(name@ =~= numbered(i as nat, suffix@));
            if !self.state.tracks.contains_key(&name) {
                return name;
            }
            proof {
                let k = choose|k: u16| !#[trigger]
                    self.state@.tracks.contains_key(numbered(k as nat, suffix@));
                assert(k > i);
            }
            i += 1;
        }
    }

    /// Create a track with a unique name using the given suffix.
    pub fn unique_track(
        &mut self,
        suffix: &str,
        info: Option<track::Info>,
        closed: &Channels,
    ) -> (r: Result<track::Producer, Error>)
        requires
            old(self).state.well_formed(),
            old(self).state.next_channel < u64::MAX,
            exists|i: u16| !#[trigger]
                old(self).state@.tracks.contains_key(numbered(i as nat, suffix@)),
        ensures
            final(self).state.well_formed(),
            final(self).same_handle(old(self)),
            r matches Ok(track) && track.well_formed() && track.broadcast == old(self).info
                && track.channel == old(self).state@.next_channel && track.prev_subscription is None
                && track@ == TrackModel::empty(
                Some(
                    match info {
                        Some(info) => info,
                        None => track::Info::spec_default(),
                    },
                ),
            ) && {
                &&& !old(self).state@.tracks.contains_key(track.name@)
                &&& exists|i: u16|
                    {
                        &&& track.name@ == #[trigger] numbered(i as nat, suffix@)
                        &&& forall|j: u16|
                            j < i ==> old(self).state@.tracks.contains_key(
                                #[trigger] numbered(j as nat, suffix@),
                            )
                    }
                &&& final(self).state@ == (BroadcastModel {
                    next_channel: (old(self).state@.next_channel + 1) as u64,
                    ..old(self).state@.entered(
                        track.name@,
                        old(self).state@.next_channel,
                        closed@,
                    )
                })
            },
    {
        let name: String = self.unique_name(suffix);
        self.create_track(name, info, closed)
    }

    /// Create a dynamic producer that handles on-demand track requests from consumers.
    pub fn dynamic(&mut self) -> (r: Dynamic)
        requires
            old(self).state.well_formed(),
            old(self).state.alive < usize::MAX,
        ensures
            final(self).state.well_formed(),
            final(self).same_handle(old(self)),
            r.info == old(self).info,
            r.channel == old(self).channel,
            final(self).state@ == (BroadcastModel {
                handlers: old(self).state@.handlers + 1,
                alive: old(self).state@.alive + 1,
                ..old(self).state@
            }),
    {
        self.state.requests.add_handler();
        self.state.alive = self.state.alive + 1;
        Dynamic { info: self.info, channel: self.channel }
    }

    /// Set the broadcast's [`Route`]: the hop chain and cost it advertises.
    ///
    /// Consumers observe the change via [`Consumer::poll_route_changed`] and sessions forward
    /// it downstream as a restart, never as a new broadcast. Setting the current route again
    /// is a no-op.
    pub fn set_route(&mut self, route: Route) -> (r: Result<(), Error>)
        requires
            old(self).state.well_formed(),
            old(self).state.route_epoch < u64::MAX,
        ensures
            final(self).state.well_formed(),
            final(self).same_handle(old(self)),
            r is Ok,
            final(self).state@ == if old(self).state@.route == route@ {
                old(self).state@
            } else {
                (BroadcastModel {
                    route: route@,
                    route_epoch: (old(self).state@.route_epoch + 1) as u64,
                    ..old(self).state@
                })
            },
    {
        if self.state.route.same(&route) {
            return Ok(());
        }
        self.state.route = route;
        self.state.route_epoch = self.state.route_epoch + 1;
        Ok(())
    }

    /// Poll for the next logical track awaiting a serving route, returning its name and
    /// channel. Route-fed broadcasts only.
    pub fn poll_spliced_assigned(&mut self) -> (r: Poll<(String, u64)>)
        requires
            old(self).state.well_formed(),
        ensures
            final(self).state.well_formed(),
            final(self).same_handle(old(self)),
            match old(self).state@.spliced {
                Some(spliced) => if spliced.pending.len() > 0 {
                    &&& r matches Poll::Ready((name, channel)) && name@ == spliced.pending[0]
                        && channel == spliced.tracks[spliced.pending[0]]
                    &&& final(self).state@ == (BroadcastModel {
                        spliced: Some(
                            SplicedModel { pending: spliced.pending.skip(1), ..spliced },
                        ),
                        ..old(self).state@
                    })
                } else {
                    r is Pending && final(self).state@ == old(self).state@
                },
                None => r is Pending && final(self).state@ == old(self).state@,
            },
    {
        match &mut self.state.spliced {
            None => Poll::Pending,
            Some(spliced) => {
                let ghost before = spliced@;
                match spliced.pending.pop_front() {
                    None => {
                        assert(spliced@.pending =~= before.pending);
                        Poll::Pending
                    },
                    Some(name) => {
                        proof {
                            assert(before.pending[0] == name@);
                            assert(spliced@.pending =~= before.pending.skip(1));
                            assert(before.tracks.contains_key(before.pending[0]));
                            assert forall|i: int|
                                0 <= i < spliced@.pending.len() implies spliced@.tracks.contains_key(
                                #[trigger] spliced@.pending[i],
                            ) by {
                                assert(spliced@.pending[i] == before.pending[i + 1]);
                            }
                        }
                        match spliced.tracks.get(&name) {
                            Some(channel) => {
                                let channel: u64 = *channel;
                                Poll::Ready((name, channel))
                            },
                            None => Poll::Pending,
                        }
                    },
                }
            },
        }
    }

    /// Give up every logical track: nothing waits for a route any more, and the channels of
    /// all logical tracks, whose subscribers are to be released, are returned. Called when
    /// the broadcast closes for good.
    pub fn abort_spliced(&mut self) -> (r: Vec<u64>)
        requires
            old(self).state.well_formed(),
        ensures
            final(self).state.well_formed(),
            final(self).same_handle(old(self)),
            match old(self).state@.spliced {
                Some(spliced) => {
                    &&& final(self).state@ == (BroadcastModel {
                        spliced: Some(SplicedModel { pending: seq![], ..spliced }),
                        ..old(self).state@
                    })
                    &&& forall|name: Seq<char>| #[trigger]
                        spliced.tracks.contains_key(name) ==> r@.contains(spliced.tracks[name])
                    &&& forall|i: int|
                        0 <= i < r@.len() ==> holds_channel(spliced.tracks, #[trigger] r@[i])
                    &&& r@.len() == spliced.tracks.len()
                },
                None => r@.len() == 0 && final(self).state@ == old(self).state@,
            },
    {
        let mut channels: Vec<u64> = Vec::new();
        match &mut self.state.spliced {
            None => {},
            Some(spliced) => {
                spliced.pending = VecDeque::new();
                assert(spliced@.pending =~= seq![]);
            },
        }
        match &self.state.spliced {
            None => {},
            Some(spliced) => {
                let ghost tracks: Map<Seq<char>, u64> = spliced@.tracks;
                let n: usize = spliced.tracks.len();
                let mut i: usize = 0;
                let ghost order: Seq<Seq<char>> = spliced.tracks.order();
                let all: &KeyMap<String, u64> = &spliced.tracks;
                while i < n
                    invariant
                        n == all.order().len(),
                        order == all.order(),
                        tracks == all@,
                        i <= n,
                        channels@.len() == i,
                        forall|j: int|
                            0 <= j < i ==> tracks.contains_key(#[trigger] order[j]) && channels@[j]
                                == tracks[order[j]],
                    decreases n - i,
                {
                    let (_, channel): (&String, &u64) = all.nth(i);
                    channels.push(*channel);
                    i += 1;
                }
                proof {
                    assert forall|name: Seq<char>| #[trigger]
                        tracks.contains_key(name) implies channels@.contains(tracks[name]) by {
                        assert(order.to_set().contains(name));
                        let j = order.index_of(name);
                        assert(order[j] == name);
                        assert(channels@[j] == tracks[name]);
                    }
                    assert forall|i: int| 0 <= i < channels@.len() implies holds_channel(
                        tracks,
                        #[trigger] channels@[i],
                    ) by {
                        assert(tracks.contains_key(order[i]));
                    }
                    order.unique_seq_to_set();
                }
            },
        }
        channels
    }

    /// Create a consumer that can subscribe to tracks in this broadcast.
    pub fn consume(&self) -> (r: Consumer)
        ensures
            r.info == self.info,
            r.channel == self.channel,
            r.route_seen is None,
    {
        Consumer { info: self.info, channel: self.channel, route_seen: None }
    }

    /// One more producer handle for the same broadcast.
    pub fn share(&mut self)
        requires
            old(self).state.well_formed(),
            old(self).state.alive < usize::MAX,
        ensures
            final(self).state.well_formed(),
            final(self).same_handle(old(self)),
            final(self).state@ == (BroadcastModel {
                alive: old(self).state@.alive + 1,
                ..old(self).state@
            }),
    {
        self.state.alive = self.state.alive + 1;
    }

    /// Cleanly finish the broadcast once you are done publishing.
    ///
    /// Marks the broadcast as deliberately finished and gives this handle up. Only marks
    /// intent; the broadcast actually ends once every producer handle is gone.
    pub fn finish(&mut self)
        requires
            old(self).state.well_formed(),
            old(self).state.requests.handlers() < old(self).state.alive,
        ensures
            final(self).state.well_formed(),
            final(self).same_handle(old(self)),
            final(self).state@ == (BroadcastModel {
                closing: true,
                alive: (old(self).state@.alive - 1) as nat,
                ..old(self).state@
            }),
    {
        self.state.closing = true;
        self.state.alive = self.state.alive - 1;
    }

    /// Mark the broadcast as deliberately ended. Like [`Self::finish`], for callers that keep
    /// the producer.
    pub fn abort(&mut self)
        requires
            old(self).state.well_formed(),
        ensures
            final(self).state.well_formed(),
            final(self).same_handle(old(self)),
            final(self).state@ == (BroadcastModel { closing: true, ..old(self).state@ }),
    {
        self.state.closing = true;
    }

    /// Give a producer handle up. Returns whether this ended the broadcast by accident: it
    /// was the last handle, and nobody finished or aborted the broadcast.
    pub fn release(&mut self) -> (r: bool)
        requires
            old(self).state.well_formed(),
            old(self).state.requests.handlers() < old(self).state.alive,
        ensures
            final(self).state.well_formed(),
            final(self).same_handle(old(self)),
            r == (old(self).state@.alive == 1 && !old(self).state@.closing),
            final(self).state@ == (BroadcastModel {
                alive: (old(self).state@.alive - 1) as nat,
                ..old(self).state@
            }),
    {
        self.state.alive = self.state.alive - 1;
        self.state.alive == 0 && !self.state.closing
    }

    /// Return true if this is the same broadcast instance.
    pub fn is_clone(&self, other: &Producer) -> (r: bool)
        ensures
            r == (self.channel == other.channel),
    {
        self.channel == other.channel
    }
}

/// Handles on-demand track creation for a broadcast.
///
/// When a consumer requests a track that doesn't exist, the dynamic producer picks up the
/// request via [`Self::poll_requested_track`] and either accepts it with a concrete info or
/// rejects it. Pending requests are automatically rejected with the last handler.
pub struct Dynamic {
    /// The broadcast's static metadata.
    pub info: Info,
    /// Which broadcast this serves.
    pub channel: u64,
}

impl Dynamic {
    /// The broadcast's static metadata, fixed when it was created.
    pub fn info(&self) -> (r: &Info)
        ensures
            *r == self.info,
    {
        &self.info
    }

    /// One more handle, counted like this one.
    pub fn share(&self, state: &mut BroadcastState) -> (r: Dynamic)
        requires
            old(state).well_formed(),
            old(state).alive < usize::MAX,
        ensures
            final(state).well_formed(),
            r == *self,
            final(state)@ == (BroadcastModel {
                handlers: old(state)@.handlers + 1,
                alive: old(state)@.alive + 1,
                ..old(state)@
            }),
    {
        state.requests.add_handler();
        state.alive = state.alive + 1;
        Dynamic { info: self.info, channel: self.channel }
    }

    /// Poll for the next consumer-requested track, without blocking.
    ///
    /// Returns [`Error::Closed`] once the broadcast was deliberately ended, so a serving loop
    /// knows to stop and release its handle.
    pub fn poll_requested_track(&self, state: &mut BroadcastState, closed: &Channels) -> (r: Poll<
        Result<track::Request, Error>,
    >)
        requires
            old(state).well_formed(),
        ensures
            final(state).well_formed(),
            if old(state)@.requests.len() > 0 {
                let name = old(state)@.request_names[0];
                let request = old(state)@.requests[0];
                let rest = BroadcastModel {
                    request_names: old(state)@.request_names.skip(1),
                    requests: old(state)@.requests.skip(1),
                    ..old(state)@
                };
                // A live track that already holds the name is kept rather than shadowed.
                &&& r matches Poll::Ready(Ok(found)) && found.well_formed() && request_model(found)
                    == request
                &&& final(state)@ == if rest.live_track(name, closed@) is Some {
                    rest
                } else {
                    rest.entered(name, request.channel, closed@)
                }
            } else {
                &&& final(state)@ == old(state)@
                &&& if old(state)@.closing {
                    r matches Poll::Ready(Err(e)) && e == Error::Closed
                } else {
                    r is Pending
                }
            },
    {
        let ghost values = state.requests.values();
        match state.requests.pop() {
            None => {
                assert(state@.requests =~= old(state)@.requests);
                if state.closing {
                    Poll::Ready(Err(Error::Closed))
                } else {
                    Poll::Pending
                }
            },
            Some((name, pending)) => {
                assert(state@.requests =~= old(state)@.requests.skip(1));
                assert(old(state)@.requests[0] == request_model(pending));
                assert forall|i: int| 0 <= i < state.requests.values().len() implies (
                #[trigger] state.requests.values()[i]).well_formed() by {
                    assert(state.requests.values()[i] == values[i + 1]);
                }
                let _ = state.tracks.insert(name, pending.channel, closed);
                Poll::Ready(Ok(pending))
            },
        }
    }

    /// Create a consumer that can subscribe to tracks in this broadcast.
    pub fn consume(&self) -> (r: Consumer)
        ensures
            r.info == self.info,
            r.channel == self.channel,
            r.route_seen is None,
    {
        Consumer { info: self.info, channel: self.channel, route_seen: None }
    }

    /// Poll until the broadcast closes; ready with the cause (always [`Error::Dropped`],
    /// since a broadcast only ends by every producer dropping).
    pub fn poll_closed(&self, state: &BroadcastState) -> (r: Poll<Error>)
        ensures
            r == if state@.alive == 0 {
                Poll::Ready(Error::Dropped)
            } else {
                Poll::Pending
            },
    {
        if state.alive == 0 {
            Poll::Ready(Error::Dropped)
        } else {
            Poll::Pending
        }
    }

    /// Return true if this is the same broadcast instance.
    pub fn is_clone(&self, other: &Dynamic) -> (r: bool)
        ensures
            r == (self.channel == other.channel),
    {
        self.channel == other.channel
    }

    /// Give the handle up. With no handlers left to fulfill pending requests, they are
    /// rejected with [`Error::Dropped`] so consumers don't block forever on tracks nobody will
    /// serve; their states are returned.
    pub fn release(self, state: &mut BroadcastState) -> (r: Vec<track::TrackState>)
        requires
            old(state).well_formed(),
            old(state).requests.handlers() > 0,
        ensures
            final(state).well_formed(),
            final(state)@ == (BroadcastModel {
                handlers: (old(state)@.handlers - 1) as nat,
                alive: (old(state)@.alive - 1) as nat,
                request_names: if old(state)@.handlers == 1 {
                    seq![]
                } else {
                    old(state)@.request_names
                },
                requests: if old(state)@.handlers == 1 {
                    seq![]
                } else {
                    old(state)@.requests
                },
                ..old(state)@
            }),
            r@.len() == if old(state)@.handlers == 1 {
                old(state)@.requests.len()
            } else {
                0
            },
            forall|i: int|
                0 <= i < r@.len() ==> (#[trigger] r@[i]).well_formed() && r@[i]@ == rejected(
                    old(state)@.requests[i].track,
                    Error::Dropped,
                ),
    {
        let last: bool = state.requests.remove_handler();
        state.alive = state.alive - 1;
        let mut states: Vec<track::TrackState> = Vec::new();
        if last {
            let ghost all = state.requests.values();
            while !state.requests.is_empty()
                invariant
                    state.requests.handlers() == 0,
                    all == old(state).requests.values(),
                    old(state).well_formed(),
                    states@.len() <= all.len(),
                    state.requests.values() == all.skip(states@.len() as int),
                    state.requests.ids().len() == state.requests.values().len(),
                    state.requests.ids() == old(state).requests.ids().skip(states@.len() as int),
                    forall|i: int|
                        0 <= i < states@.len() ==> (#[trigger] states@[i]).well_formed()
                            && states@[i]@ == rejected(
                            request_models(all)[i].track,
                            Error::Dropped,
                        ),
                    state.alive == old(state).alive - 1,
                    state.tracks == old(state).tracks,
                    state.spliced == old(state).spliced,
                    state.route == old(state).route,
                    state.route_epoch == old(state).route_epoch,
                    state.closing == old(state).closing,
                    state.next_channel == old(state).next_channel,
                decreases state.requests.values().len(),
            {
                let ghost k = states@.len() as int;
                match state.requests.pop() {
                    None => {},
                    Some((_, request)) => {
                        assert(all[k] == request);
                        assert(request_models(all)[k] == request_model(request));
                        states.push(request.reject(Error::Dropped));
                        assert(state.requests.values() =~= all.skip(k + 1));
                        assert(state.requests.ids() =~= old(state).requests.ids().skip(k + 1));
                    },
                }
            }
            assert(state@.request_names =~= seq![]);
            assert(state@.requests =~= seq![]);
        }
        states
    }
}

/// A requested track that was rejected.
pub open spec fn rejected(track: TrackModel, err: Error) -> TrackModel {
    TrackModel {
        abort: Some(err),
        dynamic: (track.dynamic - 1) as nat,
        closed: track.dynamic == 1,
        ..track
    }
}

/// Subscribe to arbitrary broadcast/tracks.
pub struct Consumer {
    /// The broadcast's static metadata.
    pub info: Info,
    /// Which broadcast this reads.
    pub channel: u64,
    /// The route epoch last yielded by [`Self::poll_route_changed`], so each consumer clone
    /// observes the current route first and every change after it exactly once.
    pub route_seen: Option<u64>,
}

impl Clone for Consumer {
    /// The clone's cursor is reset so it observes the current route first, even if the
    /// original already drained [`Self::poll_route_changed`].
    fn clone(&self) -> (r: Consumer)
        ensures
            r == (Consumer { route_seen: None, ..*self }),
    {
        Consumer { info: self.info, channel: self.channel, route_seen: None }
    }
}

impl Consumer {
    /// The broadcast's static metadata, fixed when it was created.
    pub fn info(&self) -> (r: &Info)
        ensures
            *r == self.info,
    {
        &self.info
    }

    /// The [`Route`] the broadcast currently takes to reach this origin.
    pub fn route(&self, state: &BroadcastState) -> (r: Route)
        ensures
            r@ == state@.route,
    {
        state.route.clone()
    }

    /// Poll for a route change.
    ///
    /// The first call returns the current route immediately; each later call is pending until
    /// it changes again, so a loop observes the initial value followed by every update.
    /// Returns [`Error::Dropped`] once every producer is gone.
    pub fn poll_route_changed(&mut self, state: &BroadcastState) -> (r: Poll<Result<Route, Error>>)
        ensures
            if old(self).route_seen != Some(state@.route_epoch) {
                &&& r matches Poll::Ready(Ok(route)) && route@ == state@.route
                &&& *final(self) == (Consumer {
                    route_seen: Some(state@.route_epoch),
                    ..*old(self)
                })
            } else {
                &&& *final(self) == *old(self)
                &&& if state@.alive == 0 {
                    r matches Poll::Ready(Err(e)) && e == Error::Dropped
                } else {
                    r is Pending
                }
            },
    {
        let seen: bool = match self.route_seen {
            Some(epoch) => epoch == state.route_epoch,
            None => false,
        };
        if !seen {
            self.route_seen = Some(state.route_epoch);
            return Poll::Ready(Ok(state.route.clone()));
        }
        // No pending change: surface the broadcast's end instead of parking forever.
        if state.alive == 0 {
            Poll::Ready(Err(Error::Dropped))
        } else {
            Poll::Pending
        }
    }

    /// Get a handle to a track on this broadcast. See [`BroadcastState::track`].
    pub fn track(&self, state: &mut BroadcastState, name: &String, closed: &Channels) -> (r: Result<
        track::Consumer,
        Error,
    >)
        requires
            old(state).well_formed(),
            old(state).next_channel < u64::MAX,
            forall|i: int|
                0 <= i < old(state).requests.values().len() ==> (
                #[trigger] old(state).requests.values()[i]).state.consumers < usize::MAX,
        ensures
            final(state).well_formed(),
            final(state)@ == old(state)@.looked_up(self.info, name@, closed@),
            match old(state)@.lookup(name@, closed@) {
                Lookup::Missing(err) => r matches Err(e) && e == err,
                Lookup::Logical(channel) | Lookup::NewLogical(channel) | Lookup::Live(channel)
                | Lookup::Requested(channel) => r matches Ok(consumer) && consumer.name@ == name@
                    && consumer.channel == channel,
                Lookup::Joined(i) => r matches Ok(consumer) && consumer.name@
                    == old(state)@.requests[i].name && consumer.channel
                    == old(state)@.requests[i].channel,
            },
    {
        state.track(self.info, name, closed)
    }

    /// A watch-only handle to the broadcast's demand. See [`Demand`].
    pub fn demand(&self) -> (r: Demand)
        ensures
            r.channel == self.channel,
    {
        Demand { channel: self.channel }
    }

    /// Returns true if every [`Producer`] has been dropped.
    pub fn is_closed(&self, state: &BroadcastState) -> (r: bool)
        ensures
            r == (state@.alive == 0),
    {
        state.alive == 0
    }

    /// Whether the broadcast is on its way out: deliberately ended (even while handles
    /// remain) or already fully closed.
    pub fn is_closing(&self, state: &BroadcastState) -> (r: bool)
        ensures
            r == (state@.alive == 0 || state@.closing),
    {
        state.alive == 0 || state.closing
    }

    /// Whether the broadcast has closed.
    pub fn poll_closed(&self, state: &BroadcastState) -> (r: Poll<()>)
        ensures
            r == if state@.alive == 0 {
                Poll::Ready(())
            } else {
                Poll::Pending
            },
    {
        if state.alive == 0 {
            Poll::Ready(())
        } else {
            Poll::Pending
        }
    }

    /// Check if this is the exact same instance of a broadcast.
    pub fn is_clone(&self, other: &Consumer) -> (r: bool)
        ensures
            r == (self.channel == other.channel),
    {
        self.channel == other.channel
    }
}

/// A watch-only handle to a broadcast's subscriber demand.
///
/// Demand means live interest in the broadcast's content: a subscribed logical track on a
/// route-fed broadcast, or a pending track request / a consumed track on an ordinary one.
/// The handle neither keeps the broadcast alive nor counts as demand itself.
pub struct Demand {
    /// Which broadcast this watches.
    pub channel: u64,
}

impl Demand {
    /// Whether the broadcast has live demand right now, given the channels in use.
    pub fn is_used(&self, state: &BroadcastState, used: &Channels) -> (r: bool)
        requires
            state.well_formed(),
        ensures
            r == state@.is_used(used@),
    {
        state.is_used(used)
    }

    /// Ready once the broadcast has demand; [`Error::Dropped`] once every producer is gone.
    pub fn poll_used(&self, state: &BroadcastState, used: &Channels) -> (r: Poll<Result<(), Error>>)
        requires
            state.well_formed(),
        ensures
            r == demand_outcome(state@, used@, true),
    {
        self.poll_demand(state, used, true)
    }

    /// Ready once the broadcast has no demand; [`Error::Dropped`] once every producer is gone.
    pub fn poll_unused(&self, state: &BroadcastState, used: &Channels) -> (r: Poll<
        Result<(), Error>,
    >)
        requires
            state.well_formed(),
        ensures
            r == demand_outcome(state@, used@, false),
    {
        self.poll_demand(state, used, false)
    }

    fn poll_demand(&self, state: &BroadcastState, used: &Channels, want: bool) -> (r: Poll<
        Result<(), Error>,
    >)
        requires
            state.well_formed(),
        ensures
            r == demand_outcome(state@, used@, want),
    {
        // Closure is checked first: a dead broadcast reports Dropped rather than pretending
        // to answer.
        if state.alive == 0 {
            return Poll::Ready(Err(Error::Dropped));
        }
        if state.is_used(used) == want {
            Poll::Ready(Ok(()))
        } else {
            Poll::Pending
        }
    }
}

/// What waiting for demand, or for its absence, finds.
pub open spec fn demand_outcome(state: BroadcastModel, used: Set<u64>, want: bool) -> Poll<
    Result<(), Error>,
> {
    if state.alive == 0 {
        Poll::Ready(Err(Error::Dropped))
    } else if state.is_used(used) == want {
        Poll::Ready(Ok(()))
    } else {
        Poll::Pending
    }
}

/// Two lookups of one name coalesce: whatever the first one found, the second finds the same
/// channel, as long as no track closes in between.
pub proof fn lookups_coalesce(
    state: BroadcastModel,
    info: Info,
    name: Seq<char>,
    closed: Set<u64>,
)
    requires
        state.request_names.len() == state.requests.len(),
        state.next_channel < u64::MAX,
    ensures
        ({
            let first = state.lookup(name, closed);
            let second = state.looked_up(info, name, closed).lookup(name, closed);
            match first {
                Lookup::Missing(err) => second == Lookup::Missing(err),
                Lookup::Logical(channel) => second == Lookup::Logical(channel),
                Lookup::NewLogical(channel) => second == Lookup::Logical(channel),
                Lookup::Live(channel) => second == Lookup::Live(channel),
                Lookup::Joined(i) => second == Lookup::Joined(i),
                Lookup::Requested(channel) => {
                    let after = state.looked_up(info, name, closed);
                    &&& second == Lookup::Joined(state.requests.len() as int)
                    &&& after.requests[state.requests.len() as int].channel == channel
                },
            }
        }),
{
    let after = state.looked_up(info, name, closed);
    if state.lookup(name, closed) is Requested {
        let n = state.request_names.len() as int;
        assert(after.request_names[n] == name);
        assert(after.request_names.take(n) =~= state.request_names);
        first_place_is(after.request_names, name, n);
    }
}

/// A closed broadcast serves nothing, and one that was deliberately ended serves nothing
/// new.
pub proof fn ended_broadcast_serves_nothing_new(
    state: BroadcastModel,
    name: Seq<char>,
    closed: Set<u64>,
)
    requires
        state.spliced is None,
        state.alive == 0 || state.closing,
    ensures
        state.alive == 0 ==> state.lookup(name, closed) == Lookup::Missing(Error::Dropped),
        !(state.lookup(name, closed) is Requested),
{
}

/// A track that is there is shared as it is, by every reader, and finding it changes nothing.
pub proof fn live_track_is_shared(
    state: BroadcastModel,
    info: Info,
    name: Seq<char>,
    closed: Set<u64>,
)
    requires
        state.alive > 0,
    ensures
        ({
            let found = state.lookup(name, closed);
            let after = state.looked_up(info, name, closed);
            &&& state.spliced is None && state.tracks.contains_key(name) && !closed.contains(
                state.tracks[name],
            ) ==> found == Lookup::Live(state.tracks[name]) && after == state
            &&& state.spliced matches Some(spliced) ==> (spliced.tracks.contains_key(name)
                ==> found == Lookup::Logical(spliced.tracks[name]) && after == state)
        }),
{
}

/// A track that is not there is asked for once: the first reader queues a request with itself
/// as the only reader, later ones join it, and without anyone to serve it, or once the broadcast
/// is ending, there is no such track. Nothing else of the broadcast changes.
pub proof fn missing_track_is_requested(
    state: BroadcastModel,
    info: Info,
    name: Seq<char>,
    closed: Set<u64>,
)
    requires
        state.alive > 0,
        state.spliced is None,
        state.tracks.contains_key(name) ==> closed.contains(state.tracks[name]),
        state.request_names.len() == state.requests.len(),
        state.next_channel < u64::MAX,
    ensures
        ({
            let found = state.lookup(name, closed);
            let after = state.looked_up(info, name, closed);
            let asked = state.request_names.contains(name);
            let n = state.requests.len();
            &&& asked ==> (found matches Lookup::Joined(i) && {
                &&& 0 <= i < n
                &&& state.request_names[i] == name
                &&& forall|j: int| 0 <= j < i ==> #[trigger] state.request_names[j] != name
                &&& after.requests.len() == n
                &&& after.requests[i].track.consumers == state.requests[i].track.consumers + 1
                &&& after.requests[i].channel == state.requests[i].channel
                &&& after.requests[i].name == state.requests[i].name
                &&& forall|j: int|
                    0 <= j < n && j != i ==> #[trigger] after.requests[j] == state.requests[j]
                &&& after.request_names == state.request_names
                &&& after.next_channel == state.next_channel
            })
            &&& !asked && (state.closing || state.handlers == 0) ==> {
                &&& found == Lookup::Missing(Error::NotFound)
                &&& after.requests == state.requests
                &&& after.request_names == state.request_names
                &&& after.next_channel == state.next_channel
            }
            &&& !asked && !state.closing && state.handlers > 0 ==> {
                &&& found == Lookup::Requested(state.next_channel)
                &&& after.request_names == state.request_names.push(name)
                &&& after.requests.len() == n + 1
                &&& after.requests.drop_last() == state.requests
                &&& after.requests.last().name == name
                &&& after.requests.last().broadcast == info
                &&& after.requests.last().channel == state.next_channel
                &&& after.requests.last().prev_subscription is None
                &&& after.requests.last().track.consumers == 1
                &&& after.requests.last().track.info is None
                &&& after.requests.last().track.dynamic == 1
                &&& !after.requests.last().track.closed
                &&& after.requests.last().track.groups.len() == 0
                &&& after.next_channel == state.next_channel + 1
            }
            &&& after.tracks == state.tracks.remove(name)
            &&& after.handlers == state.handlers
            &&& after.alive == state.alive
            &&& after.closing == state.closing
            &&& after.route == state.route
            &&& after.route_epoch == state.route_epoch
        }),
{
    if state.request_names.contains(name) {
        first_place_found(state.request_names, name);
    } else {
        let after = state.looked_up(info, name, closed);
        if !state.closing && state.handlers > 0 {
            assert(after.requests.drop_last() =~= state.requests);
        }
    }
}

proof fn first_place_found(names: Seq<Seq<char>>, name: Seq<char>)
    requires
        names.contains(name),
    ensures
        ({
            let i = first_place(names, name);
            &&& 0 <= i < names.len()
            &&& names[i] == name
            &&& forall|j: int| 0 <= j < i ==> #[trigger] names[j] != name
        }),
    decreases names.len(),
{
    if names[0] != name {
        let rest = names.skip(1);
        let k = names.index_of(name);
        assert(rest[k - 1] == name);
        first_place_found(rest, name);
        let i = first_place(names, name);
        assert forall|j: int| 0 <= j < i implies #[trigger] names[j] != name by {
            if j > 0 {
                assert(rest[j - 1] != name);
            }
        }
    }
}

/// A route-fed broadcast mints a logical track for each name, once, and queues it for a route.
pub proof fn logical_track_is_minted_once(
    state: BroadcastModel,
    info: Info,
    name: Seq<char>,
    closed: Set<u64>,
)
    requires
        state.alive > 0,
        state.spliced is Some,
        !state.spliced->Some_0.tracks.contains_key(name),
        state.next_channel < u64::MAX,
    ensures
        ({
            let before = state.spliced->Some_0;
            let after = state.looked_up(info, name, closed);
            &&& state.lookup(name, closed) == Lookup::NewLogical(state.next_channel)
            &&& after.spliced matches Some(now) && {
                &&& now.tracks.contains_key(name)
                &&& now.tracks[name] == state.next_channel
                &&& now.tracks.remove(name) == before.tracks
                &&& now.pending == before.pending.push(name)
            }
            &&& after.next_channel == state.next_channel + 1
            &&& after.lookup(name, closed) == Lookup::Logical(state.next_channel)
            &&& after.requests == state.requests
            &&& after.tracks == state.tracks
        }),
{
    let now = state.looked_up(info, name, closed).spliced->Some_0;
    assert(now.tracks.remove(name) =~= state.spliced->Some_0.tracks);
}

/// A track that was entered is found under its name from then on, and no live track is lost.
pub proof fn entered_track_is_found(
    state: BroadcastModel,
    name: Seq<char>,
    channel: u64,
    closed: Set<u64>,
    other: Seq<char>,
)
    requires
        !closed.contains(channel),
    ensures
        ({
            let after = state.entered(name, channel, closed);
            &&& after.live_track(name, closed) == Some(channel)
            &&& other != name ==> after.live_track(other, closed) == state.live_track(
                other,
                closed,
            )
            &&& after.requests == state.requests
            &&& after.alive == state.alive
            &&& after.spliced == state.spliced
        }),
{
    let set = state.tracks.insert(name, channel);
    gc_keeps_live(set, state.ring, closed, name);
    if other != name {
        if state.live_track(other, closed) is Some {
            gc_keeps_live(set, state.ring, closed, other);
        }
        if state.entered(name, channel, closed).tracks.contains_key(other) {
            gc_only_removes(set, state.ring, closed, other);
        }
    }
}

/// Demand is what there is: a track that someone reads, or one that someone waits for. Waiting
/// for demand, or for its end, is over exactly when it is there, or the broadcast is gone.
pub proof fn demand_is_what_is_read(
    state: BroadcastModel,
    used: Set<u64>,
    name: Seq<char>,
    want: bool,
)
    ensures
        state.spliced is None && state.requests.len() > 0 ==> state.is_used(used),
        state.spliced is None && state.tracks.contains_key(name) && used.contains(
            state.tracks[name],
        ) ==> state.is_used(used),
        state.spliced matches Some(spliced) ==> (spliced.tracks.contains_key(name)
            && used.contains(spliced.tracks[name]) ==> state.is_used(used)),
        state.is_used(used) && state.spliced is None ==> state.requests.len() > 0 || exists|
            track: Seq<char>,
        | #[trigger]
            state.tracks.contains_key(track) && used.contains(state.tracks[track]),
        state.is_used(used) ==> (state.spliced matches Some(spliced) ==> exists|track: Seq<char>|
         #[trigger]
            spliced.tracks.contains_key(track) && used.contains(spliced.tracks[track])),
        ({
            let outcome = demand_outcome(state, used, want);
            &&& state.alive == 0 ==> outcome == Poll::Ready(Err::<(), Error>(Error::Dropped))
            &&& state.alive > 0 && state.is_used(used) == want ==> outcome == Poll::Ready(
                Ok::<(), Error>(()),
            )
            &&& state.alive > 0 && state.is_used(used) != want ==> outcome is Pending
        }),
{
}

/// A broadcast starts out with one producer, no tracks and no requests, and a direct route that is
/// not announced.
pub proof fn broadcast_starts_empty(name: Seq<char>, spliced: Option<SplicedModel>)
    ensures
        ({
            let state = BroadcastModel::fresh(spliced);
            &&& state.alive == 1
            &&& !state.closing
            &&& state.handlers == 0
            &&& !state.tracks.contains_key(name)
            &&& state.ring.len() == 0
            &&& state.request_names.len() == 0
            &&& state.requests.len() == 0
            &&& state.spliced == spliced
            &&& state.route.hops.len() == 0
            &&& state.route.cost == 0
            &&& !state.route.announce
            &&& state.route_epoch == 0
            &&& state.next_channel == 0
        }),
{
}

/// A request that is rejected fails with the error, and its track is closed unless somebody else
/// may still serve it.
pub proof fn rejected_track_fails(track: TrackModel, err: Error)
    requires
        track.dynamic > 0,
    ensures
        ({
            let gone = rejected(track, err);
            &&& gone.abort == Some(err)
            &&& gone.dynamic + 1 == track.dynamic
            &&& gone.closed <==> gone.dynamic == 0
            &&& gone.consumers == track.consumers
            &&& gone.groups == track.groups
            &&& gone.subscriptions == track.subscriptions
        }),
{
}

/// A channel is held exactly if it is that of some track.
pub proof fn held_channel_is_a_tracks(tracks: Map<Seq<char>, u64>, name: Seq<char>, channel: u64)
    ensures
        tracks.contains_key(name) && tracks[name] == channel ==> holds_channel(tracks, channel),
        (forall|other: Seq<char>| #[trigger]
            tracks.contains_key(other) ==> tracks[other] != channel) ==> !holds_channel(
            tracks,
            channel,
        ),
{
}

/// The same handle is to the same broadcast.
pub proof fn same_handle_is_the_same_broadcast(a: Producer, b: Producer)
    requires
        a.same_handle(&b),
    ensures
        a.info == b.info,
        a.channel == b.channel,
{
}

} // verus!
