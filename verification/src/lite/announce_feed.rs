//! The publisher's side of an Announce Stream: which announcements go to the peer, and what
//! the peer holds.
//!
//! The feed is told what happens (a broadcast comes or goes, its route changes, demand for it
//! drains or returns, time passes) and answers with the message to send, if any.

use vstd::prelude::*;

use crate::coding::decode::Wire;
use crate::coding::list::models;
use crate::error::Error;
use crate::keyed::KeyMap;
use crate::lite::announce::{
    restart_supported, AnnounceBroadcast, AnnounceInit, AnnounceModel, AnnounceOk,
};
use crate::lite::Version;
use crate::model::handles::Consumer;
use crate::model::origin::{Origin, OriginList, MAX_HOPS};
use crate::model::route::{Route, RouteModel};
use crate::model::scope::{
    covers, minimal, minimal_covers_the_same, path_models, selected, selecting_intersects,
};
use crate::model::time::Instant;
use crate::path::Path;
use crate::poll::Poll;

verus! {

/// How long a drained broadcast keeps advertising zero before the restart that restores its
/// cold cost, in nanoseconds: five seconds. Re-pricing the instant the last viewer leaves
/// would flap routing across the mesh on viewer churn.
pub const COST_LINGER_NANOS: u128 = 5_000_000_000;

/// What the peer currently holds for a path: the forwarded hop chain plus, on lite-06+, the
/// route cost. A fresh route that differs in either is worth a wire message; one that matches
/// is not.
pub struct SentRoute {
    pub hops: OriginList,
    pub cost: u64,
}

/// What a [`SentRoute`] stands for.
pub struct Sent {
    pub hops: Seq<Origin>,
    pub cost: u64,
}

impl View for SentRoute {
    type V = Sent;

    open spec fn view(&self) -> Sent {
        Sent { hops: self.hops@, cost: self.cost }
    }
}

impl Clone for SentRoute {
    fn clone(&self) -> (r: SentRoute)
        ensures
            r@ == self@,
    {
        SentRoute { hops: self.hops.clone(), cost: self.cost }
    }
}

impl SentRoute {
    /// Whether two routes are the same to the peer.
    pub fn same(&self, other: &SentRoute) -> (r: bool)
        ensures
            r == (self@ == other@),
    {
        self.hops.same(&other.hops) && self.cost == other.cost
    }
}

/// Bookkeeping for one announced path, so upstream route changes forward as a restart.
pub struct WatchedRoute {
    /// Which broadcast it is.
    pub channel: u64,
    /// What was last written to the peer, or `None` while the announce is filtered (reflected
    /// or excluded).
    pub sent: Option<SentRoute>,
    /// When demand drained while a zero cost was advertised. The restart that restores the
    /// cold cost is deferred past this, and demand returning in the window cancels it.
    pub idle_at: Option<Instant>,
}

/// What a [`WatchedRoute`] stands for.
pub struct Watched {
    pub channel: u64,
    pub sent: Option<Sent>,
    pub idle_at: Option<Instant>,
}

/// What an optional route stands for.
pub open spec fn sent_model(sent: Option<SentRoute>) -> Option<Sent> {
    match sent {
        Some(sent) => Some(sent@),
        None => None,
    }
}

impl View for WatchedRoute {
    type V = Watched;

    open spec fn view(&self) -> Watched {
        Watched { channel: self.channel, sent: sent_model(self.sent), idle_at: self.idle_at }
    }
}

/// A message for the peer, with the cost of the route that it advertises.
pub struct Advert {
    pub message: AnnounceBroadcast,
    pub cost: u64,
}

/// What an [`Advert`] stands for.
pub struct AdvertModel {
    pub message: AnnounceModel,
    pub cost: u64,
}

impl View for Advert {
    type V = AdvertModel;

    open spec fn view(&self) -> AdvertModel {
        AdvertModel { message: self.message.model(), cost: self.cost }
    }
}

/// What an optional message stands for.
pub open spec fn advert_model(advert: Option<Advert>) -> Option<AdvertModel> {
    match advert {
        Some(advert) => Some(advert@),
        None => None,
    }
}

/// A broadcast that can be announced: which one, the route it takes, and whether it is in
/// demand.
pub struct Offer {
    pub channel: u64,
    pub route: Route,
    pub used: bool,
}

/// What an [`Offer`] stands for.
pub struct OfferModel {
    pub channel: u64,
    pub route: RouteModel,
    pub used: bool,
}

impl View for Offer {
    type V = OfferModel;

    open spec fn view(&self) -> OfferModel {
        OfferModel { channel: self.channel, route: self.route@, used: self.used }
    }
}

/// The paths that the peer knows by an id.
pub type Ids = Map<Seq<Seq<char>>, u64>;

/// The paths that are watched.
pub type Watch = Map<Seq<Seq<char>>, Watched>;

/// What an [`AnnounceFeed`] stands for.
pub struct FeedModel {
    pub version: Version,
    pub self_origin: Origin,
    pub exclude_hop: u64,
    pub next_id: u64,
    pub ids: Ids,
    pub watched: Watch,
}

/// The announcements of one Announce Stream. Paths are given as suffixes below the prefix
/// that the peer asked for.
pub struct AnnounceFeed {
    pub version: Version,
    /// Our own origin.
    pub self_origin: Origin,
    /// The peer's session-level origin id. Announces whose hop chain already contains this id
    /// are not forwarded, so reflected announces (cluster loops) never hit the wire. Zero
    /// means that the peer didn't set it.
    pub exclude_hop: u64,
    /// Every `active` we send implicitly assigns the next per-stream ordinal (lite-06+).
    pub next_id: u64,
    /// The ids of announcements that actually hit the wire.
    pub ids: KeyMap<Path, u64>,
    /// Every announced broadcast, even a filtered one: an update can cross the forwarding
    /// filter either way (lite-05+).
    pub watched: KeyMap<Path, WatchedRoute>,
}

impl View for AnnounceFeed {
    type V = FeedModel;

    open spec fn view(&self) -> FeedModel {
        FeedModel {
            version: self.version,
            self_origin: self.self_origin,
            exclude_hop: self.exclude_hop,
            next_id: self.next_id,
            ids: self.ids@,
            watched: self.watched@.map_values(|entry: WatchedRoute| entry@),
        }
    }
}

/// The cost to advertise for a route.
///
/// While the broadcast has demand the cost is zero: our ingress is already paid for, so one
/// more subscriber only pays the link to reach us. Otherwise the accumulated route cost is
/// forwarded unchanged. Peers before lite-06 get nothing.
pub open spec fn cost_of(version: Version, used: bool, cost: u64) -> u64 {
    if version.rank() < 6 || used {
        0
    } else {
        cost
    }
}

/// The hop chain to forward, or `None` when the announce should be skipped: the peer asked us
/// to exclude it, it already passed through us (reflected loop), or the hop chain is full.
///
/// From lite-05 on, the receiver stamps our id onto the chain; before that we do.
pub open spec fn hops_of(
    hops: Seq<Origin>,
    self_origin: Origin,
    exclude_hop: u64,
    version: Version,
) -> Option<Seq<Origin>> {
    if exclude_hop != 0 && hops.contains(Origin::of(exclude_hop)) {
        None
    } else if hops.contains(self_origin) {
        None
    } else if version.rank() >= 5 {
        Some(hops)
    } else if hops.len() < MAX_HOPS {
        Some(hops.push(self_origin))
    } else {
        None
    }
}

impl FeedModel {
    /// The route to advertise for an offer, or `None` if it is filtered.
    pub open spec fn forwarded(self, route: RouteModel, used: bool) -> Option<Sent> {
        match hops_of(route.hops, self.self_origin, self.exclude_hop, self.version) {
            Some(hops) => Some(Sent { hops, cost: cost_of(self.version, used, route.cost) }),
            None => None,
        }
    }

    /// The feed with an entry watched.
    pub open spec fn watching(self, suffix: Seq<Seq<char>>, entry: Watched) -> FeedModel {
        FeedModel { watched: self.watched.insert(suffix, entry), ..self }
    }

    /// The feed with the next id given to a path, where the version has ids.
    pub open spec fn numbered(self, suffix: Seq<Seq<char>>) -> FeedModel {
        if self.version.rank() >= 6 {
            FeedModel {
                ids: self.ids.insert(suffix, self.next_id),
                next_id: (self.next_id + 1) as u64,
                ..self
            }
        } else {
            self
        }
    }

    /// The feed with the id of a path retired.
    pub open spec fn retired(self, suffix: Seq<Seq<char>>) -> FeedModel {
        if self.version.rank() >= 6 {
            FeedModel { ids: self.ids.remove(suffix), ..self }
        } else {
            self
        }
    }

    /// The message that retracts a path: by id where the version has ids (nothing if the peer
    /// never saw the announce), by path otherwise.
    pub open spec fn retraction(self, suffix: Seq<Seq<char>>) -> Option<AdvertModel> {
        if self.version.rank() < 6 {
            Some(
                AdvertModel { message: AnnounceModel::Ended { suffix, hops: seq![] }, cost: 0 },
            )
        } else if self.ids.contains_key(suffix) {
            Some(
                AdvertModel { message: AnnounceModel::EndedId { id: self.ids[suffix] }, cost: 0 },
            )
        } else {
            None
        }
    }

    /// A broadcast became available.
    pub open spec fn announced(self, suffix: Seq<Seq<char>>, offer: OfferModel) -> (
        FeedModel,
        Option<AdvertModel>,
    ) {
        let filtered = Watched { channel: offer.channel, sent: None, idle_at: None };
        let seen = if self.version.rank() >= 5 {
            self.watching(suffix, filtered)
        } else {
            self
        };
        match self.forwarded(offer.route, offer.used) {
            None => (seen, None),
            Some(sent) => {
                let counted = seen.numbered(suffix);
                let told = if counted.watched.contains_key(suffix) {
                    counted.watching(
                        suffix,
                        Watched { sent: Some(sent), ..counted.watched[suffix] },
                    )
                } else {
                    counted
                };
                (
                    told,
                    Some(
                        AdvertModel {
                            message: AnnounceModel::Active { suffix, hops: sent.hops },
                            cost: sent.cost,
                        },
                    ),
                )
            },
        }
    }

    /// A broadcast went away.
    pub open spec fn unannounced(self, suffix: Seq<Seq<char>>) -> (FeedModel, Option<AdvertModel>) {
        // An entry with nothing sent means the peer holds no live advertisement; repeating the
        // retraction would be a spurious wire message.
        let retracted = self.watched.contains_key(suffix) && self.watched[suffix].sent is None;
        let gone = FeedModel { watched: self.watched.remove(suffix), ..self };
        if self.version.rank() >= 6 {
            (gone.retired(suffix), self.retraction(suffix))
        } else if retracted {
            (gone, None)
        } else {
            (gone, self.retraction(suffix))
        }
    }

    /// The route of a watched broadcast is to be looked at again: it changed, or the demand
    /// did.
    pub open spec fn rerouted(self, suffix: Seq<Seq<char>>, route: RouteModel, used: bool) -> (
        FeedModel,
        Option<AdvertModel>,
    ) {
        if !self.watched.contains_key(suffix) {
            (self, None)
        } else {
            // Any re-price supersedes a pending cost-restore.
            let entry = Watched { idle_at: None, ..self.watched[suffix] };
            let calm = self.watching(suffix, entry);
            match (self.forwarded(route, used), entry.sent) {
                // Still filtered: keep watching.
                (None, None) => (calm, None),
                // The new chain must not be forwarded: retract.
                (None, Some(_)) => (
                    calm.watching(suffix, Watched { sent: None, ..entry }).retired(suffix),
                    self.retraction(suffix),
                ),
                // Previously filtered, now forwardable: a fresh announce.
                (Some(sent), None) => (
                    calm.watching(suffix, Watched { sent: Some(sent), ..entry }).numbered(suffix),
                    Some(
                        AdvertModel {
                            message: AnnounceModel::Active { suffix, hops: sent.hops },
                            cost: sent.cost,
                        },
                    ),
                ),
                // The chain or the cost changed: restart, so the peer updates its route in
                // place instead of re-resolving. Neither changed: nothing to send.
                (Some(sent), Some(before)) => if sent == before {
                    (calm, None)
                } else if self.version.rank() < 6 {
                    (
                        calm.watching(suffix, Watched { sent: Some(sent), ..entry }),
                        Some(
                            AdvertModel {
                                message: AnnounceModel::Active { suffix, hops: sent.hops },
                                cost: sent.cost,
                            },
                        ),
                    )
                } else if self.ids.contains_key(suffix) {
                    (
                        calm.watching(suffix, Watched { sent: Some(sent), ..entry }),
                        Some(
                            AdvertModel {
                                message: AnnounceModel::Restart {
                                    id: self.ids[suffix],
                                    hops: sent.hops,
                                },
                                cost: sent.cost,
                            },
                        ),
                    )
                } else {
                    (calm, None)
                },
            }
        }
    }
}

/// What is seen of a watched broadcast.
pub struct Observation {
    /// Whether its route changed, or the broadcast is gone.
    pub changed: Poll<Result<(), Error>>,
    /// Whether it is in demand.
    pub used: bool,
    /// Whether it is closed.
    pub closed: bool,
}

/// What a look at a watched broadcast calls for.
#[derive(Clone, Copy, Debug, PartialEq, Eq, Structural)]
pub enum Turn {
    /// Nothing.
    Quiet,
    /// Look at its route again.
    Reroute,
    /// Forget it: the broadcast is gone, and the origin tells that it ended.
    Gone,
    /// Demand drained while advertising zero: start the linger.
    Idle,
}

/// What a look at a watched broadcast calls for, and what is left of its linger.
pub open spec fn turn_of(
    version: Version,
    entry: Watched,
    fired: Option<Instant>,
    seen: Observation,
) -> (Turn, Option<Instant>) {
    match seen.changed {
        Poll::Ready(Ok(_)) => (Turn::Reroute, entry.idle_at),
        Poll::Ready(Err(_)) => (Turn::Gone, entry.idle_at),
        Poll::Pending => if version.rank() < 6 || entry.sent is None {
            (Turn::Quiet, entry.idle_at)
        } else if entry.sent->Some_0.cost != 0 {
            // Demand on a cold advertisement re-prices it at once.
            if seen.used && !seen.closed {
                (Turn::Reroute, entry.idle_at)
            } else {
                (Turn::Quiet, entry.idle_at)
            }
        } else {
            match entry.idle_at {
                Some(at) => if seen.used {
                    // Demand coming back within the linger cancels the restore.
                    (Turn::Quiet, None)
                } else if fired is Some && fired->Some_0.nanos >= at.nanos + COST_LINGER_NANOS {
                    // The linger expired: re-price via the route path.
                    (Turn::Reroute, None)
                } else {
                    (Turn::Quiet, Some(at))
                },
                None => if !seen.used && !seen.closed {
                    (Turn::Idle, None)
                } else {
                    (Turn::Quiet, None)
                },
            }
        },
    }
}

/// The cost to advertise for a route. See [`cost_of`].
pub fn outgoing_cost(version: Version, used: bool, route: &Route) -> (r: u64)
    ensures
        r == cost_of(version, used, route@.cost),
{
    if !version.has_route_cost() || used {
        0
    } else {
        route.cost
    }
}

/// Decide whether to forward an active announcement and compute the outgoing hop chain. See
/// [`hops_of`].
pub fn prepare_active_hops(
    hops: &OriginList,
    self_origin: Origin,
    exclude_hop: u64,
    version: Version,
) -> (r: Option<OriginList>)
    ensures
        match hops_of(hops@, self_origin, exclude_hop, version) {
            Some(chain) => r matches Some(list) && list@ == chain,
            None => r is None,
        },
{
    if exclude_hop != 0 && hops.contains_id(exclude_hop) {
        return None;
    }
    if hops.contains(&self_origin) {
        return None;
    }
    let mut hops: OriginList = hops.clone();
    if !version.has_announce_ok() {
        match hops.push(self_origin) {
            Ok(()) => {},
            Err(_) => {
                return None;
            },
        }
    }
    Some(hops)
}

impl AnnounceFeed {
    /// A feed that has sent nothing.
    pub fn new(version: Version, self_origin: Origin, exclude_hop: u64) -> (r: AnnounceFeed)
        ensures
            r@ == (FeedModel {
                version,
                self_origin,
                exclude_hop,
                next_id: 0,
                ids: Map::empty(),
                watched: Map::empty(),
            }),
    {
        let r: AnnounceFeed = AnnounceFeed {
            version,
            self_origin,
            exclude_hop,
            next_id: 0,
            ids: KeyMap::new(),
            watched: KeyMap::new(),
        };
        assert(r@.watched =~= Map::<Seq<Seq<char>>, Watched>::empty());
        assert(r@.ids =~= Map::<Seq<Seq<char>>, u64>::empty());
        r
    }

    fn watch(&mut self, suffix: &Path, entry: WatchedRoute)
        ensures
            final(self)@ == old(self)@.watching(suffix@, entry@),
    {
        let ghost new = entry@;
        let ghost before = self@;
        let _ = self.watched.insert(suffix.clone(), entry);
        assert(self@.watched =~= before.watched.insert(suffix@, new));
    }

    fn unwatch(&mut self, suffix: &Path) -> (r: Option<WatchedRoute>)
        ensures
            final(self)@ == (FeedModel {
                watched: old(self)@.watched.remove(suffix@),
                ..old(self)@
            }),
            match r {
                Some(entry) => old(self)@.watched.contains_key(suffix@) && old(
                    self,
                )@.watched[suffix@] == entry@,
                None => !old(self)@.watched.contains_key(suffix@),
            },
    {
        let ghost before = self@;
        let r: Option<WatchedRoute> = self.watched.remove(suffix);
        assert(self@.watched =~= before.watched.remove(suffix@));
        r
    }

    /// Give the next id to a path, where the version has ids.
    fn number(&mut self, suffix: &Path)
        requires
            old(self)@.version.rank() >= 6 ==> old(self).next_id < u64::MAX,
        ensures
            final(self)@ == old(self)@.numbered(suffix@),
    {
        if self.version.has_announce_id() {
            let _ = self.ids.insert(suffix.clone(), self.next_id);
            self.next_id = self.next_id + 1;
        }
    }

    /// Retire the id of a path and give the message that retracts it.
    fn retract(&mut self, suffix: &Path) -> (r: Option<Advert>)
        ensures
            advert_model(r) == old(self)@.retraction(suffix@),
            final(self)@ == old(self)@.retired(suffix@),
    {
        if self.version.has_announce_id() {
            match self.ids.remove(suffix) {
                Some(id) => Some(Advert { message: AnnounceBroadcast::EndedId { id }, cost: 0 }),
                None => None,
            }
        } else {
            // An ended announce doesn't need hops; the receiver matches on path only.
            Some(
                Advert {
                    message: AnnounceBroadcast::Ended {
                        suffix: suffix.clone(),
                        hops: OriginList::new(),
                    },
                    cost: 0,
                },
            )
        }
    }

    fn forward(&self, route: &Route, used: bool) -> (r: Option<SentRoute>)
        ensures
            sent_model(r) == self@.forwarded(route@, used),
    {
        match prepare_active_hops(&route.hops, self.self_origin, self.exclude_hop, self.version) {
            Some(hops) => Some(
                SentRoute { hops, cost: outgoing_cost(self.version, used, route) },
            ),
            None => None,
        }
    }

    /// A broadcast became available, or went away (`None`). The answer is what to send.
    pub fn on_announce(&mut self, suffix: &Path, offer: Option<Offer>) -> (r: Option<Advert>)
        requires
            old(self)@.version.rank() >= 6 ==> old(self).next_id < u64::MAX,
        ensures
            (final(self)@, advert_model(r)) == match offer {
                Some(offer) => old(self)@.announced(suffix@, offer@),
                None => old(self)@.unannounced(suffix@),
            },
    {
        match offer {
            None => {
                let retracted: bool = match self.unwatch(suffix) {
                    Some(entry) => entry.sent.is_none(),
                    None => false,
                };
                if retracted && !self.version.has_announce_id() {
                    None
                } else {
                    self.retract(suffix)
                }
            },
            Some(offer) => {
                if restart_supported(self.version) {
                    self.watch(
                        suffix,
                        WatchedRoute { channel: offer.channel, sent: None, idle_at: None },
                    );
                }
                let sent: SentRoute = match self.forward(&offer.route, offer.used) {
                    Some(sent) => sent,
                    None => {
                        return None;
                    },
                };
                self.number(suffix);
                let hops: OriginList = sent.hops.clone();
                let cost: u64 = sent.cost;
                let ghost counted = self@;
                match self.unwatch(suffix) {
                    Some(entry) => {
                        self.watch(
                            suffix,
                            WatchedRoute {
                                channel: entry.channel,
                                sent: Some(sent),
                                idle_at: entry.idle_at,
                            },
                        );
                        assert(self@.watched =~= counted.watched.insert(
                            suffix@,
                            self@.watched[suffix@],
                        ));
                    },
                    None => {
                        assert(self@.watched =~= counted.watched);
                    },
                }
                Some(Advert { message: AnnounceBroadcast::Active { suffix: suffix.clone(), hops }, cost })
            },
        }
    }

    /// A watched broadcast is gone; the origin delivers the end itself.
    pub fn on_gone(&mut self, suffix: &Path)
        ensures
            final(self)@ == (FeedModel {
                watched: old(self)@.watched.remove(suffix@),
                ..old(self)@
            }),
    {
        let _ = self.unwatch(suffix);
    }

    /// The route of a watched broadcast is to be looked at again. The answer is what to send.
    #[verifier::rlimit(40)]
    pub fn on_route(&mut self, suffix: &Path, route: &Route, used: bool) -> (r: Option<Advert>)
        requires
            old(self)@.version.rank() >= 6 ==> old(self).next_id < u64::MAX,
        ensures
            (final(self)@, advert_model(r)) == old(self)@.rerouted(suffix@, route@, used),
    {
        let entry: WatchedRoute = match self.unwatch(suffix) {
            Some(entry) => entry,
            None => {
                assert(self@.watched =~= old(self)@.watched);
                return None;
            },
        };
        let channel: u64 = entry.channel;
        let ghost start = old(self)@;
        let ghost was = Watched { idle_at: None, ..start.watched[suffix@] };
        match (self.forward(route, used), entry.sent) {
            (None, None) => {
                self.watch(suffix, WatchedRoute { channel, sent: None, idle_at: None });
                assert(self@.watched =~= start.watched.insert(suffix@, was));
                None
            },
            (None, Some(_)) => {
                self.watch(suffix, WatchedRoute { channel, sent: None, idle_at: None });
                assert(self@.watched =~= start.watched.insert(suffix@, was).insert(
                    suffix@,
                    (Watched { sent: None, ..was }),
                ));
                self.retract(suffix)
            },
            (Some(sent), None) => {
                let hops: OriginList = sent.hops.clone();
                let cost: u64 = sent.cost;
                let ghost new = sent@;
                self.watch(suffix, WatchedRoute { channel, sent: Some(sent), idle_at: None });
                assert(self@.watched =~= start.watched.insert(suffix@, was).insert(
                    suffix@,
                    (Watched { sent: Some(new), ..was }),
                ));
                self.number(suffix);
                Some(Advert { message: AnnounceBroadcast::Active { suffix: suffix.clone(), hops }, cost })
            },
            (Some(sent), Some(before)) => {
                if sent.same(&before) {
                    self.watch(suffix, WatchedRoute { channel, sent: Some(before), idle_at: None });
                    assert(self@.watched =~= start.watched.insert(suffix@, was));
                    return None;
                }
                let hops: OriginList = sent.hops.clone();
                let cost: u64 = sent.cost;
                let ghost new = sent@;
                if !self.version.has_announce_id() {
                    // A duplicate ANNOUNCE for a live path is the restart.
                    self.watch(suffix, WatchedRoute { channel, sent: Some(sent), idle_at: None });
                    assert(self@.watched =~= start.watched.insert(suffix@, was).insert(
                        suffix@,
                        (Watched { sent: Some(new), ..was }),
                    ));
                    return Some(
                        Advert {
                            message: AnnounceBroadcast::Active { suffix: suffix.clone(), hops },
                            cost,
                        },
                    );
                }
                let id: Option<u64> = match self.ids.get(suffix) {
                    Some(id) => Some(*id),
                    None => None,
                };
                match id {
                    Some(id) => {
                        self.watch(
                            suffix,
                            WatchedRoute { channel, sent: Some(sent), idle_at: None },
                        );
                        assert(self@.watched =~= start.watched.insert(suffix@, was).insert(
                            suffix@,
                            (Watched { sent: Some(new), ..was }),
                        ));
                        Some(Advert { message: AnnounceBroadcast::Restart { id, hops }, cost })
                    },
                    None => {
                        self.watch(
                            suffix,
                            WatchedRoute { channel, sent: Some(before), idle_at: None },
                        );
                        assert(self@.watched =~= start.watched.insert(suffix@, was));
                        None
                    },
                }
            },
        }
    }

    /// Demand drained while advertising zero: the linger starts.
    pub fn on_idle(&mut self, suffix: &Path, now: Instant)
        ensures
            final(self)@ == if old(self)@.watched.contains_key(suffix@) {
                old(self)@.watching(
                    suffix@,
                    Watched { idle_at: Some(now), ..old(self)@.watched[suffix@] },
                )
            } else {
                old(self)@
            },
    {
        let ghost start = self@;
        match self.unwatch(suffix) {
            Some(entry) => {
                let ghost was = entry@;
                self.watch(
                    suffix,
                    WatchedRoute { channel: entry.channel, sent: entry.sent, idle_at: Some(now) },
                );
                assert(self@.watched =~= start.watched.insert(
                    suffix@,
                    (Watched { idle_at: Some(now), ..was }),
                ));
            },
            None => {
                assert(self@.watched =~= start.watched);
            },
        }
    }

    /// Look at a watched broadcast. `fired` is the time, once the earliest linger is over.
    pub fn look(&mut self, suffix: &Path, fired: Option<Instant>, seen: &Observation) -> (r: Turn)
        ensures
            if old(self)@.watched.contains_key(suffix@) {
                let entry = old(self)@.watched[suffix@];
                let (turn, idle_at) = turn_of(old(self)@.version, entry, fired, *seen);
                &&& r == turn
                &&& final(self)@ == old(self)@.watching(suffix@, Watched { idle_at, ..entry })
            } else {
                &&& r == Turn::Quiet
                &&& final(self)@ == old(self)@
            },
    {
        let ghost start = self@;
        let entry: WatchedRoute = match self.unwatch(suffix) {
            Some(entry) => entry,
            None => {
                assert(self@.watched =~= start.watched);
                return Turn::Quiet;
            },
        };
        let ghost was = entry@;
        let mut idle_at: Option<Instant> = entry.idle_at;
        let turn: Turn = match &seen.changed {
            Poll::Ready(Ok(_)) => Turn::Reroute,
            Poll::Ready(Err(_)) => Turn::Gone,
            Poll::Pending => {
                if !self.version.has_route_cost() {
                    Turn::Quiet
                } else {
                    match &entry.sent {
                        None => Turn::Quiet,
                        Some(sent) => {
                            if sent.cost != 0 {
                                if seen.used && !seen.closed {
                                    Turn::Reroute
                                } else {
                                    Turn::Quiet
                                }
                            } else {
                                match idle_at {
                                    Some(at) => {
                                        if seen.used {
                                            idle_at = None;
                                            Turn::Quiet
                                        } else if linger_over(at, fired) {
                                            idle_at = None;
                                            Turn::Reroute
                                        } else {
                                            Turn::Quiet
                                        }
                                    },
                                    None => if !seen.used && !seen.closed {
                                        Turn::Idle
                                    } else {
                                        Turn::Quiet
                                    },
                                }
                            }
                        },
                    }
                }
            },
        };
        self.watch(suffix, WatchedRoute { channel: entry.channel, sent: entry.sent, idle_at });
        assert(self@.watched =~= start.watched.insert(suffix@, (Watched { idle_at, ..was })));
        turn
    }

    /// The earliest time at which demand drained, of all lingers that are running. The sleep
    /// until the next restore ends a linger after it.
    pub fn earliest_idle(&self) -> (r: Option<Instant>)
        ensures
            match r {
                Some(at) => {
                    &&& exists|suffix: Seq<Seq<char>>| #[trigger]
                        self@.watched.contains_key(suffix) && self@.watched[suffix].idle_at
                            == Some(at)
                    &&& forall|suffix: Seq<Seq<char>>| #[trigger]
                        self@.watched.contains_key(suffix) && self@.watched[suffix].idle_at is Some
                            ==> at.nanos <= self@.watched[suffix].idle_at->Some_0.nanos
                },
                None => forall|suffix: Seq<Seq<char>>| #[trigger]
                    self@.watched.contains_key(suffix) ==> self@.watched[suffix].idle_at is None,
            },
    {
        let n: usize = self.watched.len();
        let ghost order: Seq<Seq<Seq<char>>> = self.watched.order();
        let mut best: Option<Instant> = None;
        let mut i: usize = 0;
        while i < n
            invariant
                n == self.watched.order().len(),
                order == self.watched.order(),
                i <= n,
                best matches Some(at) ==> exists|suffix: Seq<Seq<char>>| #[trigger]
                    self@.watched.contains_key(suffix) && self@.watched[suffix].idle_at == Some(
                        at,
                    ),
                forall|j: int|
                    0 <= j < i && self@.watched[#[trigger] order[j]].idle_at is Some ==> best is Some
                        && best->Some_0.nanos <= self@.watched[order[j]].idle_at->Some_0.nanos,
            decreases n - i,
        {
            let (path, entry): (&Path, &WatchedRoute) = self.watched.nth(i);
            assert(self@.watched.contains_key(path@));
            assert(self@.watched[path@] == entry@);
            assert(order[i as int] == path@);
            match entry.idle_at {
                None => {},
                Some(at) => {
                    let sooner: bool = match best {
                        Some(so_far) => at.nanos < so_far.nanos,
                        None => true,
                    };
                    if sooner {
                        best = Some(at);
                    }
                },
            }
            i += 1;
        }
        proof {
            assert forall|suffix: Seq<Seq<char>>| #[trigger]
                self@.watched.contains_key(suffix) && self@.watched[suffix].idle_at
                    is Some implies best is Some && best->Some_0.nanos
                <= self@.watched[suffix].idle_at->Some_0.nanos by {
                assert(self.watched@.contains_key(suffix));
                assert(order.to_set().contains(suffix));
                let j = order.index_of(suffix);
                assert(order[j] == suffix);
            }
        }
        best
    }
}

/// What one turn of the announce loop deals with.
#[derive(Debug)]
pub enum Op {
    /// The peer closed the stream.
    Closed,
    /// A broadcast came or went.
    Announce,
    /// A watched broadcast calls for something.
    Watched(Path, Turn),
    /// The linger timer fired for an entry that no longer lingers: arm the next one.
    Linger,
}

/// What was seen of the watched broadcasts.
pub open spec fn sightings(seen: Seq<(Path, Observation)>) -> Seq<(Seq<Seq<char>>, Observation)> {
    seen.map_values(|sight: (Path, Observation)| (sight.0@, sight.1))
}

impl FeedModel {
    /// What a look at one watched broadcast calls for, and the feed after it.
    pub open spec fn look(
        self,
        suffix: Seq<Seq<char>>,
        fired: Option<Instant>,
        seen: Observation,
    ) -> (FeedModel, Turn) {
        if self.watched.contains_key(suffix) {
            let entry = self.watched[suffix];
            let (turn, idle_at) = turn_of(self.version, entry, fired, seen);
            (self.watching(suffix, Watched { idle_at, ..entry }), turn)
        } else {
            (self, Turn::Quiet)
        }
    }

    /// The first broadcast that calls for something, from place `start` on, and the feed after
    /// all looks up to it.
    pub open spec fn scan(
        self,
        seen: Seq<(Seq<Seq<char>>, Observation)>,
        start: int,
        fired: Option<Instant>,
    ) -> (FeedModel, Option<(Seq<Seq<char>>, Turn)>)
        decreases seen.len() - start,
    {
        if start >= seen.len() {
            (self, None)
        } else {
            let (suffix, sight) = seen[start];
            let (after, turn) = self.look(suffix, fired, sight);
            if turn == Turn::Quiet {
                after.scan(seen, start + 1, fired)
            } else {
                (after, Some((suffix, turn)))
            }
        }
    }
}

impl AnnounceFeed {
    /// What to deal with next. Closure wins so a dead peer can't stall on a busy announce feed;
    /// then what comes and goes, then the watched broadcasts in the order given, then the
    /// linger timer. `fired` is the time, once the earliest linger is over.
    pub fn poll_op(
        &mut self,
        closed: bool,
        announce: bool,
        fired: Option<Instant>,
        seen: &Vec<(Path, Observation)>,
    ) -> (r: Poll<Op>)
        ensures
            if closed {
                r == Poll::Ready(Op::Closed) && final(self)@ == old(self)@
            } else if announce {
                r == Poll::Ready(Op::Announce) && final(self)@ == old(self)@
            } else {
                let (feed, found) = old(self)@.scan(sightings(seen@), 0, fired);
                &&& final(self)@ == feed
                &&& match found {
                    Some((suffix, turn)) => r matches Poll::Ready(Op::Watched(at, todo)) && at@
                        == suffix && todo == turn,
                    None => r == if fired is Some {
                        Poll::Ready(Op::Linger)
                    } else {
                        Poll::Pending
                    },
                }
            },
    {
        if closed {
            return Poll::Ready(Op::Closed);
        }
        if announce {
            return Poll::Ready(Op::Announce);
        }
        let ghost all = sightings(seen@);
        let mut i: usize = 0;
        while i < seen.len()
            invariant
                i <= seen@.len(),
                all == sightings(seen@),
                !closed,
                !announce,
                old(self)@.scan(all, 0, fired) == self@.scan(all, i as int, fired),
            decreases seen@.len() - i,
        {
            assert(all[i as int] == (seen@[i as int].0@, seen@[i as int].1));
            let ghost before = self@;
            let turn: Turn = self.look(&seen[i].0, fired, &seen[i].1);
            assert(before.look(all[i as int].0, fired, all[i as int].1) == (self@, turn));
            if turn != Turn::Quiet {
                assert(before.scan(all, i as int, fired) == (self@, Some((all[i as int].0, turn))));
                return Poll::Ready(Op::Watched(seen[i].0.clone(), turn));
            }
            i += 1;
        }
        if fired.is_some() {
            Poll::Ready(Op::Linger)
        } else {
            Poll::Pending
        }
    }

    /// Do what a watched broadcast calls for, given its route and whether it is in demand now.
    /// The answer is what to send.
    pub fn on_turn(
        &mut self,
        suffix: &Path,
        turn: Turn,
        route: &Route,
        used: bool,
        now: Instant,
    ) -> (r: Option<Advert>)
        requires
            old(self)@.version.rank() >= 6 ==> old(self).next_id < u64::MAX,
        ensures
            (final(self)@, advert_model(r)) == match turn {
                Turn::Quiet => (old(self)@, None),
                Turn::Reroute => old(self)@.rerouted(suffix@, route@, used),
                Turn::Gone => (
                    (FeedModel {
                        watched: old(self)@.watched.remove(suffix@),
                        ..old(self)@
                    }),
                    None,
                ),
                Turn::Idle => (
                    if old(self)@.watched.contains_key(suffix@) {
                        old(self)@.watching(
                            suffix@,
                            Watched { idle_at: Some(now), ..old(self)@.watched[suffix@] },
                        )
                    } else {
                        old(self)@
                    },
                    None,
                ),
            },
    {
        match turn {
            Turn::Quiet => None,
            Turn::Reroute => self.on_route(suffix, route, used),
            Turn::Gone => {
                self.on_gone(suffix);
                None
            },
            Turn::Idle => {
                self.on_idle(suffix, now);
                None
            },
        }
    }
}

/// The part of an origin that a peer's announce request is answered from. A prefix outside
/// our scope simply has nothing to announce, rather than being an error, which would reset
/// the stream.
pub fn announce_scope(origin: &Consumer, prefix: &Path) -> (r: Consumer)
    ensures
        r.info == origin.info,
        r.reach.root@ == origin.reach.root@,
        r.reach.scope@ == selected(origin.reach.scope@, minimal(seq![prefix@])),
{
    let mut prefixes: Vec<Path> = Vec::new();
    prefixes.push(prefix.clone());
    assert(path_models(prefixes@) =~= seq![prefix@]);
    match origin.scope(&prefixes) {
        Some(consumer) => consumer,
        None => {
            let r: Consumer = origin.empty();
            assert(r.reach.scope@ =~= selected(origin.reach.scope@, minimal(seq![prefix@])));
            r
        },
    }
}

/// Everything that is announced in answer to a request lies below the requested prefix.
pub proof fn announce_scope_is_below_prefix(
    scope: Seq<Seq<Seq<char>>>,
    prefix: Seq<Seq<char>>,
    path: Seq<Seq<char>>,
)
    requires
        covers(selected(scope, minimal(seq![prefix])), path),
    ensures
        prefix.is_prefix_of(path),
        covers(scope, path),
{
    selecting_intersects(scope, minimal(seq![prefix]), path);
    minimal_covers_the_same(seq![prefix], path);
    let one = seq![prefix];
    let i = choose|i: int| 0 <= i < one.len() && (#[trigger] one[i]).is_prefix_of(path);
    assert(one[i] == prefix);
}

/// What was announced, or is no longer, by suffix.
pub type Update = (Path, Option<Offer>);

/// What an update stands for.
pub open spec fn update_model(update: Update) -> (Seq<Seq<char>>, Option<OfferModel>) {
    (
        update.0@,
        match update.1 {
            Some(offer) => Some(offer@),
            None => None,
        },
    )
}

/// Suffixes other than the given one.
pub open spec fn others(suffixes: Seq<Seq<Seq<char>>>, suffix: Seq<Seq<char>>) -> Seq<
    Seq<Seq<char>>,
> {
    suffixes.filter(|other: Seq<Seq<char>>| other != suffix)
}

/// The active suffixes after the first `n` updates.
pub open spec fn active_suffixes(
    updates: Seq<(Seq<Seq<char>>, Option<OfferModel>)>,
    n: nat,
) -> Seq<Seq<Seq<char>>>
    decreases n,
{
    if n == 0 {
        seq![]
    } else {
        let before = active_suffixes(updates, (n - 1) as nat);
        let (suffix, offer) = updates[n - 1];
        if offer is None {
            others(before, suffix)
        } else if before.contains(suffix) {
            before
        } else {
            before.push(suffix)
        }
    }
}

/// Routes for suffixes other than the given one.
pub open spec fn other_routes(
    routes: Seq<(Seq<Seq<char>>, Sent)>,
    suffix: Seq<Seq<char>>,
) -> Seq<(Seq<Seq<char>>, Sent)> {
    routes.filter(|other: (Seq<Seq<char>>, Sent)| other.0 != suffix)
}

impl FeedModel {
    /// The feed, and the routes to advertise, after the first `n` updates.
    pub open spec fn collected(
        self,
        updates: Seq<(Seq<Seq<char>>, Option<OfferModel>)>,
        n: nat,
    ) -> (FeedModel, Seq<(Seq<Seq<char>>, Sent)>)
        decreases n,
    {
        if n == 0 {
            (self, seq![])
        } else {
            let (feed, routes) = self.collected(updates, (n - 1) as nat);
            let (suffix, offer) = updates[n - 1];
            match offer {
                None => (
                    FeedModel { watched: feed.watched.remove(suffix), ..feed },
                    other_routes(routes, suffix),
                ),
                Some(offer) => {
                    let seen = feed.watching(
                        suffix,
                        Watched { channel: offer.channel, sent: None, idle_at: None },
                    );
                    match feed.forwarded(offer.route, offer.used) {
                        None => (seen, routes),
                        Some(sent) => (seen, other_routes(routes, suffix).push((suffix, sent))),
                    }
                },
            }
        }
    }

    /// The feed once the first `n` routes were advertised.
    pub open spec fn advertised(self, routes: Seq<(Seq<Seq<char>>, Sent)>, n: nat) -> FeedModel
        decreases n,
    {
        if n == 0 {
            self
        } else {
            let feed = self.advertised(routes, (n - 1) as nat);
            let (suffix, sent) = routes[n - 1];
            let counted = feed.numbered(suffix);
            if counted.watched.contains_key(suffix) {
                counted.watching(suffix, Watched { sent: Some(sent), ..counted.watched[suffix] })
            } else {
                counted
            }
        }
    }
}

/// The message that advertises a route for the first time.
pub open spec fn first_advert(route: (Seq<Seq<char>>, Sent)) -> AdvertModel {
    AdvertModel {
        message: AnnounceModel::Active { suffix: route.0, hops: route.1.hops },
        cost: route.1.cost,
    }
}

/// What opens an Announce Stream.
pub enum Opening {
    /// All currently active paths in one message (lite-01, lite-02).
    Init(AnnounceInit),
    /// Nothing: the current state follows as announcements (lite-03, lite-04).
    Silent,
    /// Our origin id and the count of initial announces that follow immediately (lite-05+).
    Ready { ok: AnnounceOk, adverts: Vec<Advert> },
}

fn without_suffix(list: &Vec<Path>, suffix: &Path) -> (r: Vec<Path>)
    ensures
        models(r@) == others(models(list@), suffix@),
{
    let ghost all = models(list@);
    let mut kept: Vec<Path> = Vec::new();
    let mut i: usize = 0;
    proof {
        reveal(Seq::filter);
        assert(all.take(0) =~= seq![]);
        assert(models(kept@) =~= seq![]);
    }
    while i < list.len()
        invariant
            i <= list@.len(),
            all == models(list@),
            models(kept@) == others(all.take(i as int), suffix@),
        decreases list@.len() - i,
    {
        let ghost before = models(kept@);
        proof {
            reveal(Seq::filter);
            assert(all.take(i + 1).drop_last() =~= all.take(i as int));
            assert(all[i as int] == list@[i as int]@);
        }
        if !list[i].same(suffix) {
            kept.push(list[i].clone());
            assert(models(kept@) =~= before.push(all[i as int]));
        }
        i += 1;
    }
    assert(all.take(i as int) =~= all);
    kept
}

fn has_suffix(list: &Vec<Path>, suffix: &Path) -> (r: bool)
    ensures
        r == models(list@).contains(suffix@),
{
    let mut i: usize = 0;
    while i < list.len()
        invariant
            i <= list@.len(),
            forall|j: int| 0 <= j < i ==> #[trigger] models(list@)[j] != suffix@,
        decreases list@.len() - i,
    {
        assert(models(list@)[i as int] == list@[i as int]@);
        if list[i].same(suffix) {
            return true;
        }
        i += 1;
    }
    false
}

/// What routes by suffix stand for.
pub open spec fn route_models(routes: Seq<(Path, SentRoute)>) -> Seq<(Seq<Seq<char>>, Sent)> {
    routes.map_values(|route: (Path, SentRoute)| (route.0@, route.1@))
}

fn without_route(list: Vec<(Path, SentRoute)>, suffix: &Path) -> (r: Vec<(Path, SentRoute)>)
    ensures
        route_models(r@) == other_routes(route_models(list@), suffix@),
{
    let ghost all = route_models(list@);
    let mut kept: Vec<(Path, SentRoute)> = Vec::new();
    let mut i: usize = 0;
    proof {
        reveal(Seq::filter);
        assert(all.take(0) =~= seq![]);
        assert(route_models(kept@) =~= seq![]);
    }
    while i < list.len()
        invariant
            i <= list@.len(),
            all == route_models(list@),
            route_models(kept@) == other_routes(all.take(i as int), suffix@),
        decreases list@.len() - i,
    {
        let ghost before = route_models(kept@);
        proof {
            reveal(Seq::filter);
            assert(all.take(i + 1).drop_last() =~= all.take(i as int));
            assert(all[i as int] == (list@[i as int].0@, list@[i as int].1@));
        }
        if !list[i].0.same(suffix) {
            kept.push((list[i].0.clone(), list[i].1.clone()));
            assert(route_models(kept@) =~= before.push(all[i as int]));
        }
        i += 1;
    }
    assert(all.take(i as int) =~= all);
    kept
}

/// What updates stand for.
pub open spec fn update_models(updates: Seq<Update>) -> Seq<(Seq<Seq<char>>, Option<OfferModel>)> {
    updates.map_values(|update: Update| update_model(update))
}

proof fn collected_len(feed: FeedModel, updates: Seq<(Seq<Seq<char>>, Option<OfferModel>)>, n: nat)
    ensures
        feed.collected(updates, n).1.len() <= n,
        feed.collected(updates, n).0 == (FeedModel {
            watched: feed.collected(updates, n).0.watched,
            ..feed
        }),
    decreases n,
{
    reveal(Seq::filter);
    if n > 0 {
        collected_len(feed, updates, (n - 1) as nat);
        let routes = feed.collected(updates, (n - 1) as nat).1;
        let suffix = updates[n - 1].0;
        filter_is_shorter(routes, suffix);
    }
}

proof fn filter_is_shorter(routes: Seq<(Seq<Seq<char>>, Sent)>, suffix: Seq<Seq<char>>)
    ensures
        other_routes(routes, suffix).len() <= routes.len(),
    decreases routes.len(),
{
    reveal(Seq::filter);
    if routes.len() > 0 {
        filter_is_shorter(routes.drop_last(), suffix);
    }
}

impl AnnounceFeed {
    /// Open the stream with the currently active set, given as the updates that lead to it.
    #[verifier::rlimit(60)]
    pub fn open(&mut self, updates: Vec<Update>) -> (r: Opening)
        requires
            old(self)@.version.rank() >= 6 && old(self).next_id != 0 ==> old(self).next_id
                + updates@.len() <= u64::MAX,
        ensures
            ({
                let all = update_models(updates@);
                let n = updates@.len();
                if old(self)@.version.rank() <= 2 {
                    &&& r matches Opening::Init(init) && init.model() == active_suffixes(all, n)
                    &&& final(self)@ == old(self)@
                } else if old(self)@.version.rank() <= 4 {
                    &&& r matches Opening::Silent
                    &&& final(self)@ == old(self)@
                } else {
                    let (feed, routes) = old(self)@.collected(all, n);
                    &&& r matches Opening::Ready { ok, adverts } && {
                        &&& ok.origin == old(self)@.self_origin
                        &&& ok.active == routes.len()
                        &&& adverts@.len() == routes.len()
                        &&& suffixes_distinct(routes)
                        &&& forall|i: int|
                            0 <= i < routes.len() ==> (#[trigger] adverts@[i])@ == first_advert(
                                routes[i],
                            )
                    }
                    &&& final(self)@ == feed.advertised(routes, routes.len())
                }
            }),
    {
        let ghost all = update_models(updates@);
        let mut updates: Vec<Update> = updates;
        let n: usize = updates.len();
        match self.version {
            Version::Lite01 | Version::Lite02 => {
                let mut suffixes: Vec<Path> = Vec::new();
                let mut i: usize = 0;
                assert(models(suffixes@) =~= seq![]);
                while i < n
                    invariant
                        n == updates@.len(),
                        i <= n,
                        all == update_models(updates@),
                        models(suffixes@) == active_suffixes(all, i as nat),
                    decreases n - i,
                {
                    assert(all[i as int] == update_model(updates@[i as int]));
                    let ghost before = models(suffixes@);
                    if updates[i].1.is_none() {
                        suffixes = without_suffix(&suffixes, &updates[i].0);
                    } else if !has_suffix(&suffixes, &updates[i].0) {
                        suffixes.push(updates[i].0.clone());
                        assert(models(suffixes@) =~= before.push(updates@[i as int].0@));
                    }
                    i += 1;
                }
                Opening::Init(AnnounceInit { suffixes })
            },
            Version::Lite03 | Version::Lite04 => Opening::Silent,
            _ => {
                let ghost start = self@;
                let mut routes: Vec<(Path, SentRoute)> = Vec::new();
                let mut i: usize = 0;
                assert(route_models(routes@) =~= seq![]);
                while i < n
                    invariant
                        n == updates@.len(),
                        i <= n,
                        all == update_models(updates@),
                        start == old(self)@,
                        (self@, route_models(routes@)) == start.collected(all, i as nat),
                    decreases n - i,
                {
                    let ghost feed = self@;
                    let ghost found = route_models(routes@);
                    assert(all[i as int] == update_model(updates@[i as int]));
                    let suffix: Path = updates[i].0.clone();
                    match &updates[i].1 {
                        None => {
                            let _ = self.unwatch(&suffix);
                            routes = without_route(routes, &suffix);
                        },
                        Some(offer) => {
                            // Watch even the announces we filter below.
                            let sent: Option<SentRoute> = self.forward(&offer.route, offer.used);
                            self.watch(
                                &suffix,
                                WatchedRoute { channel: offer.channel, sent: None, idle_at: None },
                            );
                            match sent {
                                None => {},
                                Some(sent) => {
                                    routes = without_route(routes, &suffix);
                                    let ghost kept = route_models(routes@);
                                    let ghost added = (suffix@, sent@);
                                    routes.push((suffix, sent));
                                    assert(route_models(routes@) =~= kept.push(added));
                                },
                            }
                        },
                    }
                    i += 1;
                }
                let ghost feed = self@;
                let ghost found = route_models(routes@);
                proof {
                    collected_len(start, all, n as nat);
                    opening_advertises_the_last_offers(start, all, n as nat);
                }
                let ok: AnnounceOk = AnnounceOk {
                    origin: self.self_origin,
                    active: routes.len() as u64,
                };
                let mut adverts: Vec<Advert> = Vec::new();
                let mut i: usize = 0;
                while i < routes.len()
                    invariant
                        i <= routes@.len(),
                        found == route_models(routes@),
                        adverts@.len() == i,
                        self@ == feed.advertised(found, i as nat),
                        self@.version == feed.version,
                        self@.version.rank() >= 6 ==> self.next_id <= feed.next_id + i,
                        feed.version.rank() >= 6 ==> feed.next_id + routes@.len() <= u64::MAX,
                        forall|j: int|
                            0 <= j < i ==> (#[trigger] adverts@[j])@ == first_advert(found[j]),
                    decreases routes@.len() - i,
                {
                    assert(found[i as int] == (routes@[i as int].0@, routes@[i as int].1@));
                    let suffix: Path = routes[i].0.clone();
                    let sent: SentRoute = routes[i].1.clone();
                    self.number(&suffix);
                    let ghost counted = self@;
                    match self.unwatch(&suffix) {
                        Some(entry) => {
                            self.watch(
                                &suffix,
                                WatchedRoute {
                                    channel: entry.channel,
                                    sent: Some(sent.clone()),
                                    idle_at: entry.idle_at,
                                },
                            );
                            assert(self@.watched =~= counted.watched.insert(
                                suffix@,
                                (Watched { sent: Some(sent@), ..counted.watched[suffix@] }),
                            ));
                        },
                        None => {
                            assert(self@.watched =~= counted.watched);
                        },
                    }
                    adverts.push(
                        Advert {
                            message: AnnounceBroadcast::Active { suffix, hops: sent.hops },
                            cost: sent.cost,
                        },
                    );
                    i += 1;
                }
                Opening::Ready { ok, adverts }
            },
        }
    }
}

/// Whether no two routes are for the same suffix.
pub open spec fn suffixes_distinct(routes: Seq<(Seq<Seq<char>>, Sent)>) -> bool {
    forall|i: int, j: int|
        0 <= i < j < routes.len() ==> (#[trigger] routes[i]).0 != (#[trigger] routes[j]).0
}

/// Leaving a suffix out keeps all other routes, once each.
proof fn other_routes_facts(routes: Seq<(Seq<Seq<char>>, Sent)>, suffix: Seq<Seq<char>>)
    ensures
        forall|route: (Seq<Seq<char>>, Sent)| #[trigger]
            other_routes(routes, suffix).contains(route) <==> routes.contains(route) && route.0
                != suffix,
        suffixes_distinct(routes) ==> suffixes_distinct(other_routes(routes, suffix)),
    decreases routes.len(),
{
    reveal(Seq::filter);
    let kept = other_routes(routes, suffix);
    if routes.len() > 0 {
        let rest = routes.drop_last();
        let before = other_routes(rest, suffix);
        let last = routes.last();
        other_routes_facts(rest, suffix);
        assert(routes =~= rest.push(last));
        if last.0 != suffix {
            assert(kept =~= before.push(last));
        } else {
            assert(kept =~= before);
        }
        assert forall|route: (Seq<Seq<char>>, Sent)| #[trigger] kept.contains(route) implies
            routes.contains(route) && route.0 != suffix by {
            let k = kept.index_of(route);
            if k < before.len() {
                assert(before[k] == route);
                assert(before.contains(route));
                let m = rest.index_of(route);
                assert(routes[m] == route);
            } else {
                assert(routes[routes.len() - 1] == route);
            }
        }
        assert forall|route: (Seq<Seq<char>>, Sent)| routes.contains(route) && route.0
            != suffix implies #[trigger] kept.contains(route) by {
            let m = routes.index_of(route);
            if m < rest.len() {
                assert(rest[m] == route);
                assert(rest.contains(route));
                assert(before.contains(route));
                let k = before.index_of(route);
                assert(kept[k] == route);
            } else {
                assert(kept[kept.len() - 1] == route);
            }
        }
        if suffixes_distinct(routes) {
            assert(suffixes_distinct(rest)) by {
                assert forall|i: int, j: int| 0 <= i < j < rest.len() implies (
                #[trigger] rest[i]).0 != (#[trigger] rest[j]).0 by {
                    assert(routes[i].0 != routes[j].0);
                }
            }
            assert forall|i: int, j: int| 0 <= i < j < kept.len() implies (#[trigger] kept[i]).0
                != (#[trigger] kept[j]).0 by {
                if j < before.len() {
                    assert(before[i].0 != before[j].0);
                } else {
                    assert(kept[i] == before[i]);
                    assert(before.contains(before[i]));
                    let m = rest.index_of(before[i]);
                    assert(routes[m].0 != routes[routes.len() - 1].0);
                }
            }
        }
    } else {
        assert(kept =~= seq![]);
    }
}

impl FeedModel {
    /// Whether update `k` decides what the first `n` updates say of its suffix: it retracts it
    /// or offers a route that is forwarded, and nothing of the sort follows.
    pub open spec fn decides(
        self,
        updates: Seq<(Seq<Seq<char>>, Option<OfferModel>)>,
        n: nat,
        k: int,
    ) -> bool {
        &&& 0 <= k < n
        &&& self.settles(updates[k].1)
        &&& forall|j: int|
            k < j < n && (#[trigger] updates[j]).0 == updates[k].0 ==> !self.settles(updates[j].1)
    }

    /// Whether an update is a retraction, or an offer that is not filtered.
    pub open spec fn settles(self, offer: Option<OfferModel>) -> bool {
        match offer {
            None => true,
            Some(offer) => self.forwarded(offer.route, offer.used) is Some,
        }
    }

    /// Whether the first `n` updates leave a route to advertise: the update that decides offers
    /// it.
    pub open spec fn leaves(
        self,
        updates: Seq<(Seq<Seq<char>>, Option<OfferModel>)>,
        n: nat,
        route: (Seq<Seq<char>>, Sent),
    ) -> bool {
        exists|k: int|
            #![trigger updates[k]]
            {
                &&& self.decides(updates, n, k)
                &&& updates[k].0 == route.0
                &&& updates[k].1 matches Some(offer) && self.forwarded(offer.route, offer.used)
                    == Some(route.1)
            }
    }
}

/// Opening an Announce Stream advertises each suffix at most once, with the route that the
/// last update which was not filtered offers, unless a later one retracts it.
pub proof fn opening_advertises_the_last_offers(
    feed: FeedModel,
    updates: Seq<(Seq<Seq<char>>, Option<OfferModel>)>,
    n: nat,
)
    requires
        n <= updates.len(),
    ensures
        suffixes_distinct(feed.collected(updates, n).1),
        forall|route: (Seq<Seq<char>>, Sent)| #[trigger]
            feed.collected(updates, n).1.contains(route) <==> feed.leaves(updates, n, route),
    decreases n,
{
    let routes = feed.collected(updates, n).1;
    if n > 0 {
        let m = (n - 1) as nat;
        let (now, before) = feed.collected(updates, m);
        let (suffix, offer) = updates[n - 1];
        opening_advertises_the_last_offers(feed, updates, m);
        collected_len(feed, updates, m);
        other_routes_facts(before, suffix);
        let kept = other_routes(before, suffix);
        let settled = feed.settles(offer);
        if offer is Some && settled {
            let sent = feed.forwarded(offer->Some_0.route, offer->Some_0.used)->Some_0;
            assert(routes == kept.push((suffix, sent)));
            assert forall|i: int, j: int| 0 <= i < j < routes.len() implies (#[trigger] routes[i]).0
                != (#[trigger] routes[j]).0 by {
                if j < kept.len() {
                    assert(kept[i].0 != kept[j].0);
                } else {
                    assert(kept.contains(kept[i]));
                }
            }
        }
        assert forall|route: (Seq<Seq<char>>, Sent)| #[trigger]
            routes.contains(route) <==> feed.leaves(updates, n, route) by {
            if settled && route.0 == suffix {
                assert(feed.decides(updates, n, n - 1));
                if routes.contains(route) {
                    let i = routes.index_of(route);
                    if i < kept.len() {
                        assert(kept[i] == route);
                        assert(kept.contains(route));
                    }
                    assert(updates[n - 1].0 == route.0);
                }
                if feed.leaves(updates, n, route) {
                    let k = choose|k: int|
                        #![trigger updates[k]]
                        {
                            &&& feed.decides(updates, n, k)
                            &&& updates[k].0 == route.0
                            &&& updates[k].1 matches Some(offer) && feed.forwarded(
                                offer.route,
                                offer.used,
                            ) == Some(route.1)
                        };
                    if k != n - 1 {
                        assert(updates[n - 1].0 == updates[k].0);
                    }
                    assert(routes[routes.len() - 1] == route);
                }
            } else {
                assert(routes.contains(route) <==> before.contains(route)) by {
                    if settled && offer is Some {
                        let added = routes.last();
                        if kept.contains(route) {
                            let i = kept.index_of(route);
                            assert(routes[i] == route);
                        }
                        if routes.contains(route) {
                            let i = routes.index_of(route);
                            if i < kept.len() {
                                assert(kept[i] == route);
                                assert(kept.contains(route));
                            }
                        }
                    }
                }
                if feed.leaves(updates, m, route) {
                    let k = choose|k: int|
                        #![trigger updates[k]]
                        {
                            &&& feed.decides(updates, m, k)
                            &&& updates[k].0 == route.0
                            &&& updates[k].1 matches Some(offer) && feed.forwarded(
                                offer.route,
                                offer.used,
                            ) == Some(route.1)
                        };
                    assert(feed.decides(updates, n, k));
                }
                if feed.leaves(updates, n, route) {
                    let k = choose|k: int|
                        #![trigger updates[k]]
                        {
                            &&& feed.decides(updates, n, k)
                            &&& updates[k].0 == route.0
                            &&& updates[k].1 matches Some(offer) && feed.forwarded(
                                offer.route,
                                offer.used,
                            ) == Some(route.1)
                        };
                    assert(k != n - 1);
                    assert(feed.decides(updates, m, k));
                }
            }
        }
    }
}

impl FeedModel {
    /// Whether a broadcast is among the routes that are advertised first, with its hop chain
    /// unchanged and at no cost where it is in demand (or the version has no costs), unless the
    /// chain passed through us or through the hop to exclude.
    pub open spec fn opened_for(
        self,
        routes: Seq<(Seq<Seq<char>>, Sent)>,
        broadcast: (Seq<Seq<char>>, OfferModel),
    ) -> bool {
        let (suffix, offer) = broadcast;
        let hops = offer.route.hops;
        if hops.contains(self.self_origin) || (self.exclude_hop != 0 && hops.contains(
            Origin::of(self.exclude_hop),
        )) {
            forall|j: int| 0 <= j < routes.len() ==> (#[trigger] routes[j]).0 != suffix
        } else {
            exists|j: int|
                0 <= j < routes.len() && (#[trigger] first_advert(routes[j])) == (AdvertModel {
                    message: AnnounceModel::Active { suffix, hops },
                    cost: if self.version.rank() < 6 || offer.used {
                        0
                    } else {
                        offer.route.cost
                    },
                })
        }
    }
}

/// An Announce Stream (lite-05+) opens with exactly one message for each broadcast whose hop
/// chain passed neither through us nor through the hop to exclude: an active announcement of
/// its suffix with the chain unchanged, and no suffix twice. `broadcasts` are those that the
/// origin announces, each once.
pub proof fn opening_is_one_active_per_broadcast(
    feed: FeedModel,
    broadcasts: Seq<(Seq<Seq<char>>, OfferModel)>,
)
    requires
        feed.version.rank() >= 5,
        forall|i: int, j: int|
            0 <= i < j < broadcasts.len() ==> (#[trigger] broadcasts[i]).0 != (
            #[trigger] broadcasts[j]).0,
    ensures
        ({
            let updates = broadcasts.map_values(
                |broadcast: (Seq<Seq<char>>, OfferModel)| (broadcast.0, Some(broadcast.1)),
            );
            let routes = feed.collected(updates, updates.len()).1;
            &&& suffixes_distinct(routes)
            &&& forall|i: int|
                0 <= i < broadcasts.len() ==> feed.opened_for(routes, #[trigger] broadcasts[i])
            &&& forall|j: int|
                0 <= j < routes.len() ==> exists|i: int|
                    0 <= i < broadcasts.len() && (#[trigger] broadcasts[i]).0 == (
                    #[trigger] routes[j]).0
        }),
{
    let updates = broadcasts.map_values(
        |broadcast: (Seq<Seq<char>>, OfferModel)| (broadcast.0, Some(broadcast.1)),
    );
    let n = updates.len();
    let routes = feed.collected(updates, n).1;
    opening_advertises_the_last_offers(feed, updates, n);
    assert forall|j: int| 0 <= j < routes.len() implies exists|i: int|
        0 <= i < broadcasts.len() && (#[trigger] broadcasts[i]).0 == (#[trigger] routes[j]).0 by {
        assert(routes.contains(routes[j]));
        let k = choose|k: int|
            #![trigger updates[k]]
            {
                &&& feed.decides(updates, n, k)
                &&& updates[k].0 == routes[j].0
                &&& updates[k].1 matches Some(offer) && feed.forwarded(offer.route, offer.used)
                    == Some(routes[j].1)
            };
        assert(broadcasts[k].0 == routes[j].0);
    }
    assert forall|i: int| 0 <= i < broadcasts.len() implies feed.opened_for(
        routes,
        #[trigger] broadcasts[i],
    ) by {
        let (suffix, offer) = broadcasts[i];
        assert(updates[i] == (suffix, Some(offer)));
        match feed.forwarded(offer.route, offer.used) {
            None => {
                assert forall|j: int| 0 <= j < routes.len() implies (#[trigger] routes[j]).0
                    != suffix by {
                    assert(routes.contains(routes[j]));
                    let k = choose|k: int|
                        #![trigger updates[k]]
                        {
                            &&& feed.decides(updates, n, k)
                            &&& updates[k].0 == routes[j].0
                            &&& updates[k].1 matches Some(offer) && feed.forwarded(
                                offer.route,
                                offer.used,
                            ) == Some(routes[j].1)
                        };
                    assert(updates[k] == (broadcasts[k].0, Some(broadcasts[k].1)));
                    assert(k != i);
                }
            },
            Some(sent) => {
                assert(feed.decides(updates, n, i)) by {
                    assert forall|j: int| i < j < n && (#[trigger] updates[j]).0
                        == updates[i].0 implies !feed.settles(updates[j].1) by {
                        assert(broadcasts[j].0 == updates[j].0);
                    }
                }
                assert(feed.leaves(updates, n, (suffix, sent)));
                assert(routes.contains((suffix, sent)));
                let j = routes.index_of((suffix, sent));
                assert(first_advert(routes[j]).message == (AnnounceModel::Active {
                    suffix,
                    hops: offer.route.hops,
                }));
                assert(first_advert(routes[j]).cost == sent.cost);
            },
        }
    }
}

/// Whether the linger that started at `at` is over.
fn linger_over(at: Instant, fired: Option<Instant>) -> (r: bool)
    ensures
        r == (fired is Some && fired->Some_0.nanos >= at.nanos + COST_LINGER_NANOS),
{
    match fired {
        Some(now) => now.nanos >= at.nanos && now.nanos - at.nanos >= COST_LINGER_NANOS,
        None => false,
    }
}

/// What the peer makes of the messages it gets: which paths are live with which route, and
/// which id names which path.
pub struct Peer {
    pub next_id: u64,
    pub names: Map<u64, Seq<Seq<char>>>,
    pub live: Map<Seq<Seq<char>>, Sent>,
}

impl Peer {
    /// The peer after a message.
    pub open spec fn told(self, version: Version, advert: AdvertModel) -> Peer {
        match advert.message {
            AnnounceModel::Active { suffix, hops } => {
                let live = self.live.insert(suffix, Sent { hops, cost: advert.cost });
                if version.rank() >= 6 {
                    Peer {
                        next_id: (self.next_id + 1) as u64,
                        names: self.names.insert(self.next_id, suffix),
                        live,
                    }
                } else {
                    Peer { live, ..self }
                }
            },
            AnnounceModel::Ended { suffix, .. } => Peer { live: self.live.remove(suffix), ..self },
            AnnounceModel::EndedId { id } => Peer {
                names: self.names.remove(id),
                live: self.live.remove(self.names[id]),
                ..self
            },
            AnnounceModel::Restart { id, hops } => Peer {
                live: self.live.insert(self.names[id], Sent { hops, cost: advert.cost }),
                ..self
            },
        }
    }

    /// The peer after a message, if there is one.
    pub open spec fn maybe_told(self, version: Version, advert: Option<AdvertModel>) -> Peer {
        match advert {
            Some(advert) => self.told(version, advert),
            None => self,
        }
    }
}

/// Whether the feed and the peer agree: what the feed holds to have sent for a watched path
/// is what the peer has live, and every id names the same path on both sides.
pub open spec fn in_step(feed: FeedModel, peer: Peer) -> bool {
    &&& forall|suffix: Seq<Seq<char>>| #[trigger]
        feed.watched.contains_key(suffix) ==> feed.watched[suffix].sent
            == if peer.live.contains_key(suffix) {
            Some(peer.live[suffix])
        } else {
            None
        }
    &&& feed.version.rank() >= 6 ==> {
        &&& peer.next_id == feed.next_id
        &&& forall|suffix: Seq<Seq<char>>| #[trigger]
            feed.ids.contains_key(suffix) <==> peer.live.contains_key(suffix)
        &&& forall|suffix: Seq<Seq<char>>| #[trigger]
            feed.ids.contains_key(suffix) ==> feed.ids[suffix] < feed.next_id
                && peer.names.contains_key(feed.ids[suffix]) && peer.names[feed.ids[suffix]]
                == suffix
    }
}

/// A feed that has sent nothing agrees with a peer that has seen nothing.
pub proof fn feed_starts_in_step(feed: FeedModel)
    requires
        feed.watched == Map::<Seq<Seq<char>>, Watched>::empty(),
        feed.ids == Map::<Seq<Seq<char>>, u64>::empty(),
        feed.next_id == 0,
    ensures
        in_step(feed, Peer { next_id: 0, names: Map::empty(), live: Map::empty() }),
{
}

/// However broadcasts come and go and change their routes, the peer holds what the feed holds
/// to have sent, as long as only what is not live is announced.
#[verifier::rlimit(60)]
pub proof fn peer_stays_in_step(
    feed: FeedModel,
    peer: Peer,
    suffix: Seq<Seq<char>>,
    offer: OfferModel,
)
    requires
        feed.version.rank() >= 5,
        feed.next_id < u64::MAX,
        in_step(feed, peer),
    ensures
        ({
            let (after, advert) = feed.announced(suffix, offer);
            !peer.live.contains_key(suffix) ==> in_step(
                after,
                peer.maybe_told(feed.version, advert),
            )
        }),
        ({
            let (after, advert) = feed.unannounced(suffix);
            in_step(after, peer.maybe_told(feed.version, advert))
        }),
        ({
            let (after, advert) = feed.rerouted(suffix, offer.route, offer.used);
            in_step(after, peer.maybe_told(feed.version, advert))
        }),
        in_step(FeedModel { watched: feed.watched.remove(suffix), ..feed }, peer),
{
    if feed.watched.contains_key(suffix) {
        assert(feed.watched[suffix].sent == if peer.live.contains_key(suffix) {
            Some(peer.live[suffix])
        } else {
            None
        });
    }
    assert(feed.version.rank() >= 6 ==> (feed.ids.contains_key(suffix)
        <==> peer.live.contains_key(suffix)));
    let (after, advert) = feed.announced(suffix, offer);
    if !peer.live.contains_key(suffix) {
        assert(in_step(after, peer.maybe_told(feed.version, advert)));
    }
    let (after, advert) = feed.unannounced(suffix);
    assert(in_step(after, peer.maybe_told(feed.version, advert)));
    let (after, advert) = feed.rerouted(suffix, offer.route, offer.used);
    assert(in_step(after, peer.maybe_told(feed.version, advert)));
}

/// A drained broadcast keeps advertising zero until the linger is over, and demand that
/// returns before that cancels the restore.
pub proof fn restore_waits_for_the_linger(
    version: Version,
    entry: Watched,
    at: Instant,
    fired: Option<Instant>,
    seen: Observation,
)
    requires
        version.rank() >= 6,
        entry.sent is Some,
        entry.sent->Some_0.cost == 0,
        entry.idle_at == Some(at),
        seen.changed is Pending,
    ensures
        turn_of(version, entry, fired, seen).0 == Turn::Reroute <==> !seen.used && fired is Some
            && fired->Some_0.nanos >= at.nanos + COST_LINGER_NANOS,
        seen.used ==> turn_of(version, entry, fired, seen).1 is None,
{
}

/// Nothing that passed through us, or through the peer that excludes it, is forwarded; and
/// what is forwarded fits the wire.
pub proof fn forwarding_never_loops(
    hops: Seq<Origin>,
    self_origin: Origin,
    exclude_hop: u64,
    version: Version,
)
    requires
        hops.len() <= MAX_HOPS,
    ensures
        hops.contains(self_origin) ==> hops_of(hops, self_origin, exclude_hop, version) is None,
        exclude_hop != 0 && hops.contains(Origin::of(exclude_hop)) ==> hops_of(
            hops,
            self_origin,
            exclude_hop,
            version,
        ) is None,
        hops_of(hops, self_origin, exclude_hop, version) matches Some(chain) ==> chain.len()
            <= MAX_HOPS,
{
}

/// Whatever may be forwarded is: a chain that passed neither through us nor through the hop to
/// exclude goes out unchanged, or, before lite-05, with us added at its end if there is room.
pub proof fn forwarding_keeps_the_chain(
    hops: Seq<Origin>,
    self_origin: Origin,
    exclude_hop: u64,
    version: Version,
)
    requires
        !hops.contains(self_origin),
        exclude_hop == 0 || !hops.contains(Origin::of(exclude_hop)),
    ensures
        ({
            let chain = hops_of(hops, self_origin, exclude_hop, version);
            &&& version.rank() >= 5 ==> chain == Some(hops)
            &&& version.rank() < 5 ==> (chain is Some <==> hops.len() < MAX_HOPS)
            &&& version.rank() < 5 ==> (chain matches Some(chain) ==> {
                &&& chain.len() == hops.len() + 1
                &&& chain.drop_last() == hops
                &&& chain.last() == self_origin
            })
        }),
{
    assert(hops.push(self_origin).drop_last() =~= hops);
}

/// A route that is in demand costs the next subscriber nothing, any other what it costs us; a
/// version without costs is told none.
pub proof fn demand_makes_a_route_free(version: Version, used: bool, cost: u64)
    ensures
        cost_of(version, true, cost) == 0,
        version.rank() < 6 ==> cost_of(version, used, cost) == 0,
        version.rank() >= 6 ==> cost_of(version, false, cost) == cost,
{
}

/// Whether what the peer has live for a path is what may be forwarded of a route: nothing if
/// its chain passed through us or the hop to exclude, and otherwise the chain itself, free of
/// cost while it is in demand.
pub open spec fn current(
    feed: FeedModel,
    peer: Peer,
    suffix: Seq<Seq<char>>,
    route: RouteModel,
    used: bool,
) -> bool {
    let blocked = route.hops.contains(feed.self_origin) || (feed.exclude_hop != 0
        && route.hops.contains(Origin::of(feed.exclude_hop)));
    &&& peer.live.contains_key(suffix) <==> !blocked
    &&& !blocked ==> {
        &&& peer.live[suffix].hops == route.hops
        &&& feed.version.rank() < 6 || used ==> peer.live[suffix].cost == 0
        &&& feed.version.rank() >= 6 && !used ==> peer.live[suffix].cost == route.cost
    }
}

/// Whether a peer has the same live, but for one path.
pub open spec fn same_elsewhere(before: Peer, after: Peer, suffix: Seq<Seq<char>>) -> bool {
    forall|other: Seq<Seq<char>>|
        #![trigger after.live.contains_key(other)]
        #![trigger before.live.contains_key(other)]
        other != suffix ==> {
            &&& after.live.contains_key(other) <==> before.live.contains_key(other)
            &&& before.live.contains_key(other) ==> after.live[other] == before.live[other]
        }
}

/// A look at a watched broadcast brings the peer up to date: what it then has live for the path
/// is what may be forwarded of the route as it is now. Nothing is sent if that is what the peer
/// had, no other path is touched, and no restore stays pending.
#[verifier::rlimit(60)]
pub proof fn rerouting_brings_the_peer_up_to_date(
    feed: FeedModel,
    peer: Peer,
    suffix: Seq<Seq<char>>,
    route: RouteModel,
    used: bool,
)
    requires
        feed.version.rank() >= 5,
        in_step(feed, peer),
        feed.watched.contains_key(suffix),
    ensures
        ({
            let (after, advert) = feed.rerouted(suffix, route, used);
            let told = peer.maybe_told(feed.version, advert);
            &&& current(feed, told, suffix, route, used)
            &&& same_elsewhere(peer, told, suffix)
            &&& advert is None <==> current(feed, peer, suffix, route, used)
            &&& after.watched.contains_key(suffix)
            &&& after.watched[suffix].channel == feed.watched[suffix].channel
            &&& after.watched[suffix].idle_at is None
            &&& after.watched.remove(suffix) == feed.watched.remove(suffix)
            &&& after.version == feed.version
            &&& after.self_origin == feed.self_origin
            &&& after.exclude_hop == feed.exclude_hop
        }),
{
    let (after, advert) = feed.rerouted(suffix, route, used);
    assert(feed.watched[suffix].sent == if peer.live.contains_key(suffix) {
        Some(peer.live[suffix])
    } else {
        None
    });
    assert(feed.version.rank() >= 6 ==> (feed.ids.contains_key(suffix)
        <==> peer.live.contains_key(suffix)));
    assert(after.watched.remove(suffix) =~= feed.watched.remove(suffix));
    let told = peer.maybe_told(feed.version, advert);
    assert(same_elsewhere(peer, told, suffix));
}

/// A look at a broadcast that is not watched sends nothing and changes nothing.
pub proof fn unwatched_broadcast_is_left_alone(
    feed: FeedModel,
    suffix: Seq<Seq<char>>,
    route: RouteModel,
    used: bool,
)
    requires
        !feed.watched.contains_key(suffix),
    ensures
        feed.rerouted(suffix, route, used) == (feed, None::<AdvertModel>),
{
}

/// A broadcast that comes is told to the peer with the route that it has, unless that must not
/// be forwarded, and from lite-05 on it is watched from then on.
pub proof fn announcing_tells_the_peer(
    feed: FeedModel,
    peer: Peer,
    suffix: Seq<Seq<char>>,
    offer: OfferModel,
)
    requires
        feed.version.rank() >= 6 ==> in_step(feed, peer),
        !peer.live.contains_key(suffix),
    ensures
        ({
            let (after, advert) = feed.announced(suffix, offer);
            let told = peer.maybe_told(feed.version, advert);
            &&& same_elsewhere(peer, told, suffix)
            &&& feed.version.rank() >= 5 ==> {
                &&& current(feed, told, suffix, offer.route, offer.used)
                &&& after.watched.contains_key(suffix)
                &&& after.watched[suffix].channel == offer.channel
                &&& after.watched[suffix].idle_at is None
                &&& after.watched.remove(suffix) == feed.watched.remove(suffix)
            }
            &&& feed.version.rank() < 5 && !offer.route.hops.contains(feed.self_origin) && (
            feed.exclude_hop == 0 || !offer.route.hops.contains(Origin::of(feed.exclude_hop)))
                && offer.route.hops.len() < MAX_HOPS ==> {
                &&& told.live.contains_key(suffix)
                &&& told.live[suffix].hops == offer.route.hops.push(feed.self_origin)
                &&& told.live[suffix].cost == 0
            }
        }),
{
    let (after, advert) = feed.announced(suffix, offer);
    let told = peer.maybe_told(feed.version, advert);
    assert(same_elsewhere(peer, told, suffix));
    if feed.version.rank() >= 5 {
        assert(after.watched.remove(suffix) =~= feed.watched.remove(suffix));
    }
}

/// A broadcast that goes away is gone for the peer too, no other path is touched, and it is no
/// longer watched. A peer that held nothing for a watched path is told nothing.
pub proof fn ending_tells_the_peer(feed: FeedModel, peer: Peer, suffix: Seq<Seq<char>>)
    requires
        in_step(feed, peer),
    ensures
        ({
            let (after, advert) = feed.unannounced(suffix);
            let told = peer.maybe_told(feed.version, advert);
            &&& !told.live.contains_key(suffix)
            &&& same_elsewhere(peer, told, suffix)
            &&& after.watched == feed.watched.remove(suffix)
            &&& feed.watched.contains_key(suffix) ==> (advert is Some
                <==> peer.live.contains_key(suffix))
        }),
{
    let (after, advert) = feed.unannounced(suffix);
    if feed.watched.contains_key(suffix) {
        assert(feed.watched[suffix].sent == if peer.live.contains_key(suffix) {
            Some(peer.live[suffix])
        } else {
            None
        });
    }
    assert(feed.version.rank() >= 6 ==> (feed.ids.contains_key(suffix)
        <==> peer.live.contains_key(suffix)));
    let told = peer.maybe_told(feed.version, advert);
    assert(same_elsewhere(peer, told, suffix));
}

/// A change of the route is always followed up, and so is its end.
pub proof fn route_changes_are_followed_up(
    version: Version,
    entry: Watched,
    fired: Option<Instant>,
    seen: Observation,
)
    ensures
        seen.changed matches Poll::Ready(Ok(_)) ==> turn_of(version, entry, fired, seen) == (
            Turn::Reroute,
            entry.idle_at,
        ),
        seen.changed matches Poll::Ready(Err(_)) ==> turn_of(version, entry, fired, seen) == (
            Turn::Gone,
            entry.idle_at,
        ),
{
}

/// Where nothing is called for and no restore is pending, the price that the peer knows is
/// right: free exactly while the broadcast is in demand. Something is called for only if it is
/// not, and a free broadcast is priced again only after a linger.
pub proof fn price_follows_demand(
    version: Version,
    entry: Watched,
    fired: Option<Instant>,
    seen: Observation,
)
    requires
        version.rank() >= 6,
        entry.sent is Some,
        seen.changed is Pending,
        !seen.closed,
    ensures
        ({
            let (turn, idle_at) = turn_of(version, entry, fired, seen);
            let free = entry.sent->Some_0.cost == 0;
            &&& turn == Turn::Quiet && idle_at is None ==> free == seen.used
            &&& turn == Turn::Reroute ==> free != seen.used
            &&& turn == Turn::Idle ==> free && !seen.used && entry.idle_at is None
            &&& turn != Turn::Gone
            &&& !free && seen.used ==> turn == Turn::Reroute
            &&& free && !seen.used && entry.idle_at is None ==> turn == Turn::Idle
            &&& free && turn == Turn::Reroute ==> (entry.idle_at matches Some(at)
                && fired matches Some(now) && now.nanos >= at.nanos + 5_000_000_000)
            &&& free && turn == Turn::Quiet && !seen.used ==> idle_at == entry.idle_at
            &&& free && !seen.used && (entry.idle_at matches Some(at) && fired matches Some(now)
                && now.nanos >= at.nanos + 5_000_000_000) ==> turn == Turn::Reroute
        }),
{
}

/// Without costs, or with nothing told, only a change of the route calls for something.
pub proof fn unpriced_broadcast_is_quiet(
    version: Version,
    entry: Watched,
    fired: Option<Instant>,
    seen: Observation,
)
    requires
        version.rank() < 6 || entry.sent is None,
        seen.changed is Pending,
    ensures
        turn_of(version, entry, fired, seen) == (Turn::Quiet, entry.idle_at),
{
}

/// No watched broadcast is passed over: a look at all of them finds one exactly if one calls for
/// something, and it is the first such in the order given.
pub proof fn no_watched_broadcast_is_missed(
    feed: FeedModel,
    seen: Seq<(Seq<Seq<char>>, Observation)>,
    start: int,
    fired: Option<Instant>,
)
    requires
        0 <= start <= seen.len(),
        forall|i: int, j: int|
            0 <= i < j < seen.len() ==> (#[trigger] seen[i]).0 != (#[trigger] seen[j]).0,
    ensures
        ({
            let (after, found) = feed.scan(seen, start, fired);
            let busy = |i: int|
                start <= i < seen.len() && feed.watched.contains_key(seen[i].0) && turn_of(
                    feed.version,
                    feed.watched[seen[i].0],
                    fired,
                    seen[i].1,
                ).0 != Turn::Quiet;
            &&& found is None <==> !exists|i: int| #[trigger] busy(i)
            &&& found matches Some((suffix, turn)) ==> exists|i: int|
                {
                    &&& #[trigger] busy(i)
                    &&& seen[i].0 == suffix
                    &&& turn == turn_of(
                        feed.version,
                        feed.watched[suffix],
                        fired,
                        seen[i].1,
                    ).0
                    &&& forall|j: int| #[trigger] busy(j) ==> i <= j
                }
            &&& after.ids == feed.ids
            &&& after.next_id == feed.next_id
            &&& after.version == feed.version
            &&& after.watched.dom() == feed.watched.dom()
            &&& forall|suffix: Seq<Seq<char>>| #[trigger]
                feed.watched.contains_key(suffix) ==> after.watched[suffix].sent
                    == feed.watched[suffix].sent && after.watched[suffix].channel
                    == feed.watched[suffix].channel
        }),
    decreases seen.len() - start,
{
    let busy = |i: int|
        start <= i < seen.len() && feed.watched.contains_key(seen[i].0) && turn_of(
            feed.version,
            feed.watched[seen[i].0],
            fired,
            seen[i].1,
        ).0 != Turn::Quiet;
    if start < seen.len() {
        let (suffix, sight) = seen[start];
        let (next, turn) = feed.look(suffix, fired, sight);
        assert(next.watched.dom() =~= feed.watched.dom());
        if turn == Turn::Quiet {
            no_watched_broadcast_is_missed(next, seen, start + 1, fired);
            let later = |i: int|
                start + 1 <= i < seen.len() && next.watched.contains_key(seen[i].0) && turn_of(
                    next.version,
                    next.watched[seen[i].0],
                    fired,
                    seen[i].1,
                ).0 != Turn::Quiet;
            assert forall|i: int| #[trigger] busy(i) implies later(i) by {
                assert(i != start);
                assert(seen[start].0 != seen[i].0);
            }
            assert forall|i: int| #[trigger] later(i) implies busy(i) by {
                assert(seen[start].0 != seen[i].0);
            }
            let (after, found) = next.scan(seen, start + 1, fired);
            if found is Some {
                let (at, todo) = found->Some_0;
                let i = choose|i: int|
                    {
                        &&& #[trigger] later(i)
                        &&& seen[i].0 == at
                        &&& todo == turn_of(next.version, next.watched[at], fired, seen[i].1).0
                        &&& forall|j: int| #[trigger] later(j) ==> i <= j
                    };
                assert(busy(i));
                assert(seen[start].0 != seen[i].0);
            }
        } else {
            assert(busy(start));
        }
    }
}

/// Whether the last of the first `n` updates for a suffix offers a broadcast.
pub open spec fn last_offered(
    updates: Seq<(Seq<Seq<char>>, Option<OfferModel>)>,
    n: nat,
    suffix: Seq<Seq<char>>,
) -> bool {
    exists|k: int|
        #![trigger updates[k]]
        {
            &&& 0 <= k < n
            &&& updates[k].0 == suffix
            &&& updates[k].1 is Some
            &&& forall|j: int| k < j < n ==> (#[trigger] updates[j]).0 != suffix
        }
}

proof fn other_suffixes_facts(suffixes: Seq<Seq<Seq<char>>>, suffix: Seq<Seq<char>>)
    ensures
        forall|other: Seq<Seq<char>>| #[trigger]
            others(suffixes, suffix).contains(other) <==> suffixes.contains(other) && other
                != suffix,
        suffixes.no_duplicates() ==> others(suffixes, suffix).no_duplicates(),
    decreases suffixes.len(),
{
    reveal(Seq::filter);
    let kept = others(suffixes, suffix);
    if suffixes.len() > 0 {
        let rest = suffixes.drop_last();
        let before = others(rest, suffix);
        let last = suffixes.last();
        other_suffixes_facts(rest, suffix);
        assert(suffixes =~= rest.push(last));
        if last != suffix {
            assert(kept =~= before.push(last));
        } else {
            assert(kept =~= before);
        }
        assert forall|other: Seq<Seq<char>>| #[trigger] kept.contains(other) implies
            suffixes.contains(other) && other != suffix by {
            let k = kept.index_of(other);
            if k < before.len() {
                assert(before[k] == other);
                assert(before.contains(other));
                let m = rest.index_of(other);
                assert(suffixes[m] == other);
            } else {
                assert(suffixes[suffixes.len() - 1] == other);
            }
        }
        assert forall|other: Seq<Seq<char>>|
            suffixes.contains(other) && other != suffix implies #[trigger] kept.contains(other) by {
            let m = suffixes.index_of(other);
            if m < rest.len() {
                assert(rest[m] == other);
                assert(before.contains(other));
                let k = before.index_of(other);
                assert(kept[k] == other);
            } else {
                assert(kept[kept.len() - 1] == other);
            }
        }
        if suffixes.no_duplicates() && last != suffix {
            assert forall|i: int, j: int| 0 <= i < j < kept.len() implies kept[i] != kept[j] by {
                if j == before.len() {
                    assert(before.contains(kept[i]));
                    let m = rest.index_of(kept[i]);
                    assert(suffixes[m] == kept[i]);
                }
            }
        }
    }
}

/// The active suffixes are those whose last update offers a broadcast, each once.
pub proof fn active_suffixes_are_the_last_offered(
    updates: Seq<(Seq<Seq<char>>, Option<OfferModel>)>,
    n: nat,
)
    requires
        n <= updates.len(),
    ensures
        active_suffixes(updates, n).no_duplicates(),
        forall|suffix: Seq<Seq<char>>| #[trigger]
            active_suffixes(updates, n).contains(suffix) <==> last_offered(updates, n, suffix),
    decreases n,
{
    let all = active_suffixes(updates, n);
    if n > 0 {
        let m = (n - 1) as nat;
        active_suffixes_are_the_last_offered(updates, m);
        let before = active_suffixes(updates, m);
        let (last, offer) = updates[n - 1];
        other_suffixes_facts(before, last);
        assert forall|suffix: Seq<Seq<char>>| #[trigger]
            all.contains(suffix) <==> last_offered(updates, n, suffix) by {
            if suffix != last {
                if last_offered(updates, n, suffix) {
                    let k = choose|k: int|
                        #![trigger updates[k]]
                        {
                            &&& 0 <= k < n
                            &&& updates[k].0 == suffix
                            &&& updates[k].1 is Some
                            &&& forall|j: int| k < j < n ==> (#[trigger] updates[j]).0 != suffix
                        };
                    assert(k != n - 1);
                    assert(updates[k].0 == suffix);
                    assert(last_offered(updates, m, suffix));
                }
                if last_offered(updates, m, suffix) {
                    let k = choose|k: int|
                        #![trigger updates[k]]
                        {
                            &&& 0 <= k < m
                            &&& updates[k].0 == suffix
                            &&& updates[k].1 is Some
                            &&& forall|j: int| k < j < m ==> (#[trigger] updates[j]).0 != suffix
                        };
                    assert(updates[k].0 == suffix);
                    assert(last_offered(updates, n, suffix));
                }
                if offer is Some && !before.contains(last) {
                    if before.contains(suffix) {
                        assert(all[before.index_of(suffix)] == suffix);
                    }
                    if all.contains(suffix) {
                        let i = all.index_of(suffix);
                        assert(before[i] == suffix);
                    }
                }
            } else {
                if offer is Some {
                    assert(updates[n - 1].0 == suffix);
                    assert(last_offered(updates, n, suffix));
                    if !before.contains(last) {
                        assert(all[all.len() - 1] == suffix);
                    }
                } else {
                    if last_offered(updates, n, suffix) {
                        let k = choose|k: int|
                            #![trigger updates[k]]
                            {
                                &&& 0 <= k < n
                                &&& updates[k].0 == suffix
                                &&& updates[k].1 is Some
                                &&& forall|j: int|
                                    k < j < n ==> (#[trigger] updates[j]).0 != suffix
                            };
                        assert(updates[n - 1].0 == suffix);
                    }
                }
            }
        }
    }
}

/// The peer after the first `n` routes were advertised to it.
pub open spec fn introduced(
    peer: Peer,
    version: Version,
    routes: Seq<(Seq<Seq<char>>, Sent)>,
    n: nat,
) -> Peer
    decreases n,
{
    if n == 0 {
        peer
    } else {
        let (suffix, sent) = routes[n - 1];
        introduced(peer, version, routes, (n - 1) as nat).told(
            version,
            AdvertModel {
                message: AnnounceModel::Active { suffix, hops: sent.hops },
                cost: sent.cost,
            },
        )
    }
}

/// Advertising routes keeps the feed and the peer in step: what the feed holds to have sent, and
/// under which id, is what the peer took from the messages.
pub proof fn opening_leaves_the_peer_in_step(
    feed: FeedModel,
    peer: Peer,
    routes: Seq<(Seq<Seq<char>>, Sent)>,
    n: nat,
)
    requires
        in_step(feed, peer),
        n <= routes.len(),
        feed.next_id + n <= u64::MAX,
    ensures
        in_step(feed.advertised(routes, n), introduced(peer, feed.version, routes, n)),
        feed.advertised(routes, n).version == feed.version,
        feed.advertised(routes, n).watched.dom() == feed.watched.dom(),
        feed.advertised(routes, n).next_id == if feed.version.rank() >= 6 {
            feed.next_id + n
        } else {
            feed.next_id as int
        },
    decreases n,
{
    if n > 0 {
        let m = (n - 1) as nat;
        opening_leaves_the_peer_in_step(feed, peer, routes, m);
        let now = feed.advertised(routes, m);
        let then = feed.advertised(routes, n);
        let before = introduced(peer, feed.version, routes, m);
        let after = introduced(peer, feed.version, routes, n);
        let (suffix, sent) = routes[n - 1];
        assert(then.watched.dom() =~= feed.watched.dom());
        assert forall|other: Seq<Seq<char>>| #[trigger]
            then.watched.contains_key(other) implies then.watched[other].sent
            == if after.live.contains_key(other) {
            Some(after.live[other])
        } else {
            None
        } by {
            assert(now.watched.contains_key(other));
        }
        if feed.version.rank() >= 6 {
            assert forall|other: Seq<Seq<char>>| #[trigger]
                then.ids.contains_key(other) <==> after.live.contains_key(other) by {
                assert(now.ids.contains_key(other) <==> before.live.contains_key(other));
            }
        }
    }
}

/// From lite-05 on everything that is offered when the stream opens is watched from then on,
/// with nothing sent before it is advertised, and what was retracted is not.
pub proof fn opening_watches_what_is_offered(
    feed: FeedModel,
    updates: Seq<(Seq<Seq<char>>, Option<OfferModel>)>,
    n: nat,
)
    requires
        n <= updates.len(),
        feed.watched == Map::<Seq<Seq<char>>, Watched>::empty(),
    ensures
        forall|suffix: Seq<Seq<char>>| #[trigger]
            feed.collected(updates, n).0.watched.contains_key(suffix) <==> last_offered(
                updates,
                n,
                suffix,
            ),
        forall|suffix: Seq<Seq<char>>| #[trigger]
            feed.collected(updates, n).0.watched.contains_key(suffix) ==> feed.collected(
                updates,
                n,
            ).0.watched[suffix].sent is None,
        feed.collected(updates, n).0 == (FeedModel {
            watched: feed.collected(updates, n).0.watched,
            ..feed
        }),
    decreases n,
{
    collected_len(feed, updates, n);
    let after = feed.collected(updates, n).0;
    if n > 0 {
        let m = (n - 1) as nat;
        opening_watches_what_is_offered(feed, updates, m);
        let before = feed.collected(updates, m).0;
        let (last, offer) = updates[n - 1];
        assert forall|suffix: Seq<Seq<char>>| #[trigger]
            after.watched.contains_key(suffix) <==> last_offered(updates, n, suffix) by {
            assert(before.watched.contains_key(suffix) <==> last_offered(updates, m, suffix));
            if suffix != last {
                if last_offered(updates, n, suffix) {
                    let k = choose|k: int|
                        #![trigger updates[k]]
                        {
                            &&& 0 <= k < n
                            &&& updates[k].0 == suffix
                            &&& updates[k].1 is Some
                            &&& forall|j: int| k < j < n ==> (#[trigger] updates[j]).0 != suffix
                        };
                    assert(k != n - 1);
                    assert(updates[k].0 == suffix);
                    assert(last_offered(updates, m, suffix));
                }
                if last_offered(updates, m, suffix) {
                    let k = choose|k: int|
                        #![trigger updates[k]]
                        {
                            &&& 0 <= k < m
                            &&& updates[k].0 == suffix
                            &&& updates[k].1 is Some
                            &&& forall|j: int| k < j < m ==> (#[trigger] updates[j]).0 != suffix
                        };
                    assert(updates[k].0 == suffix);
                    assert(last_offered(updates, n, suffix));
                }
            } else {
                assert(updates[n - 1].0 == suffix);
                if offer is None && last_offered(updates, n, suffix) {
                    let k = choose|k: int|
                        #![trigger updates[k]]
                        {
                            &&& 0 <= k < n
                            &&& updates[k].0 == suffix
                            &&& updates[k].1 is Some
                            &&& forall|j: int| k < j < n ==> (#[trigger] updates[j]).0 != suffix
                        };
                    assert(updates[n - 1].0 == suffix);
                }
            }
        }
        assert forall|suffix: Seq<Seq<char>>| #[trigger]
            after.watched.contains_key(suffix) implies after.watched[suffix].sent is None by {
            if suffix != last {
                assert(before.watched.contains_key(suffix));
            }
        }
    }
}

} // verus!
