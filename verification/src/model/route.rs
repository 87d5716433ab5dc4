//! The path that a broadcast takes.

use vstd::prelude::*;

use crate::model::origin::{Origin, OriginList, TooManyOrigins, MAX_HOPS};

verus! {

/// The path a broadcast takes to reach this origin, and how preferable it is.
///
/// Unlike the broadcast's static info, the route is dynamic: it changes when the serving
/// session fails over, the upstream topology shifts, or the publisher re-advertises itself.
#[derive(Debug)]
#[non_exhaustive]
pub struct Route {
    /// The chain of origins the broadcast has traversed, oldest first. Each relay appends its
    /// own origin when forwarding; used for loop detection and as the selection tie-break.
    pub hops: OriginList,
    /// The cost of pulling the broadcast via this route, accumulated per link: lower wins,
    /// with ties broken by hop length and then a deterministic hash.
    pub cost: u64,
    /// The cost as the announcing peer advertised it, before this link's charge was added to
    /// [`Self::cost`]. Local bookkeeping, never forwarded: zero on a chain of two or more
    /// hops means the announcing relay is actively carrying the broadcast.
    pub advertised: u64,
    /// Whether the broadcast should be announced. A non-announced broadcast stays reachable
    /// by exact path for subscribes and fetches. Defaults to `false`.
    pub announce: bool,
}

/// What a [`Route`] stands for.
pub struct RouteModel {
    pub hops: Seq<Origin>,
    pub cost: u64,
    pub advertised: u64,
    pub announce: bool,
}

impl View for Route {
    type V = RouteModel;

    open spec fn view(&self) -> RouteModel {
        RouteModel {
            hops: self.hops@,
            cost: self.cost,
            advertised: self.advertised,
            announce: self.announce,
        }
    }
}

impl RouteModel {
    /// A direct route: no hops, best cost.
    pub open spec fn direct(announce: bool) -> RouteModel {
        RouteModel { hops: seq![], cost: 0, advertised: 0, announce }
    }
}

impl Clone for Route {
    fn clone(&self) -> (r: Route)
        ensures
            r@ == self@,
    {
        Route {
            hops: self.hops.clone(),
            cost: self.cost,
            advertised: self.advertised,
            announce: self.announce,
        }
    }
}

impl Default for Route {
    fn default() -> (r: Route)
        ensures
            r@ == RouteModel::direct(false),
    {
        Route { hops: OriginList::new(), cost: 0, advertised: 0, announce: false }
    }
}

impl Route {
    /// An unannounced direct route: no hops, best cost.
    ///
    /// The broadcast is reachable only by its exact path, so subscribers must already know it
    /// exists. Use [`announced`](Self::announced) to advertise it instead.
    pub fn new() -> (r: Route)
        ensures
            r@ == RouteModel::direct(false),
    {
        Route::default()
    }

    /// An announced direct route: no hops, best cost.
    pub fn announced() -> (r: Route)
        ensures
            r@ == RouteModel::direct(true),
    {
        Route { hops: OriginList::new(), cost: 0, advertised: 0, announce: true }
    }

    /// Append a hop to the chain, oldest first.
    ///
    /// Fails with [`TooManyOrigins`] once the chain is full, the same limit the wire enforces.
    pub fn with_hop(self, origin: Origin) -> (r: Result<Route, TooManyOrigins>)
        ensures
            match r {
                Ok(route) => self@.hops.len() < MAX_HOPS && route@ == (RouteModel {
                    hops: self@.hops.push(origin),
                    ..self@
                }),
                Err(_) => self@.hops.len() >= MAX_HOPS,
            },
    {
        let mut route: Route = self;
        route.hops.push(origin)?;
        Ok(route)
    }

    /// Replace the hop chain.
    pub fn with_hops(self, hops: OriginList) -> (r: Route)
        ensures
            r@ == (RouteModel { hops: hops@, ..self@ }),
    {
        Route { hops, ..self }
    }

    /// Set the cost: lower wins among routes serving the same broadcast.
    pub fn with_cost(self, cost: u64) -> (r: Route)
        ensures
            r@ == (RouteModel { cost, ..self@ }),
    {
        Route { cost, ..self }
    }

    /// Set whether the broadcast is announced via this route.
    pub fn with_announce(self, announce: bool) -> (r: Route)
        ensures
            r@ == (RouteModel { announce, ..self@ }),
    {
        Route { announce, ..self }
    }

    /// Whether two routes are the same.
    pub fn same(&self, other: &Route) -> (r: bool)
        ensures
            r == (self@ == other@),
    {
        self.hops.same(&other.hops) && self.cost == other.cost && self.advertised
            == other.advertised && self.announce == other.announce
    }
}

/// A direct route passes through nobody and costs nothing.
pub proof fn direct_route_is_free(announce: bool)
    ensures
        ({
            let route = RouteModel::direct(announce);
            &&& route.hops.len() == 0
            &&& route.cost == 0
            &&& route.advertised == 0
            &&& route.announce == announce
        }),
{
}

} // verus!
