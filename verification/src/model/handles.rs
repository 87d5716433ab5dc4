//! Publishing to an origin, and consuming from it.

use vstd::prelude::*;

use crate::coding::encode::RoundTrip;
use crate::coding::{BoundsExceeded, Encode};
use crate::error::Error;
use crate::lite::Version;
use crate::model::announce::{
    announces, delivered, exact_taken, left_over, path_before, pending_at, with_pending, Announced,
    Update,
};
use crate::model::broadcast;
use crate::model::cache::Pool;
use crate::model::channels::Channels;
use crate::model::dynamic::{DynamicModel, OriginDynamicState, Request, Requested};
use crate::model::origin::{Info, Origin};
use crate::model::registry::{
    absolute_all, all_told, initial_updates, routes_at, with_routes, CursorModel, Cursors, Entries,
    Registry,
};
use crate::model::scope::{
    covers, minimal, minimal_covers_the_same, minimal_prefixes, path_models, rooted, selected,
    Scope,
};
use crate::model::tree::{
    has_channel, publish_entry, remove_entry, ChangeModel, Source, SourceModel,
};
use crate::path::{join_path, valid_part, valid_parts, Path};
use crate::poll::Poll;

verus! {

/// What the handles of one origin share: the announced broadcasts and who watches them, and
/// the requests for broadcasts that nobody announced.
pub struct OriginState {
    pub registry: Registry,
    pub requests: OriginDynamicState,
}

impl OriginState {
    /// What every origin satisfies.
    pub open spec fn well_formed(&self) -> bool {
        self.registry.well_formed() && self.requests.well_formed()
    }

    /// An origin that nothing was published to.
    pub fn new() -> (r: OriginState)
        ensures
            r.well_formed(),
            r.registry.entries() == Map::<Seq<Seq<char>>, crate::model::tree::Entry>::empty(),
            r.registry.watching() == Map::<u64, CursorModel>::empty(),
            r.registry.next_cursor == 0,
            r.requests@ == DynamicModel::empty(),
    {
        OriginState { registry: Registry::new(), requests: OriginDynamicState::new() }
    }
}

/// What a handle can see: the prefix that is stripped from all paths, and the prefixes below
/// it that are allowed.
pub struct Reach {
    /// The prefix that is automatically stripped from all paths.
    pub root: Path,
    /// The prefixes below the root that are allowed. An empty one allows anything.
    pub scope: Scope,
}

impl Clone for Reach {
    fn clone(&self) -> (r: Reach)
        ensures
            r.root@ == self.root@,
            r.scope@ == self.scope@,
    {
        Reach { root: self.root.clone(), scope: self.scope.clone() }
    }
}

impl Reach {
    /// Everything.
    pub fn full() -> (r: Reach)
        ensures
            r.root@ == Seq::<Seq<char>>::empty(),
            r.scope@ == seq![Seq::<Seq<char>>::empty()],
    {
        Reach { root: Path::empty(), scope: Scope::full() }
    }

    /// The same root, restricted to `prefixes`. `None` if they are disjoint from what is
    /// allowed.
    pub fn scoped(&self, prefixes: &Vec<Path>) -> (r: Option<Reach>)
        ensures
            ({
                let all = selected(self.scope@, minimal(path_models(prefixes@)));
                match r {
                    Some(reach) => reach.root@ == self.root@ && reach.scope@ == all && all.len() > 0,
                    None => all.len() == 0,
                }
            }),
    {
        let prefixes: Vec<Path> = minimal_prefixes(prefixes);
        match self.scope.select(&prefixes) {
            Some(scope) => Some(Reach { root: self.root.clone(), scope }),
            None => None,
        }
    }

    /// What is seen from below `prefix`. `None` if nothing is allowed there.
    pub fn rooted(&self, prefix: &Path) -> (r: Option<Reach>)
        ensures
            ({
                let all = if prefix@.len() == 0 {
                    self.scope@
                } else {
                    rooted(self.scope@, prefix@)
                };
                match r {
                    Some(reach) => reach.root@ == self.root@ + prefix@ && reach.scope@ == all,
                    None => prefix@.len() > 0 && all.len() == 0,
                }
            }),
    {
        match self.scope.root(prefix) {
            Some(scope) => Some(Reach { root: self.root.join(prefix), scope }),
            None => None,
        }
    }
}

/// Announces broadcasts to consumers over the network.
pub struct Producer {
    /// Identity for this origin. Appended to broadcast hops when re-announcing so downstream
    /// relays can detect loops and prefer the shortest path.
    pub info: Origin,
    /// The part of the tree that we are allowed to publish.
    pub reach: Reach,
    /// The cache pool inherited by broadcasts created under this origin.
    pub pool: Pool,
}

impl Clone for Producer {
    fn clone(&self) -> (r: Producer)
        ensures
            r.info == self.info,
            r.reach.root@ == self.reach.root@,
            r.reach.scope@ == self.reach.scope@,
            r.pool == self.pool,
    {
        Producer { info: self.info, reach: self.reach.clone(), pool: self.pool }
    }
}

impl Producer {
    /// Build a producer from an [`Info`] (identity + cache pool) with no scoped prefix.
    pub fn new(info: Info) -> (r: Producer)
        ensures
            r.info == info.id,
            r.pool == info.pool,
            r.reach.root@ == Seq::<Seq<char>>::empty(),
            r.reach.scope@ == seq![Seq::<Seq<char>>::empty()],
    {
        Producer { info: info.id, reach: Reach::full(), pool: info.pool }
    }

    /// This origin's [`Info`] (identity + cache pool).
    pub fn info(&self) -> (r: Info)
        ensures
            r.id == self.info,
            r.pool == self.pool,
    {
        Info::new(self.info).with_pool(self.pool)
    }

    /// A producer with *no* allowed prefixes: it can't publish anything and advertises no
    /// subscribe interest.
    pub fn empty(info: Origin) -> (r: Producer)
        ensures
            r.info == info,
            r.reach.root@ == Seq::<Seq<char>>::empty(),
            r.reach.scope@ == Seq::<Seq<Seq<char>>>::empty(),
            r.pool.capacity is None,
    {
        Producer {
            info,
            reach: Reach { root: Path::empty(), scope: Scope::nothing() },
            pool: Pool::default(),
        }
    }

    /// Why a path cannot be published, if so.
    pub open spec fn refused(&self, path: Seq<Seq<char>>) -> Option<Error> {
        if !covers(self.reach.scope@, path) {
            Some(Error::Unauthorized)
        } else if self.reach.root@.len() + path.len() > Path::MAX_PARTS {
            Some(Error::BoundsExceeded(BoundsExceeded))
        } else {
            None
        }
    }

    /// Publish a broadcast, announcing it to all consumers.
    ///
    /// Fails with [`Error::Unauthorized`] if `path` is outside the prefixes this producer may
    /// publish under. Fails with [`Error::BoundsExceeded`] if the full rooted path exceeds
    /// [`Path::MAX_PARTS`]. Callers must not publish a broadcast whose hop chain already
    /// contains this origin's id (it would form a routing loop).
    ///
    /// If there is already a broadcast with the same path, the new one replaces the active
    /// only if it has a shorter hop path, or an equal-length path that wins a deterministic
    /// tie-break; otherwise it is queued as a backup.
    pub fn publish_broadcast(&self, state: &mut OriginState, path: &Path, source: Source) -> (r:
        Result<Publish, Error>)
        requires
            old(state).well_formed(),
            !source@.hops.contains(self.info),
        ensures
            final(state).well_formed(),
            final(state).requests == old(state).requests,
            final(state).registry.next_cursor == old(state).registry.next_cursor,
            match self.refused(path@) {
                Some(err) => (r matches Err(e) && e == err) && final(state).registry == old(
                    state,
                ).registry,
                None => {
                    let full = self.reach.root@ + path@;
                    let (routes, change) = publish_entry(
                        full,
                        routes_at(old(state).registry.entries(), full),
                        source@,
                    );
                    &&& r matches Ok(publish) && publish.full@ == full && publish.channel
                        == source.channel
                    &&& final(state).registry.entries() == with_routes(
                        old(state).registry.entries(),
                        full,
                        routes,
                    )
                    &&& final(state).registry.watching() == all_told(
                        old(state).registry.watching(),
                        full,
                        change,
                    )
                },
            },
    {
        if !self.reach.scope.allows(path) {
            return Err(Error::Unauthorized);
        }
        let full: Path = self.reach.root.join(path);
        // A decoded announce prefix and suffix are each within the wire limit, but their join
        // might not be. Enforcing here bounds the tree depth and guarantees the path can be
        // re-encoded when forwarded.
        if full.len() > Path::MAX_PARTS {
            return Err(Error::BoundsExceeded(BoundsExceeded));
        }
        let channel: u64 = source.channel;
        state.registry.publish(&full, source);
        Ok(Publish { full, channel })
    }

    /// Create and publish a new broadcast with an empty hop chain, on the given channel.
    pub fn create_broadcast(&self, state: &mut OriginState, path: &Path, channel: u64) -> (r: Result<
        Broadcast,
        Error,
    >)
        requires
            old(state).well_formed(),
        ensures
            final(state).well_formed(),
            final(state).requests == old(state).requests,
            final(state).registry.next_cursor == old(state).registry.next_cursor,
            match self.refused(path@) {
                Some(err) => (r matches Err(e) && e == err) && final(state).registry == old(
                    state,
                ).registry,
                None => {
                    let full = self.reach.root@ + path@;
                    let source = SourceModel { channel, hops: seq![] };
                    let (routes, change) = publish_entry(
                        full,
                        routes_at(old(state).registry.entries(), full),
                        source,
                    );
                    &&& r matches Ok(broadcast) && broadcast.publish.full@ == full
                        && broadcast.publish.channel == channel && broadcast.producer.channel
                        == channel && broadcast.producer.info.origin.id == self.info
                        && broadcast.producer.info.origin.pool == self.pool
                        && broadcast.producer.state@ == broadcast::BroadcastModel::fresh(None)
                        && broadcast.producer.state.well_formed()
                    &&& final(state).registry.entries() == with_routes(
                        old(state).registry.entries(),
                        full,
                        routes,
                    )
                    &&& final(state).registry.watching() == all_told(
                        old(state).registry.watching(),
                        full,
                        change,
                    )
                },
            },
    {
        let info: broadcast::Info = broadcast::Info { origin: self.info() };
        let producer: broadcast::Producer = info.produce(channel);
        let source: Source = Source { channel, hops: crate::model::origin::OriginList::new() };
        let publish: Publish = self.publish_broadcast(state, path, source)?;
        Ok(Broadcast { producer, publish })
    }

    /// Returns a new producer restricted to publishing under one of `prefixes`.
    ///
    /// Returns `None` if there are no legal prefixes (the requested prefixes are disjoint from
    /// this producer's current scope).
    pub fn scope(&self, prefixes: &Vec<Path>) -> (r: Option<Producer>)
        ensures
            ({
                let all = selected(self.reach.scope@, minimal(path_models(prefixes@)));
                match r {
                    Some(producer) => producer.info == self.info && producer.pool == self.pool
                        && producer.reach.root@ == self.reach.root@ && producer.reach.scope@ == all
                        && all.len() > 0,
                    None => all.len() == 0,
                }
            }),
    {
        match self.reach.scoped(prefixes) {
            Some(reach) => Some(Producer { info: self.info, reach, pool: self.pool }),
            None => None,
        }
    }

    /// Create a dynamic handler that picks up requests for paths that are not announced.
    pub fn dynamic(&self, state: &mut OriginState) -> (r: Dynamic)
        requires
            old(state).well_formed(),
            old(state).requests.dynamic < usize::MAX,
        ensures
            final(state).well_formed(),
            final(state).registry == old(state).registry,
            r.info == self.info,
            r.root@ == self.reach.root@,
            final(state).requests@ == if old(state).requests@.closed {
                old(state).requests@
            } else {
                (DynamicModel {
                    dynamic: old(state).requests@.dynamic + 1,
                    ..old(state).requests@
                })
            },
    {
        state.requests.add_handler();
        Dynamic { info: self.info, root: self.reach.root.clone() }
    }

    /// Cheap read handle over this origin's broadcast tree.
    pub fn consume(&self) -> (r: Consumer)
        ensures
            r.info == self.info,
            r.reach.root@ == self.reach.root@,
            r.reach.scope@ == self.reach.scope@,
    {
        Consumer { info: self.info, reach: self.reach.clone() }
    }

    /// Handle to the announcement stream for this producer's subtree.
    pub fn announces(&self) -> (r: AnnounceProducer)
        ensures
            r.reach.root@ == self.reach.root@,
            r.reach.scope@ == self.reach.scope@,
    {
        AnnounceProducer { reach: self.reach.clone() }
    }

    /// Returns a new producer that automatically strips out the provided prefix.
    ///
    /// Returns `None` if the provided root is not authorized.
    pub fn with_root(&self, prefix: &Path) -> (r: Option<Producer>)
        ensures
            ({
                let all = if prefix@.len() == 0 {
                    self.reach.scope@
                } else {
                    rooted(self.reach.scope@, prefix@)
                };
                match r {
                    Some(producer) => producer.info == self.info && producer.pool == self.pool
                        && producer.reach.root@ == self.reach.root@ + prefix@
                        && producer.reach.scope@ == all,
                    None => prefix@.len() > 0 && all.len() == 0,
                }
            }),
    {
        match self.reach.rooted(prefix) {
            Some(reach) => Some(Producer { info: self.info, reach, pool: self.pool }),
            None => None,
        }
    }

    /// Returns the root that is automatically stripped from all paths.
    pub fn root(&self) -> (r: &Path)
        ensures
            *r == self.reach.root,
    {
        &self.reach.root
    }

    /// The path prefixes this handle is permitted to publish or subscribe under.
    pub fn allowed(&self) -> (r: &Vec<Path>)
        ensures
            path_models(r@) == self.reach.scope@,
    {
        &self.reach.scope.roots
    }

    /// Converts a relative path to an absolute path.
    pub fn absolute(&self, path: &Path) -> (r: Path)
        ensures
            r@ == self.reach.root@ + path@,
    {
        self.reach.root.join(path)
    }
}

/// Keeps a broadcast announced in the origin tree, until [`Self::unannounce`].
pub struct Publish {
    /// The absolute path.
    pub full: Path,
    /// The broadcast.
    pub channel: u64,
}

impl Publish {
    /// Unannounce the broadcast: the origin promotes the best remaining backup route (telling
    /// of a restart) or, if none remain, unannounces the path.
    pub fn unannounce(self, state: &mut OriginState)
        requires
            old(state).well_formed(),
            routes_at(old(state).registry.entries(), self.full@) matches Some(entry)
                ==> entry.active.channel == self.channel || has_channel(entry.backup, self.channel),
        ensures
            final(state).well_formed(),
            final(state).requests == old(state).requests,
            final(state).registry.next_cursor == old(state).registry.next_cursor,
            ({
                let (routes, change) = remove_entry(
                    self.full@,
                    routes_at(old(state).registry.entries(), self.full@),
                    self.channel,
                );
                &&& final(state).registry.entries() == with_routes(
                    old(state).registry.entries(),
                    self.full@,
                    routes,
                )
                &&& final(state).registry.watching() == all_told(
                    old(state).registry.watching(),
                    self.full@,
                    change,
                )
            }),
    {
        state.registry.remove(&self.full, self.channel);
    }
}

/// A [`broadcast::Producer`] paired with its [`Publish`] announcement guard.
pub struct Broadcast {
    pub producer: broadcast::Producer,
    pub publish: Publish,
}

impl Broadcast {
    /// Stop announcing the broadcast but keep producing into it, returning the bare producer.
    pub fn unannounce(self, state: &mut OriginState) -> (r: broadcast::Producer)
        requires
            old(state).well_formed(),
            routes_at(old(state).registry.entries(), self.publish.full@) matches Some(entry)
                ==> entry.active.channel == self.publish.channel || has_channel(
                entry.backup,
                self.publish.channel,
            ),
        ensures
            final(state).well_formed(),
            final(state).requests == old(state).requests,
            final(state).registry.next_cursor == old(state).registry.next_cursor,
            r == self.producer,
            ({
                let (routes, change) = remove_entry(
                    self.publish.full@,
                    routes_at(old(state).registry.entries(), self.publish.full@),
                    self.publish.channel,
                );
                &&& final(state).registry.entries() == with_routes(
                    old(state).registry.entries(),
                    self.publish.full@,
                    routes,
                )
                &&& final(state).registry.watching() == all_told(
                    old(state).registry.watching(),
                    self.publish.full@,
                    change,
                )
            }),
    {
        self.publish.unannounce(state);
        self.producer
    }
}

/// Picks up requests for broadcasts that are not announced.
///
/// A relay uses it as a fallback router, fetching a broadcast from upstream only when a
/// downstream consumer asks for an exact path that nobody announced. Served broadcasts are
/// deliberately *not* announced.
pub struct Dynamic {
    /// The origin this handler belongs to.
    pub info: Origin,
    /// The prefix that is automatically stripped from requested paths.
    pub root: Path,
}

impl Dynamic {
    /// The origin this handler belongs to.
    pub fn info(&self) -> (r: &Origin)
        ensures
            *r == self.info,
    {
        &self.info
    }

    /// Returns the prefix that is automatically stripped from requested paths.
    pub fn root(&self) -> (r: &Path)
        ensures
            *r == self.root,
    {
        &self.root
    }

    /// One more handle, counted like this one.
    pub fn share(&self, state: &mut OriginState) -> (r: Dynamic)
        requires
            old(state).well_formed(),
            old(state).requests.dynamic < usize::MAX,
        ensures
            final(state).well_formed(),
            final(state).registry == old(state).registry,
            r.info == self.info,
            r.root@ == self.root@,
            final(state).requests@ == if old(state).requests@.closed {
                old(state).requests@
            } else {
                (DynamicModel {
                    dynamic: old(state).requests@.dynamic + 1,
                    ..old(state).requests@
                })
            },
    {
        state.requests.add_handler();
        Dynamic { info: self.info, root: self.root.clone() }
    }

    /// Poll for the next requested broadcast, without blocking.
    pub fn poll_requested_broadcast(&self, state: &mut OriginState) -> (r: Poll<
        Result<Request, Error>,
    >)
        requires
            old(state).well_formed(),
        ensures
            final(state).well_formed(),
            final(state).registry == old(state).registry,
            ({
                let queue = old(state).requests@;
                if queue.closed {
                    &&& r matches Poll::Ready(Err(e)) && e == Error::Dropped
                    &&& final(state).requests@ == queue
                } else if queue.order.len() > 0 {
                    &&& r matches Poll::Ready(Ok(request)) && request.path@ == queue.order[0]
                        && request.id == queue.requests[queue.order[0]] && request.taken(
                        final(state).requests@,
                    )
                    &&& final(state).requests@ == (DynamicModel {
                        order: queue.order.skip(1),
                        ..queue
                    })
                } else {
                    &&& r is Pending
                    &&& final(state).requests@ == queue
                }
            }),
    {
        state.requests.poll_requested_broadcast()
    }

    /// Give the handle up. The last one rejects the requests still waiting to be served.
    pub fn release(self, state: &mut OriginState)
        requires
            old(state).well_formed(),
        ensures
            final(state).well_formed(),
            final(state).registry == old(state).registry,
            ({
                let queue = old(state).requests@;
                final(state).requests@ == if queue.closed {
                    queue
                } else if queue.dynamic > 1 {
                    (DynamicModel { dynamic: (queue.dynamic - 1) as nat, ..queue })
                } else {
                    (DynamicModel {
                        dynamic: 0,
                        requests: Map::empty(),
                        order: seq![],
                        ..queue.queued_given_up(queue.order.len())
                    })
                }
            }),
    {
        state.requests.remove_handler();
    }
}

/// Cheap read handle over an origin's broadcast tree.
pub struct Consumer {
    /// Identity of the origin this consumer was derived from.
    pub info: Origin,
    /// The part of the tree that can be read.
    pub reach: Reach,
}

impl Clone for Consumer {
    fn clone(&self) -> (r: Consumer)
        ensures
            r.info == self.info,
            r.reach.root@ == self.reach.root@,
            r.reach.scope@ == self.reach.scope@,
    {
        Consumer { info: self.info, reach: self.reach.clone() }
    }
}

impl Consumer {
    /// A view with this consumer's identity and root but no broadcasts. Used to answer a
    /// peer's announce-interest for a prefix outside our scope by announcing nothing, rather
    /// than tearing the stream down.
    pub fn empty(&self) -> (r: Consumer)
        ensures
            r.info == self.info,
            r.reach.root@ == self.reach.root@,
            r.reach.scope@ == Seq::<Seq<Seq<char>>>::empty(),
    {
        Consumer {
            info: self.info,
            reach: Reach { root: self.reach.root.clone(), scope: Scope::nothing() },
        }
    }

    /// Subscribe to announce / unannounce events for this consumer's subtree, starting with
    /// the currently active broadcasts.
    pub fn announced(&self, state: &mut OriginState) -> (r: AnnounceConsumer)
        requires
            old(state).well_formed(),
            old(state).registry.next_cursor < u64::MAX,
        ensures
            final(state).well_formed(),
            final(state).requests == old(state).requests,
            final(state).registry.entries() == old(state).registry.entries(),
            r.id == old(state).registry.next_cursor,
            r.root@ == self.reach.root@,
            final(state).registry.next_cursor == r.id + 1,
            final(state).registry.watching() == old(state).registry.watching().insert(
                r.id,
                (CursorModel {
                    root: self.reach.root@,
                    watched: minimal(absolute_all(self.reach.root@, self.reach.scope@)),
                    pending: initial_updates(
                        old(state).registry.entries(),
                        self.reach.root@,
                        self.reach.scope@,
                    ),
                }),
            ),
    {
        let id: u64 = state.registry.open(&self.reach.root, &self.reach.scope);
        AnnounceConsumer { id, root: self.reach.root.clone() }
    }

    /// Returns a duplicate of this read handle.
    pub fn consume(&self) -> (r: Consumer)
        ensures
            r.info == self.info,
            r.reach.root@ == self.reach.root@,
            r.reach.scope@ == self.reach.scope@,
    {
        self.clone()
    }

    /// The broadcast at `path` if it is *already* announced and within scope.
    pub open spec fn there(&self, registry: Registry, path: Seq<Seq<char>>) -> Option<SourceModel> {
        if !covers(self.reach.scope@, path) {
            None
        } else {
            match routes_at(registry.entries(), self.reach.root@ + path) {
                Some(entry) => Some(entry.active),
                None => None,
            }
        }
    }

    /// The broadcast at `path` if it is *already* announced.
    pub fn get_broadcast(&self, state: &OriginState, path: &Path) -> (r: Option<Source>)
        requires
            state.well_formed(),
        ensures
            match self.there(state.registry, path@) {
                Some(source) => r matches Some(found) && found@ == source,
                None => r is None,
            },
    {
        if !self.reach.scope.allows(path) {
            return None;
        }
        state.registry.get(&self.reach.root.join(path))
    }

    /// Wait for the broadcast at exactly `path` to be announced.
    ///
    /// Returns `None` if no announcement at exactly `path` can ever arrive: it is outside the
    /// allowed prefixes, or only something below it is allowed.
    pub fn announced_broadcast(&self, state: &mut OriginState, path: &Path) -> (r: Option<
        AnnouncedBroadcast,
    >)
        requires
            old(state).well_formed(),
            old(state).registry.next_cursor < u64::MAX,
        ensures
            final(state).well_formed(),
            final(state).requests == old(state).requests,
            final(state).registry.entries() == old(state).registry.entries(),
            ({
                let scope = selected(self.reach.scope@, minimal(seq![path@]));
                let cursors = old(state).registry.watching();
                match r {
                    Some(wait) => {
                        &&& covers(scope, path@)
                        &&& wait.path@ == path@
                        &&& wait.cursor.id == old(state).registry.next_cursor
                        &&& wait.cursor.root@ == self.reach.root@
                        &&& final(state).registry.next_cursor == wait.cursor.id + 1
                        &&& final(state).registry.watching() == cursors.insert(
                            wait.cursor.id,
                            (CursorModel {
                                root: self.reach.root@,
                                watched: minimal(absolute_all(self.reach.root@, scope)),
                                pending: initial_updates(
                                    old(state).registry.entries(),
                                    self.reach.root@,
                                    scope,
                                ),
                            }),
                        )
                    },
                    None => {
                        &&& !covers(scope, path@)
                        &&& *final(state) == *old(state)
                    },
                }
            }),
    {
        let mut prefixes: Vec<Path> = Vec::new();
        prefixes.push(path.clone());
        assert(path_models(prefixes@) =~= seq![path@]);
        match self.scope(&prefixes) {
            None => None,
            Some(consumer) => {
                if !consumer.reach.scope.allows(path) {
                    return None;
                }
                let cursor: AnnounceConsumer = consumer.announced(state);
                Some(AnnouncedBroadcast { path: path.clone(), cursor })
            },
        }
    }

    /// Returns a new consumer restricted to broadcasts under one of `prefixes`.
    ///
    /// Returns `None` if there are no legal prefixes.
    pub fn scope(&self, prefixes: &Vec<Path>) -> (r: Option<Consumer>)
        ensures
            ({
                let all = selected(self.reach.scope@, minimal(path_models(prefixes@)));
                match r {
                    Some(consumer) => consumer.info == self.info && consumer.reach.root@
                        == self.reach.root@ && consumer.reach.scope@ == all && all.len() > 0,
                    None => all.len() == 0,
                }
            }),
    {
        match self.reach.scoped(prefixes) {
            Some(reach) => Some(Consumer { info: self.info, reach }),
            None => None,
        }
    }

    /// Get a broadcast by path, falling back to a dynamic request when it is not announced.
    ///
    /// An already-announced broadcast resolves immediately; otherwise, if a [`Dynamic`]
    /// handler is live, a fallback request is registered and resolves when the handler
    /// accepts it (or errors if it rejects or every handler drops). It resolves to
    /// [`Error::Unroutable`] when the path is not announced and no dynamic handler exists, or
    /// [`Error::Dropped`] once the origin is gone.
    pub fn request_broadcast(&self, state: &mut OriginState, path: &Path, closed: &Channels) -> (r:
        Requested)
        requires
            old(state).well_formed(),
            old(state).requests.next_result < u64::MAX,
        ensures
            final(state).well_formed(),
            final(state).registry == old(state).registry,
            ({
                let there = self.there(old(state).registry, path@);
                // Requests are keyed by absolute path so a scoped/rooted consumer and the
                // handler (which may have a different root) agree on the same entry.
                let full = self.reach.root@ + path@;
                &&& r@ == old(state).requests@.request(full, there, closed@)
                &&& final(state).requests@ == old(state).requests@.requested(full, there, closed@)
            }),
    {
        let there: Option<Source> = self.get_broadcast(state, path);
        let full: Path = self.reach.root.join(path);
        state.requests.request(&full, there, closed)
    }

    /// Returns a new consumer that automatically strips out the provided prefix.
    ///
    /// Returns `None` if the provided root is not authorized.
    pub fn with_root(&self, prefix: &Path) -> (r: Option<Consumer>)
        ensures
            ({
                let all = if prefix@.len() == 0 {
                    self.reach.scope@
                } else {
                    rooted(self.reach.scope@, prefix@)
                };
                match r {
                    Some(consumer) => consumer.info == self.info && consumer.reach.root@
                        == self.reach.root@ + prefix@ && consumer.reach.scope@ == all,
                    None => prefix@.len() > 0 && all.len() == 0,
                }
            }),
    {
        match self.reach.rooted(prefix) {
            Some(reach) => Some(Consumer { info: self.info, reach }),
            None => None,
        }
    }

    /// Returns the prefix that is automatically stripped from all paths.
    pub fn root(&self) -> (r: &Path)
        ensures
            *r == self.reach.root,
    {
        &self.reach.root
    }

    /// The path prefixes this handle is permitted to subscribe under.
    pub fn allowed(&self) -> (r: &Vec<Path>)
        ensures
            path_models(r@) == self.reach.scope@,
    {
        &self.reach.scope.roots
    }

    /// Converts a relative path to an absolute path.
    pub fn absolute(&self, path: &Path) -> (r: Path)
        ensures
            r@ == self.reach.root@ + path@,
    {
        self.reach.root.join(path)
    }
}

/// Handle to the announcement stream for a subtree.
pub struct AnnounceProducer {
    /// The part of the tree that is watched.
    pub reach: Reach,
}

impl AnnounceProducer {
    /// Subscribe to announce / unannounce events for this subtree, starting with the currently
    /// active broadcasts.
    pub fn consume(&self, state: &mut OriginState) -> (r: AnnounceConsumer)
        requires
            old(state).well_formed(),
            old(state).registry.next_cursor < u64::MAX,
        ensures
            final(state).well_formed(),
            final(state).requests == old(state).requests,
            final(state).registry.entries() == old(state).registry.entries(),
            r.id == old(state).registry.next_cursor,
            r.root@ == self.reach.root@,
            final(state).registry.next_cursor == r.id + 1,
            final(state).registry.watching() == old(state).registry.watching().insert(
                r.id,
                (CursorModel {
                    root: self.reach.root@,
                    watched: minimal(absolute_all(self.reach.root@, self.reach.scope@)),
                    pending: initial_updates(
                        old(state).registry.entries(),
                        self.reach.root@,
                        self.reach.scope@,
                    ),
                }),
            ),
    {
        let id: u64 = state.registry.open(&self.reach.root, &self.reach.scope);
        AnnounceConsumer { id, root: self.reach.root.clone() }
    }

    /// Returns the prefix that is automatically stripped from announced paths.
    pub fn root(&self) -> (r: &Path)
        ensures
            *r == self.reach.root,
    {
        &self.reach.root
    }
}

/// Receives announce / unannounce events for a subtree.
pub struct AnnounceConsumer {
    /// The number of the cursor.
    pub id: u64,
    /// The prefix that is automatically stripped from emitted paths.
    pub root: Path,
}

impl AnnounceConsumer {
    /// Returns the next (un)announced broadcast and its path relative to this cursor's root,
    /// without blocking.
    ///
    /// The same path won't be announced/unannounced twice in a row; instead it toggles.
    /// Returns `None` if there is no update available; NOT because the cursor is closed.
    pub fn try_next(&self, state: &mut OriginState) -> (r: Option<(Path, Announced)>)
        requires
            old(state).well_formed(),
        ensures
            final(state).well_formed(),
            final(state).requests == old(state).requests,
            final(state).registry.next_cursor == old(state).registry.next_cursor,
            final(state).registry.entries() == old(state).registry.entries(),
            ({
                let cursors = old(state).registry.watching();
                match r {
                    Some((path, event)) => {
                        let pending = cursors[self.id].pending;
                        &&& cursors.contains_key(self.id)
                        &&& pending.contains_key(path@)
                        &&& forall|other: Seq<Seq<char>>| #[trigger]
                            pending.contains_key(other) ==> !path_before(other, path@)
                        &&& event@ == delivered(pending[path@])
                        &&& final(state).registry.watching() == cursors.insert(
                            self.id,
                            (CursorModel {
                                pending: with_pending(pending, path@, left_over(pending[path@])),
                                ..cursors[self.id]
                            }),
                        )
                    },
                    None => {
                        &&& cursors.contains_key(self.id) ==> cursors[self.id].pending == Map::<
                            Seq<Seq<char>>,
                            Update,
                        >::empty()
                        &&& final(state).registry.watching() == cursors
                    },
                }
            }),
    {
        state.registry.next(self.id)
    }

    /// Poll for the next (un)announced broadcast.
    ///
    /// `Ready(Some(_))` for an update, `Ready(None)` if the cursor is closed, or `Pending`
    /// while no update is available.
    pub fn poll_next(&self, state: &mut OriginState) -> (r: Poll<Option<(Path, Announced)>>)
        requires
            old(state).well_formed(),
        ensures
            final(state).well_formed(),
            final(state).requests == old(state).requests,
            final(state).registry.next_cursor == old(state).registry.next_cursor,
            final(state).registry.entries() == old(state).registry.entries(),
            ({
                let cursors = old(state).registry.watching();
                if !cursors.contains_key(self.id) {
                    &&& r == Poll::Ready(None::<(Path, Announced)>)
                    &&& final(state).registry.watching() == cursors
                } else if cursors[self.id].pending == Map::<Seq<Seq<char>>, Update>::empty() {
                    &&& r is Pending
                    &&& final(state).registry.watching() == cursors
                } else {
                    let pending = cursors[self.id].pending;
                    &&& r matches Poll::Ready(Some((path, event))) && {
                        &&& pending.contains_key(path@)
                        &&& forall|other: Seq<Seq<char>>| #[trigger]
                            pending.contains_key(other) ==> !path_before(other, path@)
                        &&& event@ == delivered(pending[path@])
                        &&& final(state).registry.watching() == cursors.insert(
                            self.id,
                            (CursorModel {
                                pending: with_pending(pending, path@, left_over(pending[path@])),
                                ..cursors[self.id]
                            }),
                        )
                    }
                }
            }),
    {
        if !state.registry.cursors.contains(&self.id) {
            assert(!state.registry.watching().contains_key(self.id));
            return Poll::Ready(None);
        }
        match state.registry.next(self.id) {
            Some(update) => Poll::Ready(Some(update)),
            None => Poll::Pending,
        }
    }

    /// Returns true if the cursor is closed (no more updates will arrive).
    pub fn is_closed(&self, state: &OriginState) -> (r: bool)
        ensures
            r == !state.registry.watching().contains_key(self.id),
    {
        !state.registry.cursors.contains(&self.id)
    }

    /// Returns the prefix that is automatically stripped from emitted paths.
    pub fn root(&self) -> (r: &Path)
        ensures
            *r == self.root,
    {
        &self.root
    }

    /// Converts a relative path to an absolute path.
    pub fn absolute(&self, path: &Path) -> (r: Path)
        ensures
            r@ == self.root@ + path@,
    {
        self.root.join(path)
    }

    /// Stop receiving events.
    pub fn close(self, state: &mut OriginState)
        requires
            old(state).well_formed(),
        ensures
            final(state).well_formed(),
            final(state).requests == old(state).requests,
            final(state).registry.next_cursor == old(state).registry.next_cursor,
            final(state).registry.entries() == old(state).registry.entries(),
            final(state).registry.watching() == old(state).registry.watching().remove(self.id),
    {
        state.registry.close(self.id);
    }
}

/// A wait for the broadcast at one path.
pub struct AnnouncedBroadcast {
    /// The path that is waited for.
    pub path: Path,
    /// What is announced at the path and below it.
    pub cursor: AnnounceConsumer,
}

impl AnnouncedBroadcast {
    /// Poll for the broadcast. `Ready(None)` if the cursor is closed.
    ///
    /// A scope narrows by prefix, so events for paths below it arrive too: they are skipped.
    pub fn poll_ok(&self, state: &mut OriginState) -> (r: Poll<Option<Source>>)
        requires
            old(state).well_formed(),
        ensures
            final(state).well_formed(),
            final(state).requests == old(state).requests,
            final(state).registry.next_cursor == old(state).registry.next_cursor,
            final(state).registry.entries() == old(state).registry.entries(),
            ({
                let cursors = old(state).registry.watching();
                let id = self.cursor.id;
                if !cursors.contains_key(id) {
                    &&& r == Poll::Ready(None::<Source>)
                    &&& final(state).registry.watching() == cursors
                } else {
                    let pending = final(state).registry.watching()[id].pending;
                    let found = match r {
                        Poll::Ready(Some(source)) => Some(source@),
                        _ => None,
                    };
                    &&& r != Poll::Ready(None::<Source>)
                    &&& exact_taken(cursors[id].pending, self.path@, found, pending)
                    &&& final(state).registry.watching() == cursors.insert(
                        id,
                        (CursorModel { pending, ..cursors[id] }),
                    )
                }
            }),
    {
        if !state.registry.cursors.contains(&self.cursor.id) {
            assert(!state.registry.watching().contains_key(self.cursor.id));
            return Poll::Ready(None);
        }
        assert(state.registry.watching().contains_key(self.cursor.id));
        match state.registry.next_exact(self.cursor.id, &self.path) {
            Some(source) => Poll::Ready(Some(source)),
            None => Poll::Pending,
        }
    }

    /// Stop waiting.
    pub fn close(self, state: &mut OriginState)
        requires
            old(state).well_formed(),
        ensures
            final(state).well_formed(),
            final(state).requests == old(state).requests,
            final(state).registry.next_cursor == old(state).registry.next_cursor,
            final(state).registry.entries() == old(state).registry.entries(),
            final(state).registry.watching() == old(state).registry.watching().remove(
                self.cursor.id,
            ),
    {
        self.cursor.close(state);
    }
}

/// A producer with full scope can publish anywhere, as long as the path is not too deep.
pub proof fn full_scope_publishes_anywhere(producer: Producer, path: Seq<Seq<char>>)
    requires
        producer.reach.scope@ == seq![Seq::<Seq<char>>::empty()],
    ensures
        producer.refused(path) == if producer.reach.root@.len() + path.len() > Path::MAX_PARTS {
            Some(Error::BoundsExceeded(BoundsExceeded))
        } else {
            None
        },
{
    assert(producer.reach.scope@[0].is_prefix_of(path));
}

/// Whatever can be published can be announced: no suffix of its full path has too many parts
/// for the wire.
pub proof fn published_path_can_be_forwarded(
    producer: Producer,
    path: Seq<Seq<char>>,
    prefix: int,
    version: Version,
)
    requires
        valid_parts(producer.reach.root@),
        valid_parts(path),
        producer.refused(path) is None,
        0 <= prefix <= (producer.reach.root@ + path).len(),
    ensures
        ({
            let suffix = (producer.reach.root@ + path).skip(prefix);
            &&& Path::legal(suffix)
            &&& Path::print(suffix, version) == String::print(join_path(suffix), version)
        }),
{
    let full = producer.reach.root@ + path;
    assert forall|i: int| 0 <= i < full.skip(prefix).len() implies valid_part(
        #[trigger] full.skip(prefix)[i],
    ) by {
        let at = i + prefix;
        if at < producer.reach.root@.len() {
            assert(full.skip(prefix)[i] == producer.reach.root@[at]);
        } else {
            assert(full.skip(prefix)[i] == path[at - producer.reach.root@.len()]);
        }
    }
}

/// Waiting for a broadcast finds it at once where it is published already, and otherwise as
/// soon as it is announced.
pub proof fn announced_broadcast_is_found(
    entries: Entries,
    cursors: Cursors,
    id: u64,
    root: Seq<Seq<char>>,
    scope: Seq<Seq<Seq<char>>>,
    path: Seq<Seq<char>>,
    source: SourceModel,
)
    requires
        covers(scope, path),
        cursors.contains_key(id),
        cursors[id] == (CursorModel {
            root,
            watched: minimal(absolute_all(root, scope)),
            pending: initial_updates(entries, root, scope),
        }),
    ensures
        if entries.contains_key(root + path) {
            announces(pending_at(cursors[id].pending, path)) == Some(entries[root + path].active)
        } else {
            let later = all_told(cursors, root + path, ChangeModel::Announce(source));
            announces(pending_at(later[id].pending, path)) == Some(source)
        },
{
    let all = absolute_all(root, scope);
    let k = choose|k: int| 0 <= k < scope.len() && scope[k].is_prefix_of(path);
    assert(all[k] == root + scope[k]);
    assert(all[k].is_prefix_of(root + path));
    minimal_covers_the_same(all, root + path);
    assert((root + path).skip(root.len() as int) =~= path);
}

/// Derive a read view from a handle.
///
/// Lets a caller hand over either a producer or a consumer.
pub trait Consume<T> {
    /// Whether `view` is a read view of this handle.
    spec fn gives(&self, view: T) -> bool;

    /// A read view of this handle.
    fn consume(&self) -> (r: T)
        ensures
            self.gives(r),
    ;
}

impl Consume<Consumer> for Producer {
    open spec fn gives(&self, view: Consumer) -> bool {
        &&& view.info == self.info
        &&& view.reach.root@ == self.reach.root@
        &&& view.reach.scope@ == self.reach.scope@
    }

    fn consume(&self) -> (r: Consumer) {
        Consumer { info: self.info, reach: self.reach.clone() }
    }
}

impl Consume<Consumer> for Consumer {
    open spec fn gives(&self, view: Consumer) -> bool {
        &&& view.info == self.info
        &&& view.reach.root@ == self.reach.root@
        &&& view.reach.scope@ == self.reach.scope@
    }

    fn consume(&self) -> (r: Consumer) {
        self.clone()
    }
}

impl Consume<broadcast::Consumer> for broadcast::Producer {
    open spec fn gives(&self, view: broadcast::Consumer) -> bool {
        view.info == self.info && view.channel == self.channel && view.route_seen is None
    }

    fn consume(&self) -> (r: broadcast::Consumer) {
        broadcast::Consumer { info: self.info, channel: self.channel, route_seen: None }
    }
}

impl Consume<broadcast::Consumer> for broadcast::Consumer {
    open spec fn gives(&self, view: broadcast::Consumer) -> bool {
        view.info == self.info && view.channel == self.channel && view.route_seen is None
    }

    fn consume(&self) -> (r: broadcast::Consumer) {
        self.clone()
    }
}

/// A path is refused exactly if it is outside the scope, or if with the root it has more than 32
/// parts.
pub proof fn publishing_is_refused_outside(producer: Producer, path: Seq<Seq<char>>)
    ensures
        ({
            let inside = exists|i: int|
                0 <= i < producer.reach.scope@.len() && (
                #[trigger] producer.reach.scope@[i]).is_prefix_of(path);
            &&& !inside ==> producer.refused(path) == Some(Error::Unauthorized)
            &&& inside && producer.reach.root@.len() + path.len() > 32 ==> producer.refused(path)
                == Some(Error::BoundsExceeded(BoundsExceeded))
            &&& inside && producer.reach.root@.len() + path.len() <= 32 ==> producer.refused(path)
                is None
        }),
{
}

/// What is published can be consumed by whoever may see the path, under the path below their own
/// root, and what is not, or lies outside, cannot.
pub proof fn published_broadcast_is_there(
    consumer: Consumer,
    registry: Registry,
    path: Seq<Seq<char>>,
)
    ensures
        ({
            let inside = exists|i: int|
                0 <= i < consumer.reach.scope@.len() && (
                #[trigger] consumer.reach.scope@[i]).is_prefix_of(path);
            let full = consumer.reach.root@ + path;
            consumer.there(registry, path) == if inside && registry.entries().contains_key(full) {
                Some(registry.entries()[full].active)
            } else {
                None
            }
        }),
{
}

} // verus!
