//! The subscriber's side of an Announce Stream: which of the peer's announcements are
//! published into the local origin.

use vstd::prelude::*;

use crate::coding::decode::Wire;
use crate::coding::list::models;
use crate::error::Error;
use crate::keyed::KeyMap;
use crate::lite::announce::{
    restart_supported, AnnounceBroadcast, AnnounceInit, AnnounceModel, AnnounceOk, AnnounceRequest,
};
use crate::lite::announce_feed::{hops_of, AdvertModel, Peer};
use crate::lite::Version;
use crate::model::dynamic::OriginDynamicState;
use crate::model::handles::{OriginState, Producer, Publish};
use crate::model::origin::{Origin, OriginList, MAX_HOPS};
use crate::model::registry::{all_told, routes_at, with_routes, Cursors, Entries};
use crate::model::tree::{
    best_of, channels_distinct, has_channel, place_of, publish_entry, publishing_adds_the_route,
    remove_entry, removing_takes_one_route, routed, Entry, Source, SourceModel,
};
use crate::path::Path;

verus! {

/// Whether `replaced` is `hops` with the first `from` replaced by `to`.
pub open spec fn first_replaced(
    hops: Seq<Origin>,
    from: Origin,
    to: Origin,
    replaced: Seq<Origin>,
) -> bool {
    if hops.contains(from) {
        exists|i: int|
            #![trigger hops[i]]
            {
                &&& 0 <= i < hops.len()
                &&& hops[i] == from
                &&& forall|j: int| 0 <= j < i ==> hops[j] != from
                &&& replaced == hops.update(i, to)
            }
    } else {
        replaced == hops
    }
}

/// The chain with the announce sender's origin appended, where the sender reports it instead
/// of stamping itself (lite-05+). `None` if the chain is full.
pub open spec fn with_responder(hops: Seq<Origin>, responder: Option<Origin>) -> Option<Seq<Origin>> {
    match responder {
        None => Some(hops),
        Some(responder) => if hops.len() < MAX_HOPS {
            Some(hops.push(responder))
        } else {
            None
        },
    }
}

/// Whether an announcement is a reflection of our own, or has come too far.
pub open spec fn reflected(hops: Seq<Origin>, responder: Option<Origin>, self_origin: Origin) -> bool {
    match with_responder(hops, responder) {
        None => true,
        Some(chain) => chain.contains(self_origin),
    }
}

/// Whether `chain` is the hop chain that an accepted announcement is published with.
///
/// Versions without real hop ids on the wire (lite-01 to lite-03) get the first placeholder
/// rewritten with this connection's origin, so that the route is attributable to the upstream
/// session; and no chain stays empty, since two empty-chain routes to the same path would
/// collide.
pub open spec fn attributed(
    hops: Seq<Origin>,
    version: Version,
    session_origin: Origin,
    chain: Seq<Origin>,
) -> bool {
    exists|named: Seq<Origin>|
        {
            &&& if version.rank() <= 3 {
                #[trigger] first_replaced(hops, Origin::of(0), session_origin, named)
            } else {
                named == hops
            }
            &&& chain == if named.len() == 0 {
                seq![session_origin]
            } else {
                named
            }
        }
}

/// Whether a broadcast is published at a path.
pub open spec fn present(entry: Option<Entry>, channel: u64) -> bool {
    entry matches Some(entry) && (entry.active.channel == channel || has_channel(
        entry.backup,
        channel,
    ))
}

/// Publishing keeps what is published, and adds the new source.
proof fn publish_keeps(
    path: Seq<Seq<char>>,
    entry: Option<Entry>,
    source: SourceModel,
    channel: u64,
)
    ensures
        present(publish_entry(path, entry, source).0, source.channel),
        present(entry, channel) ==> present(publish_entry(path, entry, source).0, channel),
{
    if let Some(existing) = entry {
        let after = publish_entry(path, entry, source).0->Some_0;
        if existing.active.channel != source.channel && !has_channel(
            existing.backup,
            source.channel,
        ) {
            assert(after.backup[existing.backup.len() as int] == if after.active == source {
                existing.active
            } else {
                source
            });
            if has_channel(existing.backup, channel) {
                let i = choose|i: int|
                    0 <= i < existing.backup.len() && (#[trigger] existing.backup[i]).channel
                        == channel;
                assert(after.backup[i].channel == channel);
            }
            if after.active.channel != source.channel {
                assert(after.backup[existing.backup.len() as int].channel == source.channel);
            }
            if after.active.channel != existing.active.channel {
                assert(after.backup[existing.backup.len() as int].channel
                    == existing.active.channel);
            }
        }
    }
}

/// Removing one source keeps the others.
proof fn remove_keeps(path: Seq<Seq<char>>, entry: Option<Entry>, gone: u64, channel: u64)
    requires
        present(entry, gone),
        present(entry, channel),
        gone != channel,
    ensures
        present(remove_entry(path, entry, gone).0, channel),
{
    let existing = entry->Some_0;
    let backup = existing.backup;
    if has_channel(backup, gone) {
        place_found(backup, gone);
        let at = place_of(backup, gone);
        if existing.active.channel != channel {
            let i = choose|i: int| 0 <= i < backup.len() && (#[trigger] backup[i]).channel == channel;
            let k = if i < at {
                i
            } else {
                i - 1
            };
            assert(backup.remove(at)[k].channel == channel);
        }
    } else {
        let i = choose|i: int| 0 <= i < backup.len() && (#[trigger] backup[i]).channel == channel;
        assert(backup.len() > 0);
        best_found(path, backup, backup.len());
        let best = best_of(path, backup, backup.len());
        if i != best {
            let k = if i < best {
                i
            } else {
                i - 1
            };
            assert(backup.remove(best)[k].channel == channel);
        }
    }
}

proof fn place_found(sources: Seq<SourceModel>, channel: u64)
    requires
        has_channel(sources, channel),
    ensures
        0 <= place_of(sources, channel) < sources.len(),
        sources[place_of(sources, channel)].channel == channel,
    decreases sources.len(),
{
    if sources[0].channel != channel {
        let rest = sources.skip(1);
        let i = choose|i: int| 0 <= i < sources.len() && (#[trigger] sources[i]).channel == channel;
        assert(rest[i - 1].channel == channel);
        place_found(rest, channel);
    }
}

proof fn best_found(path: Seq<Seq<char>>, sources: Seq<SourceModel>, n: nat)
    requires
        0 < n <= sources.len(),
    ensures
        0 <= best_of(path, sources, n) < n,
    decreases n,
{
    if n > 1 {
        best_found(path, sources, (n - 1) as nat);
    }
}

/// The origin's broadcasts and cursors, and what else it keeps.
pub struct Board {
    pub entries: Entries,
    pub cursors: Cursors,
    /// The number of the next cursor.
    pub next_cursor: u64,
    /// The requests for what is not announced.
    pub requests: OriginDynamicState,
}

/// What an origin shows.
pub open spec fn board(state: OriginState) -> Board {
    Board {
        entries: state.registry.entries(),
        cursors: state.registry.watching(),
        next_cursor: state.registry.next_cursor,
        requests: state.requests,
    }
}

impl Board {
    /// The board with a source published.
    pub open spec fn published(self, full: Seq<Seq<char>>, source: SourceModel) -> Board {
        let (routes, change) = publish_entry(full, routes_at(self.entries, full), source);
        Board {
            entries: with_routes(self.entries, full, routes),
            cursors: all_told(self.cursors, full, change),
            ..self
        }
    }

    /// The board with a source removed.
    pub open spec fn removed(self, full: Seq<Seq<char>>, channel: u64) -> Board {
        let (routes, change) = remove_entry(full, routes_at(self.entries, full), channel);
        Board {
            entries: with_routes(self.entries, full, routes),
            cursors: all_told(self.cursors, full, change),
            ..self
        }
    }
}

/// The announcements of one Announce Stream, as received.
pub struct AnnounceIntake {
    pub version: Version,
    /// Where accepted announcements are published.
    pub origin: Producer,
    /// The prefix that was asked for.
    pub prefix: Path,
    /// A random per-connection origin. It gives each upstream session a stable, unique
    /// identity in the hop list of versions that don't carry real hop ids.
    pub session_origin: Origin,
    /// The announce sender's origin id (lite-05+).
    pub responder: Option<Origin>,
    /// How many announcements of the initial set are still to come.
    pub remaining: u64,
    /// Whether the initial set is in.
    pub connected: bool,
    /// What is published, by path.
    pub producers: KeyMap<Path, Publish>,
    /// The paths by announce id (lite-06+).
    pub names: KeyMap<u64, Path>,
    /// The id of the next announcement (lite-06+).
    pub next_id: u64,
}

/// What became of an announcement.
#[derive(Debug)]
pub enum Taken {
    /// A broadcast was published at the path.
    Started(Path),
    /// The broadcast at the path was replaced.
    Restarted(Path),
    /// The broadcast at the path was retracted.
    Ended(Path),
    /// Nothing changed.
    Ignored,
}

impl AnnounceIntake {
    /// The channels that are published, by path.
    pub open spec fn published(&self) -> Map<Seq<Seq<char>>, u64> {
        self.producers@.map_values(|publish: Publish| publish.channel)
    }

    /// The absolute path of a path.
    pub open spec fn full(&self, path: Seq<Seq<char>>) -> Seq<Seq<char>> {
        self.origin.reach.root@ + path
    }

    /// What holds between the intake and the origin: what it published is there, under its
    /// own path.
    pub open spec fn well_formed(&self, state: &OriginState) -> bool {
        &&& state.well_formed()
        &&& self.session_origin != self.origin.info
        &&& forall|path: Seq<Seq<char>>| #[trigger]
            self.producers@.contains_key(path) ==> {
                &&& self.producers@[path].full@ == self.full(path)
                &&& present(
                    routes_at(state.registry.entries(), self.full(path)),
                    self.producers@[path].channel,
                )
            }
    }

    /// Whether everything but what is published stays the same.
    pub open spec fn same_but_published(&self, other: &AnnounceIntake) -> bool {
        &&& self.version == other.version
        &&& self.origin == other.origin
        &&& self.prefix == other.prefix
        &&& self.session_origin == other.session_origin
        &&& self.responder == other.responder
        &&& self.remaining == other.remaining
        &&& self.connected == other.connected
        &&& self.names == other.names
        &&& self.next_id == other.next_id
    }

    /// An intake that has received nothing.
    pub fn new(version: Version, origin: Producer, prefix: Path, session_origin: Origin) -> (r:
        AnnounceIntake)
        ensures
            r.version == version,
            r.origin == origin,
            r.prefix == prefix,
            r.session_origin == session_origin,
            r.responder is None,
            r.remaining == 0,
            r.connected == (version.rank() == 3 || version.rank() == 4),
            r.published() == Map::<Seq<Seq<char>>, u64>::empty(),
            r.producers@ == Map::<Seq<Seq<char>>, Publish>::empty(),
            r.names@ == Map::<u64, Path>::empty(),
            r.next_id == 0,
    {
        // Only lite-01, lite-02 and lite-05+ have an initial set to wait for.
        let connected: bool = match version {
            Version::Lite03 | Version::Lite04 => true,
            _ => false,
        };
        let r: AnnounceIntake = AnnounceIntake {
            version,
            origin,
            prefix,
            session_origin,
            responder: None,
            remaining: 0,
            connected,
            producers: KeyMap::new(),
            names: KeyMap::new(),
            next_id: 0,
        };
        assert(r.published() =~= Map::<Seq<Seq<char>>, u64>::empty());
        r
    }

    /// The request that opens the stream. The peer is asked to filter out announces that
    /// already passed through us, so reflected announces never hit the wire.
    pub fn request(&self) -> (r: AnnounceRequest)
        ensures
            r.prefix@ == self.prefix@,
            r.exclude_hop == self.origin.info.id(),
    {
        AnnounceRequest { prefix: self.prefix.clone(), exclude_hop: self.origin.info.id() }
    }

    /// The peer's origin id and the size of its initial set (lite-05+).
    pub fn on_ok(&mut self, ok: AnnounceOk)
        ensures
            *final(self) == (AnnounceIntake {
                responder: Some(ok.origin),
                remaining: ok.active,
                connected: ok.active == 0,
                ..*old(self)
            }),
    {
        self.responder = Some(ok.origin);
        self.remaining = ok.active;
        self.connected = ok.active == 0;
    }

    /// Publish a broadcast into the origin. `false` if the path is outside our scope.
    fn publish(&mut self, state: &mut OriginState, path: &Path, hops: OriginList, channel: u64) -> (r:
        bool)
        requires
            old(self).well_formed(&*old(state)),
            !hops@.contains(old(self).origin.info),
            forall|other: Seq<Seq<char>>| #[trigger]
                old(self).published().contains_key(other) ==> old(self).published()[other]
                    != channel,
        ensures
            final(self).well_formed(&*final(state)),
            final(self).same_but_published(old(self)),
            r == (old(self).origin.refused(path@) is None),
            if r {
                let source = SourceModel { channel, hops: hops@ };
                let full = old(self).full(path@);
                let fresh = board(*old(state)).published(full, source);
                &&& final(self).published() == old(self).published().insert(path@, channel)
                &&& board(*final(state)) == if old(self).published().contains_key(path@) {
                    // The replaced broadcast goes last, once the replacement is live.
                    fresh.removed(full, old(self).published()[path@])
                } else {
                    fresh
                }
            } else {
                &&& final(self).published() == old(self).published()
                &&& board(*final(state)) == board(*old(state))
            },
    {
        let ghost start = *self;
        let ghost before = state.registry.entries();
        let source: Source = Source { channel, hops };
        let ghost added = source@;
        let ghost full = self.full(path@);
        match self.origin.publish_broadcast(state, path, source) {
            Err(_) => {
                return false;
            },
            Ok(publish) => {
                let ghost middle = state.registry.entries();
                proof {
                    publish_keeps(full, routes_at(before, full), added, 0);
                    assert forall|other: Seq<Seq<char>>| #[trigger]
                        start.producers@.contains_key(other) implies present(
                        routes_at(middle, start.full(other)),
                        start.producers@[other].channel,
                    ) by {
                        assert(start.published().contains_key(other));
                        publish_keeps(
                            full,
                            routes_at(before, full),
                            added,
                            start.producers@[other].channel,
                        );
                    }
                }
                let replaced: Option<Publish> = self.producers.insert(path.clone(), publish);
                assert(self.published() =~= start.published().insert(path@, channel));
                match replaced {
                    None => {
                        assert(!start.published().contains_key(path@));
                    },
                    Some(old_publish) => {
                        let ghost gone = old_publish.channel;
                        assert(start.published().contains_key(path@));
                        assert(start.published()[path@] == gone);
                        assert(gone != channel);
                        old_publish.unannounce(state);
                        let ghost after = state.registry.entries();
                        proof {
                            remove_keeps(full, routes_at(middle, full), gone, channel);
                            assert forall|other: Seq<Seq<char>>| #[trigger]
                                self.producers@.contains_key(other) implies {
                                &&& self.producers@[other].full@ == self.full(other)
                                &&& present(
                                    routes_at(after, self.full(other)),
                                    self.producers@[other].channel,
                                )
                            } by {
                                if other != path@ {
                                    same_full(start.origin.reach.root@, other, path@);
                                }
                            }
                        }
                    },
                }
                proof {
                    if replaced is None {
                        assert forall|other: Seq<Seq<char>>| #[trigger]
                            self.producers@.contains_key(other) implies {
                            &&& self.producers@[other].full@ == self.full(other)
                            &&& present(
                                routes_at(middle, self.full(other)),
                                self.producers@[other].channel,
                            )
                        } by {
                            if other != path@ {
                                same_full(start.origin.reach.root@, other, path@);
                            }
                        }
                    }
                }
                true
            },
        }
    }

    /// Retract what was published at a path, if anything was.
    fn retire(&mut self, state: &mut OriginState, path: &Path) -> (r: bool)
        requires
            old(self).well_formed(&*old(state)),
        ensures
            final(self).well_formed(&*final(state)),
            final(self).same_but_published(old(self)),
            r == old(self).published().contains_key(path@),
            final(self).published() == old(self).published().remove(path@),
            board(*final(state)) == if r {
                board(*old(state)).removed(
                    old(self).full(path@),
                    old(self).published()[path@],
                )
            } else {
                board(*old(state))
            },
    {
        let ghost start = *self;
        let ghost before = state.registry.entries();
        match self.producers.remove(path) {
            None => {
                assert(self.published() =~= start.published().remove(path@));
                assert(!start.published().contains_key(path@));
                false
            },
            Some(publish) => {
                assert(self.published() =~= start.published().remove(path@));
                assert(start.published().contains_key(path@));
                assert(start.published()[path@] == publish.channel);
                publish.unannounce(state);
                let ghost after = state.registry.entries();
                proof {
                    assert forall|other: Seq<Seq<char>>| #[trigger]
                        self.producers@.contains_key(other) implies {
                        &&& self.producers@[other].full@ == self.full(other)
                        &&& present(
                            routes_at(after, self.full(other)),
                            self.producers@[other].channel,
                        )
                    } by {
                        assert(start.producers@.contains_key(other));
                        same_full(start.origin.reach.root@, other, path@);
                    }
                }
                true
            },
        }
    }
}

/// A chain that does not pass through us still does not once it is attributed to the session.
proof fn attributed_avoids(
    hops: Seq<Origin>,
    version: Version,
    session_origin: Origin,
    chain: Seq<Origin>,
    self_origin: Origin,
)
    requires
        attributed(hops, version, session_origin, chain),
        !hops.contains(self_origin),
        session_origin != self_origin,
    ensures
        !chain.contains(self_origin),
{
    let named = choose|named: Seq<Origin>|
        {
            &&& if version.rank() <= 3 {
                #[trigger] first_replaced(hops, Origin::of(0), session_origin, named)
            } else {
                named == hops
            }
            &&& chain == if named.len() == 0 {
                seq![session_origin]
            } else {
                named
            }
        };
    if chain.contains(self_origin) {
        let k = chain.index_of(self_origin);
        if named.len() > 0 && version.rank() <= 3 {
            assert(first_replaced(hops, Origin::of(0), session_origin, named));
            if hops.contains(Origin::of(0)) {
                let i = choose|i: int|
                    #![trigger hops[i]]
                    {
                        &&& 0 <= i < hops.len()
                        &&& hops[i] == Origin::of(0)
                        &&& forall|j: int| 0 <= j < i ==> hops[j] != Origin::of(0)
                        &&& named == hops.update(i, session_origin)
                    };
                if k != i {
                    assert(hops[k] == self_origin);
                }
            } else {
                assert(hops[k] == self_origin);
            }
        } else if named.len() > 0 {
            if version.rank() > 3 {
                assert(hops[k] == self_origin);
            }
        }
    }
}

/// Whether a start was dealt with: what the intake and the origin are after the announcement
/// of `path`, given what they were before.
pub open spec fn start_done(
    before: AnnounceIntake,
    was: Board,
    after: AnnounceIntake,
    now: Board,
    path: Seq<Seq<char>>,
    hops: Seq<Origin>,
    channel: u64,
    r: Result<bool, Error>,
) -> bool {
    let self_origin = before.origin.info;
    if reflected(hops, before.responder, self_origin) {
        &&& r == Ok::<bool, Error>(false)
        &&& after.published() == before.published()
        &&& now == was
    } else if before.published().contains_key(path) {
        &&& r == Err::<bool, Error>(Error::Duplicate)
        &&& after.published() == before.published()
        &&& now == was
    } else if before.origin.refused(path) is Some {
        &&& r == Ok::<bool, Error>(false)
        &&& after.published() == before.published()
        &&& now == was
    } else {
        &&& r == Ok::<bool, Error>(true)
        &&& after.published() == before.published().insert(path, channel)
        &&& exists|chain: Seq<Origin>|
            {
                &&& #[trigger] attributed(
                    with_responder(hops, before.responder)->Some_0,
                    before.version,
                    before.session_origin,
                    chain,
                )
                &&& now == was.published(before.full(path), SourceModel { channel, hops: chain })
            }
    }
}

/// Whether a restart was dealt with, for a path that is published.
pub open spec fn restart_done(
    before: AnnounceIntake,
    was: Board,
    after: AnnounceIntake,
    now: Board,
    path: Seq<Seq<char>>,
    hops: Seq<Origin>,
    channel: u64,
    r: bool,
) -> bool {
    let full = before.full(path);
    let replaced = before.published()[path];
    if reflected(hops, before.responder, before.origin.info) || before.origin.refused(path)
        is Some {
        // The replacement can't be used here: the broadcast is retired.
        &&& !r
        &&& after.published() == before.published().remove(path)
        &&& now == was.removed(full, replaced)
    } else {
        let chain = with_responder(hops, before.responder)->Some_0;
        &&& r
        &&& after.published() == before.published().insert(path, channel)
        &&& now == was.published(full, SourceModel { channel, hops: chain }).removed(full, replaced)
    }
}

impl AnnounceIntake {
    /// Whether no broadcast was published on the channel.
    pub open spec fn fresh(&self, channel: u64) -> bool {
        forall|other: Seq<Seq<char>>| #[trigger]
            self.published().contains_key(other) ==> self.published()[other] != channel
    }

    /// Deal with a new announcement.
    ///
    /// `Ok(true)` if it was accepted and published into the origin, `Ok(false)` if it was
    /// dropped as a reflected loop, a chain that is full, or a path outside our scope.
    pub fn start_announce(
        &mut self,
        state: &mut OriginState,
        path: &Path,
        hops: OriginList,
        channel: u64,
    ) -> (r: Result<bool, Error>)
        requires
            old(self).well_formed(&*old(state)),
            old(self).fresh(channel),
        ensures
            final(self).well_formed(&*final(state)),
            final(state).requests == old(state).requests,
            final(state).registry.next_cursor == old(state).registry.next_cursor,
            final(self).same_but_published(old(self)),
            start_done(
                *old(self),
                board(*old(state)),
                *final(self),
                board(*final(state)),
                path@,
                hops@,
                channel,
                r,
            ),
    {
        let ghost given = hops@;
        let mut hops: OriginList = hops;
        match self.responder {
            Some(responder) => {
                // If the chain is already full, drop the announce.
                match hops.push(responder) {
                    Err(_) => {
                        return Ok(false);
                    },
                    Ok(()) => {},
                }
            },
            None => {},
        }
        // Drop announces that already passed through us. Peers should be filtering, but older
        // ones can't, so this is the authoritative cluster-loop check on the receiver.
        if hops.contains(&self.origin.info) {
            return Ok(false);
        }
        let ghost arrived = hops@;
        let lacks_hops: bool = match self.version {
            Version::Lite01 | Version::Lite02 | Version::Lite03 => true,
            _ => false,
        };
        if lacks_hops {
            let _ = hops.replace_first(Origin::unknown(), self.session_origin);
            assert(first_replaced(arrived, Origin::of(0), self.session_origin, hops@));
        }
        let ghost named = hops@;
        // Guarantee at least one hop we control.
        if hops.is_empty() {
            let _ = hops.push(self.session_origin);
            assert(hops@ =~= seq![self.session_origin]);
        }
        proof {
            assert(first_replaced(arrived, Origin::of(0), self.session_origin, named)
                || !lacks_hops);
            if !lacks_hops {
                assert(named == arrived);
                let _ = first_replaced(arrived, Origin::of(0), self.session_origin, named);
            }
            assert(attributed(arrived, self.version, self.session_origin, hops@));
            attributed_avoids(
                arrived,
                self.version,
                self.session_origin,
                hops@,
                self.origin.info,
            );
        }
        // Make sure the peer doesn't double announce.
        let duplicate: bool = self.producers.contains(path);
        assert(duplicate == self.published().contains_key(path@));
        if duplicate {
            return Err(Error::Duplicate);
        }
        let ghost chain = hops@;
        // An error means the path is outside our scope, so don't announce it.
        let accepted: bool = self.publish(state, path, hops, channel);
        assert(attributed(arrived, old(self).version, old(self).session_origin, chain));
        Ok(accepted)
    }

    /// Deal with a restart: atomically replace the broadcast at `path`.
    ///
    /// Publishing the replacement before retiring the old one lets the origin demote the old
    /// broadcast to a backup and tell of a single restart, rather than an unannounce/announce
    /// pair with a visible gap. `false` if the replacement can't be used (the broadcast is now
    /// gone).
    pub fn restart_announce(
        &mut self,
        state: &mut OriginState,
        path: &Path,
        hops: OriginList,
        channel: u64,
    ) -> (r: bool)
        requires
            old(self).well_formed(&*old(state)),
            old(self).fresh(channel),
            old(self).published().contains_key(path@),
        ensures
            final(self).well_formed(&*final(state)),
            final(state).requests == old(state).requests,
            final(state).registry.next_cursor == old(state).registry.next_cursor,
            final(self).same_but_published(old(self)),
            restart_done(
                *old(self),
                board(*old(state)),
                *final(self),
                board(*final(state)),
                path@,
                hops@,
                channel,
                r,
            ),
    {
        let mut hops: OriginList = hops;
        let full: bool = match self.responder {
            Some(responder) => hops.push(responder).is_err(),
            None => false,
        };
        if full || hops.contains(&self.origin.info) {
            let _ = self.retire(state, path);
            return false;
        }
        if self.publish(state, path, hops, channel) {
            return true;
        }
        // Origin rejected the replacement; retire the existing broadcast.
        let _ = self.retire(state, path);
        false
    }

    /// One announcement of the initial set is in.
    fn count_initial(&mut self)
        ensures
            *final(self) == (AnnounceIntake {
                remaining: if old(self).remaining > 0 {
                    (old(self).remaining - 1) as u64
                } else {
                    0
                },
                connected: old(self).connected || old(self).remaining == 1,
                ..*old(self)
            }),
    {
        if self.remaining > 0 {
            self.remaining = self.remaining - 1;
            if self.remaining == 0 {
                self.connected = true;
            }
        }
    }

    /// Deal with the announcement of an active path: a start, or a restart of what is
    /// published there already, where the version has restarts.
    pub fn on_active(
        &mut self,
        state: &mut OriginState,
        suffix: &Path,
        hops: OriginList,
        channel: u64,
    ) -> (r: Result<Taken, Error>)
        requires
            old(self).well_formed(&*old(state)),
            old(self).fresh(channel),
            old(self).next_id < u64::MAX,
        ensures
            final(self).well_formed(&*final(state)),
            final(state).requests == old(state).requests,
            final(state).registry.next_cursor == old(state).registry.next_cursor,
            active_done(
                *old(self),
                board(*old(state)),
                *final(self),
                board(*final(state)),
                suffix@,
                hops@,
                channel,
                r,
            ),
    {
        let path: Path = self.prefix.join(suffix);
        let known: bool = self.producers.contains(&path);
        assert(known == self.published().contains_key(path@));
        let taken: Taken = if restart_supported(self.version) && known {
            if self.restart_announce(state, &path, hops, channel) {
                Taken::Restarted(path.clone())
            } else {
                Taken::Ended(path.clone())
            }
        } else if self.start_announce(state, &path, hops, channel)? {
            Taken::Started(path.clone())
        } else {
            Taken::Ignored
        };
        self.count_initial();
        if self.version.has_announce_id() {
            let ghost before = self.names@;
            let ghost id = self.next_id;
            let ghost at = path@;
            let _ = self.names.insert(self.next_id, path);
            self.next_id = self.next_id + 1;
            assert(name_at(self.names@, id) == Some(at));
            assert forall|other: u64| other != id implies #[trigger] name_at(self.names@, other)
                == name_at(before, other) by {}
        }
        Ok(taken)
    }

    /// Deal with a message on the stream.
    ///
    /// The announcement that a retraction matches may have been dropped as a reflected loop;
    /// that's expected, not an error. Referencing an id that is not live is a protocol
    /// violation.
    pub fn on_message(
        &mut self,
        state: &mut OriginState,
        message: AnnounceBroadcast,
        channel: u64,
    ) -> (r: Result<Taken, Error>)
        requires
            old(self).well_formed(&*old(state)),
            old(self).fresh(channel),
            old(self).next_id < u64::MAX,
        ensures
            final(self).well_formed(&*final(state)),
            final(state).requests == old(state).requests,
            final(state).registry.next_cursor == old(state).registry.next_cursor,
            message_done(
                *old(self),
                board(*old(state)),
                *final(self),
                board(*final(state)),
                message.model(),
                channel,
                r,
            ),
    {
        match message {
            AnnounceBroadcast::Active { suffix, hops } => self.on_active(
                state,
                &suffix,
                hops,
                channel,
            ),
            AnnounceBroadcast::Ended { suffix, .. } => {
                let path: Path = self.prefix.join(&suffix);
                Ok(self.end(state, path))
            },
            AnnounceBroadcast::EndedId { id } => {
                if !self.names.contains(&id) {
                    return Err(Error::ProtocolViolation);
                }
                let ghost start = *self;
                match self.names.remove(&id) {
                    None => Err(Error::ProtocolViolation),
                    Some(path) => {
                        assert(self.published() == start.published());
                        Ok(self.end(state, path))
                    },
                }
            },
            AnnounceBroadcast::Restart { id, hops } => {
                let path: Path = match self.names.get(&id) {
                    None => {
                        return Err(Error::ProtocolViolation);
                    },
                    Some(path) => path.clone(),
                };
                let known: bool = self.producers.contains(&path);
                assert(known == self.published().contains_key(path@));
                if known {
                    if self.restart_announce(state, &path, hops, channel) {
                        Ok(Taken::Restarted(path))
                    } else {
                        Ok(Taken::Ended(path))
                    }
                } else if self.start_announce(state, &path, hops, channel)? {
                    Ok(Taken::Started(path))
                } else {
                    Ok(Taken::Ignored)
                }
            },
        }
    }

    fn end(&mut self, state: &mut OriginState, path: Path) -> (r: Taken)
        requires
            old(self).well_formed(&*old(state)),
        ensures
            final(self).well_formed(&*final(state)),
            final(self).same_but_published(old(self)),
            ended_done(
                *old(self),
                board(*old(state)),
                *final(self),
                board(*final(state)),
                path@,
                Ok(r),
            ),
    {
        if self.retire(state, &path) {
            Taken::Ended(path)
        } else {
            Taken::Ignored
        }
    }

    /// Deal with the list of all active paths (lite-01, lite-02), which carry no hop
    /// information. Each accepted one is published on a channel of its own, counted up from
    /// `channel`. The paths that were accepted are returned.
    pub fn on_init(&mut self, state: &mut OriginState, init: &AnnounceInit, channel: u64) -> (r: Result<
        Vec<(Path, u64)>,
        Error,
    >)
        requires
            old(self).well_formed(&*old(state)),
            old(self).published() == Map::<Seq<Seq<char>>, u64>::empty(),
            old(self).responder is None,
            old(self).version.rank() <= 2,
            channel + init.suffixes@.len() <= u64::MAX,
        ensures
            final(self).well_formed(&*final(state)),
            final(state).requests == old(state).requests,
            final(state).registry.next_cursor == old(state).registry.next_cursor,
            match r {
                Ok(accepted) => {
                    &&& forall|n: int|
                        0 <= n < init.model().len() ==> !#[trigger] old(self).repeats(
                            init.model(),
                            n,
                        )
                    &&& accepted_models(accepted@) == old(self).init_accepted(
                        init.model(),
                        channel,
                        init.model().len(),
                    )
                    &&& board(*final(state)) == old(self).init_board(
                        board(*old(state)),
                        init.model(),
                        channel,
                        init.model().len(),
                    )
                    &&& forall|i: int|
                        0 <= i < accepted@.len() ==> final(self).published().contains_key(
                            (#[trigger] accepted@[i]).0@,
                        ) && final(self).published()[accepted@[i].0@] == accepted@[i].1
                    &&& forall|path: Seq<Seq<char>>| #[trigger]
                        final(self).published().contains_key(path) <==> old(self).takes_anonymous(
                            path,
                        ) && init.model().contains(path.skip(old(self).prefix@.len() as int))
                            && old(self).prefix@.is_prefix_of(path)
                    &&& final(self).connected
                    &&& (AnnounceIntake { connected: old(self).connected, ..*final(self) })
                        .same_but_published(old(self))
                },
                Err(err) => {
                    &&& err == Error::Duplicate
                    &&& exists|n: nat|
                        n < init.model().len() && #[trigger] old(self).repeats(
                            init.model(),
                            n as int,
                        ) && (forall|m: int|
                            0 <= m < n ==> !#[trigger] old(self).repeats(init.model(), m)) && board(
                            *final(state),
                        ) == old(self).init_board(
                            board(*old(state)),
                            init.model(),
                            channel,
                            n,
                        )
                    &&& final(self).same_but_published(old(self))
                },
            },
    {
        let n: usize = init.suffixes.len();
        let ghost suffixes = init.model();
        let ghost start = *self;
        let mut accepted: Vec<(Path, u64)> = Vec::new();
        let mut i: usize = 0;
        while i < n
            invariant
                n == init.suffixes@.len(),
                suffixes == models(init.suffixes@),
                i <= n,
                channel + n <= u64::MAX,
                start == *old(self),
                self.well_formed(&*state),
                state.requests == old(state).requests,
                state.registry.next_cursor == old(state).registry.next_cursor,
                self.same_but_published(&start),
                start.responder is None,
                start.version.rank() <= 2,
                board(*state) == start.init_board(
                    board(*old(state)),
                    suffixes,
                    channel,
                    i as nat,
                ),
                forall|other: Seq<Seq<char>>| #[trigger]
                    self.published().contains_key(other) ==> self.published()[other] < channel + i,
                forall|j: int|
                    0 <= j < accepted@.len() ==> self.published().contains_key(
                        (#[trigger] accepted@[j]).0@,
                    ) && self.published()[accepted@[j].0@] == accepted@[j].1,
                forall|path: Seq<Seq<char>>| #[trigger]
                    self.published().contains_key(path) <==> start.takes_anonymous(path)
                        && listed_below(start.prefix@, suffixes, i as int, path),
                forall|m: int| 0 <= m < i ==> !#[trigger] start.repeats(suffixes, m),
                accepted_models(accepted@) == start.init_accepted(suffixes, channel, i as nat),
            decreases n - i,
        {
            let path: Path = self.prefix.join(&init.suffixes[i]);
            let ghost before = self.published();
            let ghost at = path@;
            proof {
                assert(suffixes[i as int] == init.suffixes@[i as int]@);
                assert(at == start.prefix@ + suffixes[i as int]);
                assert forall|other: Seq<Seq<char>>| #[trigger]
                    listed_below(start.prefix@, suffixes, i + 1, other) == (listed_below(
                        start.prefix@,
                        suffixes,
                        i as int,
                        other,
                    ) || other == at) by {
                    if listed_below(start.prefix@, suffixes, i as int, other) {
                        let j = choose|j: int|
                            0 <= j < i && other == start.prefix@ + #[trigger] suffixes[j];
                        assert(other == start.prefix@ + suffixes[j]);
                    }
                    if other == at {
                        assert(other == start.prefix@ + suffixes[i as int]);
                    }
                }
                assert(!reflected(seq![], self.responder, self.origin.info));
                assert forall|chain: Seq<Origin>| #[trigger]
                    attributed(seq![], self.version, self.session_origin, chain) implies chain
                    == seq![self.session_origin] by {}
            }
            let r: Result<bool, Error> = self.start_announce(
                state,
                &path,
                OriginList::new(),
                channel + i as u64,
            );
            match r {
                Err(err) => {
                    proof {
                        assert(before.contains_key(at));
                        let j = choose|j: int|
                            0 <= j < i && at == start.prefix@ + #[trigger] suffixes[j];
                        assert(suffixes[j] =~= at.skip(start.prefix@.len() as int));
                        assert(suffixes[i as int] =~= at.skip(start.prefix@.len() as int));
                        assert(suffixes[j] == suffixes[i as int]);
                        let w: nat = i as nat;
                        assert(old(self).repeats(init.model(), w as int));
                    }
                    return Err(err);
                },
                Ok(true) => {
                    let ghost earlier = accepted@;
                    accepted.push((path, channel + i as u64));
                    assert(accepted_models(accepted@) =~= accepted_models(earlier).push(
                        (at, (channel + i) as u64),
                    ));
                },
                Ok(false) => {},
            }
            proof {
                if start.repeats(suffixes, i as int) {
                    let j = choose|j: int|
                        0 <= j < i && #[trigger] suffixes[j] == suffixes[i as int];
                    assert(at == start.prefix@ + suffixes[j]);
                    assert(listed_below(start.prefix@, suffixes, i as int, at));
                    assert(before.contains_key(at));
                }
            }
            i += 1;
        }
        let ghost done = *self;
        self.connected = true;
        proof {
            assert(self.published() == done.published());
            assert forall|path: Seq<Seq<char>>| #[trigger]
                self.published().contains_key(path) <==> start.takes_anonymous(path)
                    && suffixes.contains(path.skip(start.prefix@.len() as int))
                    && start.prefix@.is_prefix_of(path) by {
                if listed_below(start.prefix@, suffixes, n as int, path) {
                    let j = choose|j: int|
                        0 <= j < n && path == start.prefix@ + #[trigger] suffixes[j];
                    assert(path.skip(start.prefix@.len() as int) =~= suffixes[j]);
                    assert(start.prefix@ =~= path.take(start.prefix@.len() as int));
                }
                let rest = path.skip(start.prefix@.len() as int);
                if suffixes.contains(rest) && start.prefix@.is_prefix_of(path) {
                    let j = suffixes.index_of(rest);
                    assert(path =~= start.prefix@ + suffixes[j]);
                }
            }
        }
        Ok(accepted)
    }

    /// The stream ended: withdraw everything that was announced on it.
    pub fn close(&mut self, state: &mut OriginState)
        requires
            old(self).well_formed(&*old(state)),
        ensures
            final(self).well_formed(&*final(state)),
            final(state).requests == old(state).requests,
            final(state).registry.next_cursor == old(state).registry.next_cursor,
            final(self).same_but_published(old(self)),
            final(self).published() == Map::<Seq<Seq<char>>, u64>::empty(),
            exists|order: Seq<Seq<Seq<char>>>|
                order.no_duplicates() && order.to_set() == old(self).published().dom() && board(
                    *final(state),
                ) == #[trigger] old(self).withdrawn(board(*old(state)), order),
    {
        let ghost start = *self;
        let ghost mut order: Seq<Seq<Seq<char>>> = seq![];
        loop
            invariant
                start == *old(self),
                self.well_formed(&*state),
                state.requests == old(state).requests,
                state.registry.next_cursor == old(state).registry.next_cursor,
                self.same_but_published(&start),
                order.no_duplicates(),
                board(*state) == start.withdrawn(board(*old(state)), order),
                forall|path: Seq<Seq<char>>| #[trigger]
                    start.published().contains_key(path) <==> self.published().contains_key(path)
                        || order.contains(path),
                forall|path: Seq<Seq<char>>| #[trigger]
                    self.published().contains_key(path) ==> !order.contains(path)
                        && self.published()[path] == start.published()[path],
            decreases self.producers@.dom().len(),
        {
            let n: usize = self.producers.len();
            if n == 0 {
                proof {
                    assert(self.producers@.dom() =~= Set::<Seq<Seq<char>>>::empty());
                    assert(self.published() =~= Map::<Seq<Seq<char>>, u64>::empty());
                    assert forall|path: Seq<Seq<char>>| #[trigger]
                        order.to_set().contains(path) == start.published().dom().contains(path) by {
                        assert(start.published().contains_key(path) == order.contains(path));
                    }
                    assert(order.to_set() =~= start.published().dom());
                }
                return;
            }
            let path: Path = self.producers.nth(0).0.clone();
            let ghost before = *self;
            let ghost earlier = order;
            assert(before.producers@.contains_key(path@));
            assert(before.published().contains_key(path@));
            let _ = self.end(state, path.clone());
            proof {
                order = order.push(path@);
                assert(order.drop_last() =~= earlier);
                assert(order.last() == path@);
                assert(self.producers@.dom() =~= self.published().dom());
                assert(before.producers@.dom() =~= before.published().dom());
                assert forall|other: Seq<Seq<char>>| #[trigger]
                    start.published().contains_key(other) <==> self.published().contains_key(other)
                        || order.contains(other) by {
                    if order.contains(other) && other != path@ {
                        let k = order.index_of(other);
                        assert(earlier[k] == other);
                    }
                    if earlier.contains(other) {
                        let k = earlier.index_of(other);
                        assert(order[k] == other);
                    }
                    assert(order[order.len() - 1] == path@);
                    assert(start.published().contains_key(other) == (
                    before.published().contains_key(other) || earlier.contains(other)));
                }
                assert forall|other: Seq<Seq<char>>| #[trigger]
                    self.published().contains_key(other) implies !order.contains(other)
                    && self.published()[other] == start.published()[other] by {
                    assert(before.published().contains_key(other));
                    if order.contains(other) {
                        let k = order.index_of(other);
                        if k < earlier.len() {
                            assert(earlier[k] == other);
                        }
                    }
                }
            }
        }
    }

    /// The origin once the given announcements were withdrawn.
    pub open spec fn withdrawn(&self, was: Board, order: Seq<Seq<Seq<char>>>) -> Board
        decreases order.len(),
    {
        if order.len() == 0 {
            was
        } else {
            self.withdrawn(was, order.drop_last()).removed(
                self.full(order.last()),
                self.published()[order.last()],
            )
        }
    }

    /// Whether an announcement without hops is accepted at a path.
    pub open spec fn takes_anonymous(&self, path: Seq<Seq<char>>) -> bool {
        self.origin.refused(path) is None
    }

    /// Whether a list of active paths repeats, at place `n`, a path that was accepted.
    pub open spec fn repeats(&self, suffixes: Seq<Seq<Seq<char>>>, n: int) -> bool {
        &&& self.takes_anonymous(self.prefix@ + suffixes[n])
        &&& exists|j: int| 0 <= j < n && #[trigger] suffixes[j] == suffixes[n]
    }

    /// What is accepted of the first `n` of a list of active paths: the paths, and the
    /// channels that they are published on.
    pub open spec fn init_accepted(
        &self,
        suffixes: Seq<Seq<Seq<char>>>,
        channel: u64,
        n: nat,
    ) -> Seq<(Seq<Seq<char>>, u64)>
        decreases n,
    {
        if n == 0 {
            seq![]
        } else {
            let before = self.init_accepted(suffixes, channel, (n - 1) as nat);
            let path = self.prefix@ + suffixes[n - 1];
            if self.takes_anonymous(path) {
                before.push((path, (channel + n - 1) as u64))
            } else {
                before
            }
        }
    }

    /// The origin after the first `n` of a list of active paths: those that are accepted are
    /// published on channels counted up from `channel`, attributed to this session.
    pub open spec fn init_board(
        &self,
        was: Board,
        suffixes: Seq<Seq<Seq<char>>>,
        channel: u64,
        n: nat,
    ) -> Board
        decreases n,
    {
        if n == 0 {
            was
        } else {
            let before = self.init_board(was, suffixes, channel, (n - 1) as nat);
            let path = self.prefix@ + suffixes[n - 1];
            if self.takes_anonymous(path) {
                before.published(
                    self.full(path),
                    SourceModel {
                        channel: (channel + n - 1) as u64,
                        hops: seq![self.session_origin],
                    },
                )
            } else {
                before
            }
        }
    }
}

/// The accepted paths with their channels.
pub open spec fn accepted_models(accepted: Seq<(Path, u64)>) -> Seq<(Seq<Seq<char>>, u64)> {
    Seq::new(accepted.len(), |i: int| (accepted[i].0@, accepted[i].1))
}

/// Whether the announcement of an active path was dealt with: as a start, or as a restart of
/// what is published there already, where the version has restarts. It counts towards the
/// initial set, and gets an id where the version has ids, unless it is an error.
pub open spec fn active_done(
    before: AnnounceIntake,
    was: Board,
    after: AnnounceIntake,
    now: Board,
    suffix: Seq<Seq<char>>,
    hops: Seq<Origin>,
    channel: u64,
    r: Result<Taken, Error>,
) -> bool {
    let path = before.prefix@ + suffix;
    let restarts = before.version.rank() >= 5 && before.published().contains_key(path);
    &&& after.version == before.version
    &&& after.origin == before.origin
    &&& after.prefix == before.prefix
    &&& after.session_origin == before.session_origin
    &&& after.responder == before.responder
    &&& r is Err ==> after.same_but_published(&before)
    &&& r is Ok ==> {
        &&& after.remaining == if before.remaining > 0 {
            before.remaining - 1
        } else {
            0
        }
        &&& after.connected == (before.connected || before.remaining == 1)
        &&& if before.version.rank() >= 6 {
            &&& after.next_id == before.next_id + 1
            &&& name_at(after.names@, before.next_id) == Some(path)
            &&& forall|id: u64|
                id != before.next_id ==> #[trigger] name_at(after.names@, id) == name_at(
                    before.names@,
                    id,
                )
        } else {
            after.next_id == before.next_id && after.names == before.names
        }
    }
    &&& if restarts {
        &&& match r {
            Ok(Taken::Restarted(at)) => at@ == path,
            Ok(Taken::Ended(at)) => at@ == path,
            _ => false,
        }
        &&& restart_done(
            before,
            was,
            after,
            now,
            path,
            hops,
            channel,
            r matches Ok(Taken::Restarted(_)),
        )
    } else {
        &&& match r {
            Ok(Taken::Started(at)) => at@ == path,
            Ok(Taken::Ignored) => true,
            Ok(_) => false,
            Err(_) => true,
        }
        &&& start_done(before, was, after, now, path, hops, channel, as_start(r))
    }
}

/// Whether a start was accepted.
pub open spec fn as_start(r: Result<Taken, Error>) -> Result<bool, Error> {
    match r {
        Ok(Taken::Started(_)) => Ok(true),
        Ok(_) => Ok(false),
        Err(err) => Err(err),
    }
}

/// Whether a message on the stream was dealt with.
pub open spec fn message_done(
    before: AnnounceIntake,
    was: Board,
    after: AnnounceIntake,
    now: Board,
    message: AnnounceModel,
    channel: u64,
    r: Result<Taken, Error>,
) -> bool {
    match message {
        AnnounceModel::Active { suffix, hops } => active_done(
            before,
            was,
            after,
            now,
            suffix,
            hops,
            channel,
            r,
        ),
        AnnounceModel::Ended { suffix, .. } => {
            &&& after.same_but_published(&before)
            &&& ended_done(before, was, after, now, before.prefix@ + suffix, r)
        },
        AnnounceModel::EndedId { id } => match name_at(before.names@, id) {
            None => r == Err::<Taken, Error>(Error::ProtocolViolation) && after == before && now
                == was,
            Some(path) => {
                &&& ended_done(before, was, after, now, path, r)
                &&& after.names@ == before.names@.remove(id)
                &&& (AnnounceIntake { names: before.names, ..after }).same_but_published(&before)
            },
        },
        AnnounceModel::Restart { id, hops } => match name_at(before.names@, id) {
            None => r == Err::<Taken, Error>(Error::ProtocolViolation) && after == before && now
                == was,
            Some(path) => {
                &&& after.same_but_published(&before)
                &&& if before.published().contains_key(path) {
                    &&& match r {
                        Ok(Taken::Restarted(at)) => at@ == path,
                        Ok(Taken::Ended(at)) => at@ == path,
                        _ => false,
                    }
                    &&& restart_done(
                        before,
                        was,
                        after,
                        now,
                        path,
                        hops,
                        channel,
                        r matches Ok(Taken::Restarted(_)),
                    )
                } else {
                    &&& match r {
                        Ok(Taken::Started(at)) => at@ == path,
                        Ok(Taken::Ignored) => true,
                        Ok(_) => false,
                        Err(_) => true,
                    }
                    &&& start_done(before, was, after, now, path, hops, channel, as_start(r))
                }
            },
        },
    }
}

/// Whether a path is one of the first `n` suffixes, below the prefix.
pub open spec fn listed_below(
    prefix: Seq<Seq<char>>,
    suffixes: Seq<Seq<Seq<char>>>,
    n: int,
    path: Seq<Seq<char>>,
) -> bool {
    exists|j: int| 0 <= j < n && path == prefix + #[trigger] suffixes[j]
}

/// The path that an id names.
pub open spec fn name_at(names: Map<u64, Path>, id: u64) -> Option<Seq<Seq<char>>> {
    if names.contains_key(id) {
        Some(names[id]@)
    } else {
        None
    }
}

/// Whether a retraction was dealt with.
pub open spec fn ended_done(
    before: AnnounceIntake,
    was: Board,
    after: AnnounceIntake,
    now: Board,
    path: Seq<Seq<char>>,
    r: Result<Taken, Error>,
) -> bool {
    &&& after.published() == before.published().remove(path)
    &&& if before.published().contains_key(path) {
        &&& r matches Ok(Taken::Ended(at)) && at@ == path
        &&& now == was.removed(before.full(path), before.published()[path])
    } else {
        &&& r matches Ok(Taken::Ignored)
        &&& now == was
    }
}

/// Different paths are different below a root.
proof fn same_full(root: Seq<Seq<char>>, a: Seq<Seq<char>>, b: Seq<Seq<char>>)
    requires
        a != b,
    ensures
        root + a != root + b,
{
    if root + a == root + b {
        assert(a =~= (root + a).skip(root.len() as int));
        assert(b =~= (root + b).skip(root.len() as int));
    }
}

/// Whoever stamps a chain with the sender's origin, it is the same chain: what a receiver
/// rebuilds from lite-05 on is what a lite-04 sender would have sent.
pub proof fn chains_agree_across_versions(
    hops: Seq<Origin>,
    sender: Origin,
    exclude_hop: u64,
    version: Version,
)
    requires
        version.rank() >= 5,
        hops_of(hops, sender, exclude_hop, Version::Lite04) is Some,
    ensures
        hops_of(hops, sender, exclude_hop, version) is Some,
        with_responder(hops_of(hops, sender, exclude_hop, version)->Some_0, Some(sender))
            == with_responder(hops_of(hops, sender, exclude_hop, Version::Lite04)->Some_0, None),
{
}

/// An announcement that passed through us never comes back in.
pub proof fn own_announcements_are_reflected(
    hops: Seq<Origin>,
    responder: Option<Origin>,
    self_origin: Origin,
)
    requires
        hops.contains(self_origin),
    ensures
        reflected(hops, responder, self_origin),
{
    let k = hops.index_of(self_origin);
    if let Some(chain) = with_responder(hops, responder) {
        assert(chain[k] == self_origin);
    }
}

/// An announcement is turned away only where it has to be: it passed through us, its sender is
/// ourselves, or its chain leaves no room for the sender. Otherwise its chain is what came, with
/// the sender added where it reports itself.
pub proof fn only_loops_are_reflected(
    hops: Seq<Origin>,
    responder: Option<Origin>,
    self_origin: Origin,
)
    ensures
        reflected(hops, responder, self_origin) <==> {
            ||| hops.contains(self_origin)
            ||| responder == Some(self_origin)
            ||| responder is Some && hops.len() >= MAX_HOPS
        },
        responder is None ==> with_responder(hops, responder) == Some(hops),
        responder is Some && hops.len() < MAX_HOPS ==> (with_responder(hops, responder) matches Some(
            chain,
        ) && {
            &&& chain.len() == hops.len() + 1
            &&& chain.last() == responder->Some_0
            &&& forall|i: int| 0 <= i < hops.len() ==> #[trigger] chain[i] == hops[i]
        }),
        responder is Some && hops.len() >= MAX_HOPS ==> with_responder(hops, responder) is None,
{
    if let Some(chain) = with_responder(hops, responder) {
        if hops.contains(self_origin) {
            let k = hops.index_of(self_origin);
            assert(chain[k] == self_origin);
        }
        if let Some(last) = responder {
            assert(chain[hops.len() as int] == last);
        }
        if chain.contains(self_origin) {
            let k = chain.index_of(self_origin);
            if k < hops.len() {
                assert(hops[k] == self_origin);
            }
        }
    }
}

/// A route is attributed to the session it came through only where nothing else tells: an empty
/// chain gets the session's origin, and so does the first placeholder of a version without real
/// hop ids. Everything else is kept.
pub proof fn attribution_keeps_the_chain(
    hops: Seq<Origin>,
    version: Version,
    session_origin: Origin,
    chain: Seq<Origin>,
)
    requires
        attributed(hops, version, session_origin, chain),
    ensures
        hops.len() == 0 ==> chain == seq![session_origin],
        hops.len() > 0 ==> chain.len() == hops.len(),
        hops.len() > 0 && version.rank() > 3 ==> chain == hops,
        forall|i: int|
            0 <= i < hops.len() ==> #[trigger] chain[i] == if version.rank() <= 3 && hops[i]
                == Origin::of(0) && (forall|j: int| 0 <= j < i ==> hops[j] != Origin::of(0)) {
                session_origin
            } else {
                hops[i]
            },
{
    let named = choose|named: Seq<Origin>|
        {
            &&& if version.rank() <= 3 {
                #[trigger] first_replaced(hops, Origin::of(0), session_origin, named)
            } else {
                named == hops
            }
            &&& chain == if named.len() == 0 {
                seq![session_origin]
            } else {
                named
            }
        };
    if version.rank() <= 3 {
        if hops.contains(Origin::of(0)) {
            let i = choose|i: int|
                #![trigger hops[i]]
                {
                    &&& 0 <= i < hops.len()
                    &&& hops[i] == Origin::of(0)
                    &&& forall|j: int| 0 <= j < i ==> hops[j] != Origin::of(0)
                    &&& named == hops.update(i, session_origin)
                };
            assert(hops[i] == Origin::of(0));
            assert(chain == named);
            assert forall|k: int| 0 <= k < hops.len() implies #[trigger] chain[k] == if hops[k]
                == Origin::of(0) && (forall|j: int| 0 <= j < k ==> hops[j] != Origin::of(0)) {
                session_origin
            } else {
                hops[k]
            } by {
                if k > i {
                    assert(hops[i] == Origin::of(0));
                }
            }
        } else {
            assert(named == hops);
            assert forall|k: int| 0 <= k < hops.len() implies #[trigger] hops[k]
                != Origin::of(0) by {
                assert(hops.contains(hops[k]));
            }
        }
    }
}

/// Whether an announcement with these hops can be taken in at a path.
pub open spec fn usable(intake: AnnounceIntake, path: Seq<Seq<char>>, hops: Seq<Origin>) -> bool {
    &&& !hops.contains(intake.origin.info)
    &&& intake.responder != Some(intake.origin.info)
    &&& intake.responder is Some ==> hops.len() < MAX_HOPS
    &&& intake.origin.refused(path) is None
}

/// Whether two boards show the same but for one path.
pub open spec fn same_but_at(was: Board, now: Board, full: Seq<Seq<char>>) -> bool {
    &&& now.requests == was.requests
    &&& now.next_cursor == was.next_cursor
    &&& now.cursors.dom() == was.cursors.dom()
    &&& forall|other: Seq<Seq<char>>|
        other != full ==> #[trigger] routes_at(now.entries, other) == routes_at(was.entries, other)
}

/// What the peer announces is published under the prefix, once: a new broadcast starts, a known
/// one is replaced where the version has restarts and is a mistake of the peer where it has not.
/// What cannot be used is left out, and what it was to replace is taken back. Each counts
/// towards the initial set. Nothing else on the board changes.
pub proof fn announcement_is_published(
    before: AnnounceIntake,
    was: Board,
    after: AnnounceIntake,
    now: Board,
    suffix: Seq<Seq<char>>,
    hops: Seq<Origin>,
    channel: u64,
    r: Result<Taken, Error>,
)
    requires
        message_done(
            before,
            was,
            after,
            now,
            AnnounceModel::Active { suffix, hops },
            channel,
            r,
        ),
        before.fresh(channel),
        before.published().contains_key(before.prefix@ + suffix) ==> present(
            routes_at(was.entries, before.full(before.prefix@ + suffix)),
            before.published()[before.prefix@ + suffix],
        ),
    ensures
        ({
            let path = before.prefix@ + suffix;
            let full = before.origin.reach.root@ + path;
            let known = before.published().contains_key(path);
            let restarts = before.version.rank() >= 5 && known;
            let fits = usable(before, path, hops);
            &&& restarts && fits ==> (r matches Ok(Taken::Restarted(at)) && at@ == path)
            &&& restarts && !fits ==> (r matches Ok(Taken::Ended(at)) && at@ == path)
            &&& !known && fits ==> (r matches Ok(Taken::Started(at)) && at@ == path)
            &&& !known && !fits ==> r == Ok::<Taken, Error>(Taken::Ignored)
            &&& known && !restarts ==> (r == Err::<Taken, Error>(Error::Duplicate) || r == Ok::<
                Taken,
                Error,
            >(Taken::Ignored))
            &&& known && !restarts && fits ==> r == Err::<Taken, Error>(Error::Duplicate)
            &&& fits && (!known || restarts) ==> {
                &&& after.published() == before.published().insert(path, channel)
                &&& present(routes_at(now.entries, full), channel)
            }
            &&& !fits && !restarts || known && !restarts ==> {
                &&& after.published() == before.published()
                &&& now == was
            }
            &&& !fits && restarts ==> after.published() == before.published().remove(path)
            &&& same_but_at(was, now, full)
            &&& r is Ok && before.remaining > 0 ==> after.remaining == before.remaining - 1
            &&& r is Ok && before.remaining == 1 ==> after.connected
            &&& before.connected ==> after.connected
            &&& r is Ok && before.remaining > 1 && !before.connected ==> !after.connected
            &&& before.version.rank() < 6 ==> after.next_id == before.next_id && after.names
                == before.names
            &&& before.version.rank() >= 6 && r is Ok ==> {
                &&& after.next_id == before.next_id + 1
                &&& after.names@.contains_key(before.next_id)
                &&& after.names@[before.next_id]@ == path
            }
            &&& after.version == before.version
            &&& after.origin == before.origin
            &&& after.prefix == before.prefix
            &&& after.session_origin == before.session_origin
            &&& after.responder == before.responder
        }),
{
    let path = before.prefix@ + suffix;
    let full = before.full(path);
    only_loops_are_reflected(hops, before.responder, before.origin.info);
    let entry = routes_at(was.entries, full);
    assert(before.version.rank() >= 6 && r is Ok ==> name_at(after.names@, before.next_id) == Some(
        path,
    ));
    if before.version.rank() >= 5 && before.published().contains_key(path) {
        let replaced = before.published()[path];
        if usable(before, path, hops) {
            let chain = with_responder(hops, before.responder)->Some_0;
            let source = SourceModel { channel, hops: chain };
            let middle = was.published(full, source);
            publish_keeps(full, entry, source, replaced);
            assert(routes_at(middle.entries, full) == publish_entry(full, entry, source).0);
            remove_keeps(full, routes_at(middle.entries, full), replaced, channel);
            assert(routes_at(now.entries, full) == remove_entry(
                full,
                routes_at(middle.entries, full),
                replaced,
            ).0);
            assert(now.cursors.dom() =~= was.cursors.dom());
        } else {
            assert(now.cursors.dom() =~= was.cursors.dom());
        }
    } else if !before.published().contains_key(path) && usable(before, path, hops) {
        let chain = choose|chain: Seq<Origin>|
            {
                &&& #[trigger] attributed(
                    with_responder(hops, before.responder)->Some_0,
                    before.version,
                    before.session_origin,
                    chain,
                )
                &&& now == was.published(full, SourceModel { channel, hops: chain })
            };
        let source = SourceModel { channel, hops: chain };
        publish_keeps(full, entry, source, channel);
        assert(routes_at(now.entries, full) == publish_entry(full, entry, source).0);
        assert(now.cursors.dom() =~= was.cursors.dom());
    }
}

/// What the peer retracts, by path or by id, is taken back, and nothing else is. Retracting what
/// is not published changes nothing, and an id that names nothing is a mistake of the peer.
pub proof fn retraction_takes_back(
    before: AnnounceIntake,
    was: Board,
    after: AnnounceIntake,
    now: Board,
    message: AnnounceModel,
    channel: u64,
    r: Result<Taken, Error>,
)
    requires
        message_done(before, was, after, now, message, channel, r),
        message is Ended || message is EndedId,
    ensures
        message matches AnnounceModel::EndedId { id } ==> (!before.names@.contains_key(id) ==> {
            &&& r == Err::<Taken, Error>(Error::ProtocolViolation)
            &&& after == before
            &&& now == was
        }),
        message matches AnnounceModel::EndedId { id } ==> (before.names@.contains_key(id)
            ==> after.names@ == before.names@.remove(id)),
        message is Ended ==> after.names == before.names,
        ({
            let path = match message {
                AnnounceModel::Ended { suffix, .. } => Some(before.prefix@ + suffix),
                AnnounceModel::EndedId { id } => if before.names@.contains_key(id) {
                    Some(before.names@[id]@)
                } else {
                    None
                },
                _ => None,
            };
            path matches Some(path) ==> {
                let full = before.origin.reach.root@ + path;
                &&& !after.published().contains_key(path)
                &&& after.published() == before.published().remove(path)
                &&& before.published().contains_key(path) ==> (r matches Ok(Taken::Ended(at))
                    && at@ == path)
                &&& !before.published().contains_key(path) ==> {
                    &&& r == Ok::<Taken, Error>(Taken::Ignored)
                    &&& now == was
                }
                &&& same_but_at(was, now, full)
                &&& before.published().contains_key(path) ==> routes_at(now.entries, full)
                    == remove_entry(
                    full,
                    routes_at(was.entries, full),
                    before.published()[path],
                ).0
                &&& after.next_id == before.next_id
                &&& after.remaining == before.remaining
                &&& after.connected == before.connected
            }
        }),
{
    let path = match message {
        AnnounceModel::Ended { suffix, .. } => before.prefix@ + suffix,
        AnnounceModel::EndedId { id } => before.names@[id]@,
        _ => seq![],
    };
    if before.published().contains_key(path) {
        assert(now.cursors.dom() =~= was.cursors.dom());
    }
}

/// A restart by id replaces what is published at the path it names, or starts it if nothing is.
/// What cannot be used is taken back.
pub proof fn restart_replaces(
    before: AnnounceIntake,
    was: Board,
    after: AnnounceIntake,
    now: Board,
    id: u64,
    hops: Seq<Origin>,
    channel: u64,
    r: Result<Taken, Error>,
)
    requires
        message_done(before, was, after, now, AnnounceModel::Restart { id, hops }, channel, r),
        before.fresh(channel),
        before.names@.contains_key(id) && before.published().contains_key(before.names@[id]@)
            ==> present(
            routes_at(was.entries, before.full(before.names@[id]@)),
            before.published()[before.names@[id]@],
        ),
    ensures
        !before.names@.contains_key(id) ==> {
            &&& r == Err::<Taken, Error>(Error::ProtocolViolation)
            &&& after == before
            &&& now == was
        },
        before.names@.contains_key(id) ==> {
            let path = before.names@[id]@;
            let full = before.origin.reach.root@ + path;
            let known = before.published().contains_key(path);
            let fits = usable(before, path, hops);
            &&& known && fits ==> (r matches Ok(Taken::Restarted(at)) && at@ == path)
            &&& known && !fits ==> (r matches Ok(Taken::Ended(at)) && at@ == path)
            &&& !known && fits ==> (r matches Ok(Taken::Started(at)) && at@ == path)
            &&& !known && !fits ==> r == Ok::<Taken, Error>(Taken::Ignored)
            &&& fits ==> {
                &&& after.published() == before.published().insert(path, channel)
                &&& present(routes_at(now.entries, full), channel)
            }
            &&& !fits ==> after.published() == before.published().remove(path)
            &&& same_but_at(was, now, full)
            &&& after.names == before.names
            &&& after.next_id == before.next_id
        },
{
    if before.names@.contains_key(id) {
        let path = before.names@[id]@;
        let full = before.full(path);
        only_loops_are_reflected(hops, before.responder, before.origin.info);
        let entry = routes_at(was.entries, full);
        if before.published().contains_key(path) {
            let replaced = before.published()[path];
            if usable(before, path, hops) {
                let chain = with_responder(hops, before.responder)->Some_0;
                let source = SourceModel { channel, hops: chain };
                let middle = was.published(full, source);
                publish_keeps(full, entry, source, replaced);
                assert(routes_at(middle.entries, full) == publish_entry(full, entry, source).0);
                remove_keeps(full, routes_at(middle.entries, full), replaced, channel);
                assert(routes_at(now.entries, full) == remove_entry(
                    full,
                    routes_at(middle.entries, full),
                    replaced,
                ).0);
            }
            assert(now.cursors.dom() =~= was.cursors.dom());
        } else if usable(before, path, hops) {
            let chain = choose|chain: Seq<Origin>|
                {
                    &&& #[trigger] attributed(
                        with_responder(hops, before.responder)->Some_0,
                        before.version,
                        before.session_origin,
                        chain,
                    )
                    &&& now == was.published(full, SourceModel { channel, hops: chain })
                };
            let source = SourceModel { channel, hops: chain };
            publish_keeps(full, entry, source, channel);
            assert(routes_at(now.entries, full) == publish_entry(full, entry, source).0);
            assert(now.cursors.dom() =~= was.cursors.dom());
            assert(after.published() == before.published().insert(path, channel));
        } else {
            assert(after.published() =~= before.published().remove(path));
        }
    }
}

/// Both ends of a stream number the announcements alike: whatever is sent, the ids that the
/// sender holds the peer to know name the same paths here.
pub proof fn ids_agree_on_both_ends(
    before: AnnounceIntake,
    was: Board,
    after: AnnounceIntake,
    now: Board,
    peer: Peer,
    advert: AdvertModel,
    channel: u64,
    r: Result<Taken, Error>,
)
    requires
        message_done(before, was, after, now, advert.message, channel, r),
        r is Ok,
        before.version.rank() >= 6,
        before.next_id < u64::MAX,
        before.next_id == peer.next_id,
        forall|id: u64| #[trigger]
            name_at(before.names@, id) == if peer.names.contains_key(id) {
                Some(before.prefix@ + peer.names[id])
            } else {
                None
            },
    ensures
        ({
            let told = peer.told(before.version, advert);
            &&& after.next_id == told.next_id
            &&& forall|id: u64| #[trigger]
                name_at(after.names@, id) == if told.names.contains_key(id) {
                    Some(after.prefix@ + told.names[id])
                } else {
                    None
                }
        }),
{
    let told = peer.told(before.version, advert);
    assert forall|id: u64| #[trigger]
        name_at(after.names@, id) == if told.names.contains_key(id) {
            Some(after.prefix@ + told.names[id])
        } else {
            None
        } by {
        assert(name_at(before.names@, id) == if peer.names.contains_key(id) {
            Some(before.prefix@ + peer.names[id])
        } else {
            None
        });
    }
}

/// A list of active paths is taken in whole: each that can be published is accepted, in order,
/// on a channel of its own.
pub proof fn initial_list_is_taken_in(
    intake: AnnounceIntake,
    suffixes: Seq<Seq<Seq<char>>>,
    channel: u64,
    n: nat,
)
    requires
        n <= suffixes.len(),
        channel + n <= u64::MAX,
    ensures
        ({
            let accepted = intake.init_accepted(suffixes, channel, n);
            &&& forall|i: int|
                0 <= i < n && intake.origin.refused(intake.prefix@ + #[trigger] suffixes[i])
                    is None ==> accepted.contains((intake.prefix@ + suffixes[i], (channel + i) as u64))
            &&& forall|k: int|
                0 <= k < accepted.len() ==> {
                    &&& channel <= (#[trigger] accepted[k]).1 < channel + n
                    &&& accepted[k].0 == intake.prefix@ + suffixes[accepted[k].1 - channel]
                    &&& intake.origin.refused(accepted[k].0) is None
                }
            &&& forall|j: int, k: int|
                0 <= j < k < accepted.len() ==> (#[trigger] accepted[j]).1 < (
                #[trigger] accepted[k]).1
        }),
    decreases n,
{
    if n > 0 {
        let m = (n - 1) as nat;
        initial_list_is_taken_in(intake, suffixes, channel, m);
        let before = intake.init_accepted(suffixes, channel, m);
        let accepted = intake.init_accepted(suffixes, channel, n);
        assert forall|i: int|
            0 <= i < n && intake.origin.refused(intake.prefix@ + #[trigger] suffixes[i])
                is None implies accepted.contains(
            (intake.prefix@ + suffixes[i], (channel + i) as u64),
        ) by {
            if i < m {
                let k = before.index_of((intake.prefix@ + suffixes[i], (channel + i) as u64));
                assert(before.contains((intake.prefix@ + suffixes[i], (channel + i) as u64)));
                assert(accepted[k] == before[k]);
            } else {
                assert(accepted[accepted.len() - 1] == (
                    intake.prefix@ + suffixes[i],
                    (channel + i) as u64,
                ));
            }
        }
        assert forall|k: int| 0 <= k < before.len() implies accepted[k] == #[trigger] before[k] by {}
    }
}

/// What is taken in of a list is on the board, as coming through this session, and nothing else
/// changes there.
pub proof fn initial_list_is_on_the_board(
    intake: AnnounceIntake,
    was: Board,
    suffixes: Seq<Seq<Seq<char>>>,
    channel: u64,
    n: nat,
)
    requires
        n <= suffixes.len(),
        channel + n <= u64::MAX,
    ensures
        ({
            let now = intake.init_board(was, suffixes, channel, n);
            &&& now.requests == was.requests
            &&& now.next_cursor == was.next_cursor
            &&& forall|i: int|
                0 <= i < n && intake.origin.refused(intake.prefix@ + #[trigger] suffixes[i])
                    is None ==> present(
                    routes_at(
                        now.entries,
                        intake.origin.reach.root@ + (intake.prefix@ + suffixes[i]),
                    ),
                    (channel + i) as u64,
                )
            &&& forall|full: Seq<Seq<char>>|
                (forall|i: int|
                    0 <= i < n && intake.origin.refused(intake.prefix@ + #[trigger] suffixes[i])
                        is None ==> full != intake.origin.reach.root@ + (intake.prefix@
                        + suffixes[i])) ==> #[trigger] routes_at(now.entries, full) == routes_at(
                    was.entries,
                    full,
                )
        }),
    decreases n,
{
    if n > 0 {
        let m = (n - 1) as nat;
        initial_list_is_on_the_board(intake, was, suffixes, channel, m);
        let before = intake.init_board(was, suffixes, channel, m);
        let now = intake.init_board(was, suffixes, channel, n);
        let path = intake.prefix@ + suffixes[n - 1];
        if intake.origin.refused(path) is None {
            let at = intake.full(path);
            let source = SourceModel {
                channel: (channel + n - 1) as u64,
                hops: seq![intake.session_origin],
            };
            let entry = routes_at(before.entries, at);
            assert(routes_at(now.entries, at) == publish_entry(at, entry, source).0);
            publish_keeps(at, entry, source, 0);
            assert forall|i: int|
                0 <= i < n && intake.origin.refused(intake.prefix@ + #[trigger] suffixes[i])
                    is None implies present(
                routes_at(
                    now.entries,
                    intake.origin.reach.root@ + (intake.prefix@ + suffixes[i]),
                ),
                (channel + i) as u64,
            ) by {
                let full = intake.origin.reach.root@ + (intake.prefix@ + suffixes[i]);
                if i < m {
                    assert(present(routes_at(before.entries, full), (channel + i) as u64));
                    publish_keeps(at, entry, source, (channel + i) as u64);
                    if full != at {
                        assert(routes_at(now.entries, full) == routes_at(before.entries, full));
                    }
                }
            }
            assert forall|full: Seq<Seq<char>>|
                (forall|i: int|
                    0 <= i < n && intake.origin.refused(intake.prefix@ + #[trigger] suffixes[i])
                        is None ==> full != intake.origin.reach.root@ + (intake.prefix@
                        + suffixes[i])) implies #[trigger] routes_at(now.entries, full)
                == routes_at(was.entries, full) by {
                assert(full != intake.origin.reach.root@ + (intake.prefix@ + suffixes[n - 1]));
                assert(routes_at(now.entries, full) == routes_at(before.entries, full));
            }
        } else {
            assert(now == before);
        }
    }
}

/// When a stream ends, the board shows the same everywhere but at the paths that were announced
/// on it.
pub proof fn closing_touches_only_its_own(
    intake: AnnounceIntake,
    was: Board,
    order: Seq<Seq<Seq<char>>>,
)
    ensures
        ({
            let now = intake.withdrawn(was, order);
            &&& now.requests == was.requests
            &&& now.next_cursor == was.next_cursor
            &&& forall|full: Seq<Seq<char>>|
                (forall|i: int|
                    0 <= i < order.len() ==> full != intake.origin.reach.root@
                        + #[trigger] order[i]) ==> #[trigger] routes_at(now.entries, full)
                    == routes_at(was.entries, full)
            &&& order.no_duplicates() ==> forall|i: int|
                0 <= i < order.len() ==> #[trigger] routes_at(
                    now.entries,
                    intake.origin.reach.root@ + order[i],
                ) == remove_entry(
                    intake.origin.reach.root@ + order[i],
                    routes_at(was.entries, intake.origin.reach.root@ + order[i]),
                    intake.published()[order[i]],
                ).0
        }),
    decreases order.len(),
{
    let root = intake.origin.reach.root@;
    if order.len() > 0 {
        let less = order.drop_last();
        let last = order.last();
        closing_touches_only_its_own(intake, was, less);
        let before = intake.withdrawn(was, less);
        let now = intake.withdrawn(was, order);
        assert forall|full: Seq<Seq<char>>|
            (forall|i: int| 0 <= i < order.len() ==> full != root + #[trigger] order[i]) implies
            #[trigger] routes_at(now.entries, full) == routes_at(was.entries, full) by {
            assert(full != root + order[order.len() - 1]);
            assert forall|i: int| 0 <= i < less.len() implies full != root + #[trigger] less[i] by {
                assert(less[i] == order[i]);
            }
            assert(routes_at(before.entries, full) == routes_at(was.entries, full));
        }
        if order.no_duplicates() {
            assert(less.no_duplicates());
            assert forall|i: int| 0 <= i < order.len() implies #[trigger] routes_at(
                now.entries,
                root + order[i],
            ) == remove_entry(
                root + order[i],
                routes_at(was.entries, root + order[i]),
                intake.published()[order[i]],
            ).0 by {
                if i < less.len() {
                    assert(less[i] == order[i]);
                    same_full(root, order[i], last);
                    assert(routes_at(now.entries, root + order[i]) == routes_at(
                        before.entries,
                        root + less[i],
                    ));
                } else {
                    assert forall|j: int| 0 <= j < less.len() implies root + last != root
                        + #[trigger] less[j] by {
                        assert(less[j] == order[j]);
                        same_full(root, last, order[j]);
                    }
                    assert(routes_at(before.entries, root + last) == routes_at(
                        was.entries,
                        root + last,
                    ));
                }
            }
        }
    }
}

/// From lite-04 on, what is published carries the chain that came, with the sender added where it
/// reports itself, and what it replaced is no longer a route. A chain is never left empty: a new
/// broadcast without one is attributed to the session.
pub proof fn announced_chain_is_kept(
    before: AnnounceIntake,
    was: Board,
    after: AnnounceIntake,
    now: Board,
    suffix: Seq<Seq<char>>,
    hops: Seq<Origin>,
    channel: u64,
    r: Result<Taken, Error>,
    other: SourceModel,
)
    requires
        message_done(
            before,
            was,
            after,
            now,
            AnnounceModel::Active { suffix, hops },
            channel,
            r,
        ),
        before.version.rank() >= 4,
        usable(before, before.prefix@ + suffix, hops),
        before.fresh(channel),
        channels_distinct(routes_at(was.entries, before.full(before.prefix@ + suffix))),
        !present(routes_at(was.entries, before.full(before.prefix@ + suffix)), channel),
        before.published().contains_key(before.prefix@ + suffix) ==> present(
            routes_at(was.entries, before.full(before.prefix@ + suffix)),
            before.published()[before.prefix@ + suffix],
        ),
    ensures
        ({
            let path = before.prefix@ + suffix;
            let full = before.origin.reach.root@ + path;
            let known = before.published().contains_key(path);
            let chain = match before.responder {
                Some(responder) => hops.push(responder),
                None => if hops.len() == 0 && !known {
                    seq![before.session_origin]
                } else {
                    hops
                },
            };
            let source = SourceModel { channel, hops: chain };
            let there = routes_at(now.entries, full);
            &&& !known || before.version.rank() >= 5 ==> routed(there, source)
            &&& known && before.version.rank() >= 5 ==> !present(
                there,
                before.published()[path],
            )
            &&& other != source && (known ==> other.channel != before.published()[path]) ==> (
            routed(there, other) <==> routed(routes_at(was.entries, full), other))
        }),
{
    let path = before.prefix@ + suffix;
    let full = before.full(path);
    let known = before.published().contains_key(path);
    let entry = routes_at(was.entries, full);
    only_loops_are_reflected(hops, before.responder, before.origin.info);
    let arrived = with_responder(hops, before.responder)->Some_0;
    if known && before.version.rank() >= 5 {
        let source = SourceModel { channel, hops: arrived };
        let replaced = before.published()[path];
        let middle = was.published(full, source);
        publish_keeps(full, entry, source, replaced);
        publishing_adds_the_route(full, entry, source, other);
        assert(routes_at(middle.entries, full) == publish_entry(full, entry, source).0);
        let between = routes_at(middle.entries, full)->Some_0;
        removing_takes_one_route(full, between, replaced, source);
        removing_takes_one_route(full, between, replaced, other);
        let there = routes_at(now.entries, full);
        assert(there == remove_entry(full, Some(between), replaced).0);
        if present(there, replaced) {
            let left = there->Some_0;
            let still = if left.active.channel == replaced {
                left.active
            } else {
                let i = choose|i: int|
                    0 <= i < left.backup.len() && (#[trigger] left.backup[i]).channel == replaced;
                left.backup[i]
            };
            assert(routed(there, still));
            removing_takes_one_route(full, between, replaced, still);
        }
    } else if !known {
        let chain = choose|chain: Seq<Origin>|
            {
                &&& #[trigger] attributed(
                    arrived,
                    before.version,
                    before.session_origin,
                    chain,
                )
                &&& now == was.published(full, SourceModel { channel, hops: chain })
            };
        attribution_keeps_the_chain(arrived, before.version, before.session_origin, chain);
        let source = SourceModel { channel, hops: chain };
        publishing_adds_the_route(full, entry, source, other);
        assert(routes_at(now.entries, full) == publish_entry(full, entry, source).0);
    }
}

/// What is kept besides the published paths is all of what the stream was opened with, how much of
/// the initial set is still to come, and the ids.
pub proof fn only_published_paths_change(a: AnnounceIntake, b: AnnounceIntake)
    requires
        a.same_but_published(&b),
    ensures
        a.version == b.version,
        a.origin == b.origin,
        a.prefix == b.prefix,
        a.session_origin == b.session_origin,
        a.responder == b.responder,
        a.remaining == b.remaining,
        a.connected == b.connected,
        a.names == b.names,
        a.next_id == b.next_id,
{
}

} // verus!
