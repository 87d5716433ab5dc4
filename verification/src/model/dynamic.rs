//! Serving broadcasts on demand that nobody announced.

use std::collections::VecDeque;

use vstd::prelude::*;

use crate::error::Error;
use crate::keyed::KeyMap;
use crate::model::channels::Channels;
use crate::model::tree::{Source, SourceModel};
use crate::path::Path;
use crate::poll::Poll;

verus! {

/// One-shot result of a dynamic broadcast request.
///
/// Stays unresolved until a handler accepts (yielding the served broadcast) or rejects
/// (yielding an error). Nothing can resolve it once it is closed. It goes away with the last
/// one who waits for it, unless it is still in flight.
pub struct PendingBroadcast {
    pub resolved: Option<Result<Source, Error>>,
    pub closed: bool,
    /// How many wait for it.
    pub waiters: u64,
}

/// What a [`PendingBroadcast`] stands for.
pub struct Slot {
    pub resolved: Option<Result<SourceModel, Error>>,
    pub closed: bool,
    pub waiters: nat,
}

impl View for PendingBroadcast {
    type V = Slot;

    open spec fn view(&self) -> Slot {
        Slot {
            resolved: match self.resolved {
                None => None,
                Some(Ok(source)) => Some(Ok(source@)),
                Some(Err(err)) => Some(Err(err)),
            },
            closed: self.closed,
            waiters: self.waiters as nat,
        }
    }
}

/// Shared fallback request queue for an origin.
///
/// Lives off to the side of the announce tree because dynamically served broadcasts are
/// never announced.
pub struct OriginDynamicState {
    /// The results of requests in flight, keyed by absolute path. Concurrent requests for the
    /// same path coalesce onto the same result until it is resolved.
    pub requests: KeyMap<Path, u64>,
    /// Requested paths in FIFO order for the handler to drain.
    pub request_order: VecDeque<Path>,
    /// Broadcasts a handler has already served, so a repeat request for the same path resolves
    /// to the same broadcast instead of re-invoking the handler. A closed one is evicted on
    /// the next request.
    pub served: KeyMap<Path, Source>,
    /// The number of live handlers. While zero, a request fails fast with
    /// [`Error::Unroutable`] rather than queueing a request nobody will serve.
    pub dynamic: usize,
    /// Whether the origin is gone.
    pub closed: bool,
    /// The results by number, as long as they are in flight or somebody waits for them.
    pub results: KeyMap<u64, PendingBroadcast>,
    /// How many requests have waited, which numbers the next result.
    pub next_result: u64,
}

/// What an [`OriginDynamicState`] stands for.
pub struct DynamicModel {
    pub requests: Map<Seq<Seq<char>>, u64>,
    pub order: Seq<Seq<Seq<char>>>,
    pub served: Map<Seq<Seq<char>>, SourceModel>,
    pub dynamic: nat,
    pub closed: bool,
    pub results: Map<u64, Slot>,
    pub next_result: u64,
}

/// The paths of a queue.
pub open spec fn queue_model(queue: Seq<Path>) -> Seq<Seq<Seq<char>>> {
    queue.map_values(|path: Path| path@)
}

impl View for OriginDynamicState {
    type V = DynamicModel;

    open spec fn view(&self) -> DynamicModel {
        DynamicModel {
            requests: self.requests@,
            order: queue_model(self.request_order@),
            served: self.served@.map_values(|source: Source| source@),
            dynamic: self.dynamic as nat,
            closed: self.closed,
            results: self.results@.map_values(|pending: PendingBroadcast| pending@),
            next_result: self.next_result,
        }
    }
}

/// What a request for a broadcast finds.
pub enum Found {
    /// The broadcast.
    Ready(SourceModel),
    /// Why there is none.
    Failed(Error),
    /// The result to wait for.
    Waiting(u64),
}

impl DynamicModel {
    /// Nothing asked for, and nobody to serve it.
    pub open spec fn empty() -> DynamicModel {
        DynamicModel {
            requests: Map::empty(),
            order: seq![],
            served: Map::empty(),
            dynamic: 0,
            closed: false,
            results: Map::empty(),
            next_result: 0,
        }
    }

    /// What a request for the absolute path finds, given what is announced there.
    pub open spec fn request(
        self,
        path: Seq<Seq<char>>,
        announced: Option<SourceModel>,
        closed: Set<u64>,
    ) -> Found {
        match announced {
            // Prefer a live announcement when one is present.
            Some(source) => Found::Ready(source),
            None => if self.closed {
                Found::Failed(Error::Dropped)
            } else if self.served.contains_key(path) && !closed.contains(
                self.served[path].channel,
            ) {
                // Reuse a still-live broadcast a handler already served.
                Found::Ready(self.served[path])
            } else if self.requests.contains_key(path) {
                // Coalesce onto a request in flight.
                Found::Waiting(self.requests[path])
            } else if self.dynamic == 0 {
                Found::Failed(Error::Unroutable)
            } else {
                Found::Waiting(self.next_result)
            },
        }
    }

    /// The queue after a request for the absolute path.
    pub open spec fn requested(
        self,
        path: Seq<Seq<char>>,
        announced: Option<SourceModel>,
        closed: Set<u64>,
    ) -> DynamicModel {
        let live = self.served.contains_key(path) && !closed.contains(self.served[path].channel);
        if announced is Some || self.closed || live {
            self
        } else {
            // A served broadcast that has closed is stale.
            let fresh = DynamicModel { served: self.served.remove(path), ..self };
            if self.requests.contains_key(path) {
                let id = self.requests[path];
                let slot = self.results[id];
                DynamicModel {
                    results: self.results.insert(id, (Slot { waiters: slot.waiters + 1, ..slot })),
                    next_result: (self.next_result + 1) as u64,
                    ..fresh
                }
            } else if self.dynamic == 0 {
                fresh
            } else {
                DynamicModel {
                    requests: self.requests.insert(path, self.next_result),
                    order: self.order.push(path),
                    results: self.results.insert(
                        self.next_result,
                        (Slot { resolved: None, closed: false, waiters: 1 }),
                    ),
                    next_result: (self.next_result + 1) as u64,
                    ..fresh
                }
            }
        }
    }

    /// The queue with a result replaced. One that is closed and that nobody waits for is gone.
    pub open spec fn with_result(self, id: u64, slot: Slot) -> DynamicModel {
        DynamicModel {
            results: if slot.closed && slot.waiters == 0 {
                self.results.remove(id)
            } else {
                self.results.insert(id, slot)
            },
            ..self
        }
    }

    /// Whether the request in flight for a path is the one with this result.
    pub open spec fn in_flight(self, path: Seq<Seq<char>>, id: u64) -> bool {
        self.requests.contains_key(path) && self.requests[path] == id
    }

    /// The queue once a request is no longer in flight. A newer one for the path is left
    /// alone.
    pub open spec fn landed(self, path: Seq<Seq<char>>, id: u64) -> DynamicModel {
        if !self.closed && self.in_flight(path, id) {
            DynamicModel { requests: self.requests.remove(path), ..self }
        } else {
            self
        }
    }

    /// The queue with a broadcast that later requests for the path share.
    pub open spec fn serving(self, path: Seq<Seq<char>>, source: SourceModel) -> DynamicModel {
        if self.closed {
            self
        } else {
            DynamicModel { served: self.served.insert(path, source), ..self }
        }
    }

    /// The queue once one of those who wait for a result is gone.
    pub open spec fn released(self, found: Found) -> DynamicModel {
        match found {
            Found::Waiting(id) => if self.results.contains_key(id) && self.results[id].waiters
                > 0 {
                let slot = self.results[id];
                self.with_result(id, Slot { waiters: (slot.waiters - 1) as nat, ..slot })
            } else {
                self
            },
            _ => self,
        }
    }

    /// The queue with a result resolved and closed, if anybody can still see it.
    pub open spec fn resolved(self, id: u64, result: Result<SourceModel, Error>) -> DynamicModel {
        if self.results.contains_key(id) {
            let slot = Slot { resolved: Some(result), closed: true, ..self.results[id] };
            self.with_result(id, slot)
        } else {
            self
        }
    }

    /// The queue with a result given up.
    pub open spec fn given_up(self, id: u64) -> DynamicModel {
        if self.results.contains_key(id) {
            self.with_result(id, Slot { closed: true, ..self.results[id] })
        } else {
            self
        }
    }

    /// The queue with the results of the first `n` queued requests given up.
    pub open spec fn queued_given_up(self, n: nat) -> DynamicModel
        decreases n,
    {
        if n == 0 {
            self
        } else {
            self.queued_given_up((n - 1) as nat).given_up(self.requests[self.order[n - 1]])
        }
    }
}

/// Giving results up changes nothing but the results, and keeps them in order.
proof fn queued_given_up_frame(state: DynamicModel, n: nat)
    ensures
        state.queued_given_up(n) == (DynamicModel {
            results: state.queued_given_up(n).results,
            ..state
        }),
        state.results_valid() ==> state.queued_given_up(n).results_valid(),
    decreases n,
{
    if n > 0 {
        queued_given_up_frame(state, (n - 1) as nat);
    }
}

impl DynamicModel {
    /// Whether every result has a number that was given out, is waited for by no more than
    /// asked, and is in flight or waited for by somebody.
    pub open spec fn results_valid(self) -> bool {
        forall|id: u64| #[trigger]
            self.results.contains_key(id) ==> {
                &&& id < self.next_result
                &&& self.results[id].waiters <= self.next_result
                &&& self.results[id].closed ==> self.results[id].waiters > 0
                &&& self.results[id].resolved is Some ==> self.results[id].closed
            }
    }
}

impl OriginDynamicState {
    /// What every queue satisfies: what is queued is in flight, each path once; what is in
    /// flight has an open result of its own; and no result outlives those who wait for it,
    /// unless it is in flight.
    pub open spec fn well_formed(&self) -> bool {
        &&& self@.order.no_duplicates()
        &&& forall|i: int|
            0 <= i < self@.order.len() ==> self@.requests.contains_key(#[trigger] self@.order[i])
        &&& !self@.closed ==> forall|path: Seq<Seq<char>>| #[trigger]
            self@.requests.contains_key(path) ==> self@.results.contains_key(self@.requests[path])
                && !self@.results[self@.requests[path]].closed
        &&& forall|a: Seq<Seq<char>>, b: Seq<Seq<char>>|
            #![trigger self@.requests.contains_key(a), self@.requests.contains_key(b)]
            self@.requests.contains_key(a) && self@.requests.contains_key(b) && a != b
                ==> self@.requests[a] != self@.requests[b]
        &&& self@.results_valid()
    }

    /// Nothing asked for, and nobody to serve it.
    pub fn new() -> (r: OriginDynamicState)
        ensures
            r.well_formed(),
            r@ == DynamicModel::empty(),
    {
        let r: OriginDynamicState = OriginDynamicState {
            requests: KeyMap::new(),
            request_order: VecDeque::new(),
            served: KeyMap::new(),
            dynamic: 0,
            closed: false,
            results: KeyMap::new(),
            next_result: 0,
        };
        assert(r@.order =~= seq![]);
        assert(r@.served =~= Map::<Seq<Seq<char>>, SourceModel>::empty());
        assert(r@.results =~= Map::<u64, Slot>::empty());
        assert(r@.requests =~= Map::<Seq<Seq<char>>, u64>::empty());
        r
    }

    /// Get a broadcast by absolute path, falling back to a dynamic request when it is not
    /// announced.
    ///
    /// Concurrent requests for the same unannounced path coalesce onto one handler request,
    /// and once served the broadcast is shared by later requests for as long as it stays
    /// live; a closed one is re-served.
    pub fn request(&mut self, path: &Path, announced: Option<Source>, closed: &Channels) -> (r:
        Requested)
        requires
            old(self).well_formed(),
            old(self).next_result < u64::MAX,
        ensures
            final(self).well_formed(),
            ({
                let there = match announced {
                    Some(source) => Some(source@),
                    None => None,
                };
                &&& r@ == old(self)@.request(path@, there, closed@)
                &&& final(self)@ == old(self)@.requested(path@, there, closed@)
            }),
    {
        match announced {
            Some(source) => {
                return Requested::Ready(source);
            },
            None => {},
        }
        if self.closed {
            return Requested::Failed(Error::Dropped);
        }
        let ghost before = self@;
        match self.served.get(path) {
            Some(source) => {
                assert(before.served[path@] == source@);
                if !closed.contains(source.channel) {
                    return Requested::Ready(source.clone());
                }
            },
            None => {},
        }
        let _ = self.served.remove(path);
        assert(self@.served =~= before.served.remove(path@));
        match self.requests.get(path) {
            Some(id) => {
                let id: u64 = *id;
                self.join(id);
                return Requested::Waiting(id);
            },
            None => {},
        }
        if self.dynamic == 0 {
            return Requested::Failed(Error::Unroutable);
        }
        let id: u64 = self.next_result;
        let _ = self.requests.insert(path.clone(), id);
        self.request_order.push_back(path.clone());
        let _ = self.results.insert(
            id,
            PendingBroadcast { resolved: None, closed: false, waiters: 1 },
        );
        self.next_result = id + 1;
        proof {
            assert(self@.order =~= before.order.push(path@));
            assert(self@.results =~= before.results.insert(
                id,
                (Slot { resolved: None, closed: false, waiters: 1 }),
            ));
            assert(!before.order.contains(path@)) by {
                if before.order.contains(path@) {
                    let j = before.order.index_of(path@);
                    assert(before.requests.contains_key(before.order[j]));
                }
            }
            assert forall|a: int, b: int|
                0 <= a < self@.order.len() && 0 <= b < self@.order.len() && a
                    != b implies self@.order[a] != self@.order[b] by {
                if a == before.order.len() {
                    assert(before.order.contains(before.order[b]));
                } else if b == before.order.len() {
                    assert(before.order.contains(before.order[a]));
                } else {
                    assert(before.order[a] != before.order[b]);
                }
            }
        }
        Requested::Waiting(id)
    }

    /// One more waits for a result.
    fn join(&mut self, id: u64)
        requires
            old(self)@.results.contains_key(id),
            old(self)@.results[id].waiters <= old(self).next_result,
            old(self).next_result < u64::MAX,
        ensures
            final(self)@ == (DynamicModel {
                results: old(self)@.results.insert(
                    id,
                    (Slot {
                        waiters: old(self)@.results[id].waiters + 1,
                        ..old(self)@.results[id]
                    }),
                ),
                next_result: (old(self)@.next_result + 1) as u64,
                ..old(self)@
            }),
    {
        let ghost before = self@;
        self.next_result = self.next_result + 1;
        match self.results.remove(&id) {
            None => {},
            Some(pending) => {
                assert(before.results[id] == pending@);
                let joined: PendingBroadcast = PendingBroadcast {
                    waiters: pending.waiters + 1,
                    ..pending
                };
                let ghost new = joined@;
                let _ = self.results.insert(id, joined);
                assert(self@.results =~= before.results.insert(id, new));
            },
        }
    }

    /// Put a result back, unless it is closed and nobody waits for it.
    fn put_result(&mut self, id: u64, pending: PendingBroadcast)
        requires
            !old(self)@.results.contains_key(id),
        ensures
            final(self)@ == old(self)@.with_result(id, pending@),
    {
        let ghost before = self@;
        let ghost new = pending@;
        if pending.closed && pending.waiters == 0 {
            assert(before.results.remove(id) =~= before.results);
        } else {
            let _ = self.results.insert(id, pending);
            assert(self@.results =~= before.results.insert(id, new));
        }
    }

    /// Resolve a result.
    fn resolve(&mut self, id: u64, result: Result<Source, Error>)
        ensures
            final(self)@ == old(self)@.resolved(
                id,
                match result {
                    Ok(source) => Ok(source@),
                    Err(err) => Err(err),
                },
            ),
    {
        let ghost before = self@;
        match self.results.remove(&id) {
            None => {
                assert(self@.results =~= before.results);
            },
            Some(pending) => {
                assert(before.results[id] == pending@);
                assert(self@.results =~= before.results.remove(id));
                let settled: PendingBroadcast = PendingBroadcast {
                    resolved: Some(result),
                    closed: true,
                    ..pending
                };
                let ghost new = settled@;
                self.put_result(id, settled);
                assert(self@.results =~= before.with_result(id, new).results);
            },
        }
    }

    /// Give a result up.
    fn give_up(&mut self, id: u64)
        ensures
            final(self)@ == old(self)@.given_up(id),
    {
        let ghost before = self@;
        match self.results.remove(&id) {
            None => {
                assert(self@.results =~= before.results);
            },
            Some(pending) => {
                assert(before.results[id] == pending@);
                assert(self@.results =~= before.results.remove(id));
                let closed: PendingBroadcast = PendingBroadcast { closed: true, ..pending };
                let ghost new = closed@;
                self.put_result(id, closed);
                assert(self@.results =~= before.with_result(id, new).results);
            },
        }
    }

    /// A request is no longer in flight. A newer one for the path is left alone.
    fn land(&mut self, path: &Path, id: u64)
        requires
            old(self).well_formed(),
            old(self)@.in_flight(path@, id) ==> !old(self)@.order.contains(path@),
        ensures
            final(self).well_formed(),
            final(self)@ == old(self)@.landed(path@, id),
    {
        let ghost before = self@;
        let ours: bool = match self.requests.get(path) {
            Some(found) => *found == id,
            None => false,
        };
        if !self.closed && ours {
            let _ = self.requests.remove(path);
            proof {
                assert forall|i: int| 0 <= i < self@.order.len() implies self@.requests
                    .contains_key(#[trigger] self@.order[i]) by {
                    assert(before.requests.contains_key(before.order[i]));
                    assert(before.order.contains(before.order[i]));
                }
            }
        }
    }

    /// Count one more handler.
    pub fn add_handler(&mut self)
        requires
            old(self).well_formed(),
            old(self).dynamic < usize::MAX,
        ensures
            final(self).well_formed(),
            final(self)@ == if old(self)@.closed {
                old(self)@
            } else {
                (DynamicModel { dynamic: old(self)@.dynamic + 1, ..old(self)@ })
            },
    {
        if !self.closed {
            self.dynamic = self.dynamic + 1;
        }
    }

    /// Count one handler less. Without any left, the requests that no handler has taken are
    /// dropped, so that those who wait for them learn that nobody could route them.
    pub fn remove_handler(&mut self)
        requires
            old(self).well_formed(),
        ensures
            final(self).well_formed(),
            final(self)@ == if old(self)@.closed {
                old(self)@
            } else if old(self)@.dynamic > 1 {
                (DynamicModel { dynamic: (old(self)@.dynamic - 1) as nat, ..old(self)@ })
            } else {
                (DynamicModel {
                    dynamic: 0,
                    requests: Map::empty(),
                    order: seq![],
                    ..old(self)@.queued_given_up(old(self)@.order.len())
                })
            },
    {
        if self.closed {
            return;
        }
        if self.dynamic > 1 {
            self.dynamic = self.dynamic - 1;
            return;
        }
        self.dynamic = 0;
        let ghost start = self@;
        let n: usize = self.request_order.len();
        let mut i: usize = 0;
        while i < n
            invariant
                n == self.request_order@.len(),
                i <= n,
                old(self).well_formed(),
                start == (DynamicModel { dynamic: 0, ..old(self)@ }),
                self@ == (DynamicModel {
                    results: old(self)@.queued_given_up(i as nat).results,
                    ..start
                }),
            decreases n - i,
        {
            let ghost at = self@.order[i as int];
            assert(at == self.request_order@[i as int]@);
            proof {
                queued_given_up_frame(old(self)@, i as nat);
                assert(old(self)@.requests.contains_key(old(self)@.order[i as int]));
            }
            match self.requests.get(&self.request_order[i]) {
                Some(id) => {
                    let id: u64 = *id;
                    self.give_up(id);
                },
                None => {},
            }
            i += 1;
        }
        proof {
            queued_given_up_frame(old(self)@, n as nat);
        }
        self.requests = KeyMap::new();
        self.request_order = VecDeque::new();
        assert(self@.order =~= seq![]);
        assert(self@.requests =~= Map::<Seq<Seq<char>>, u64>::empty());
    }

    /// The next requested broadcast, for a handler to serve.
    ///
    /// It stays in flight so that a repeat request before it is accepted coalesces onto it.
    pub fn poll_requested_broadcast(&mut self) -> (r: Poll<Result<Request, Error>>)
        requires
            old(self).well_formed(),
        ensures
            final(self).well_formed(),
            if old(self)@.closed {
                &&& r matches Poll::Ready(Err(e)) && e == Error::Dropped
                &&& final(self)@ == old(self)@
            } else if old(self)@.order.len() > 0 {
                &&& r matches Poll::Ready(Ok(request)) && request.path@ == old(self)@.order[0]
                    && request.id == old(self)@.requests[old(self)@.order[0]] && request.taken(
                    final(self)@,
                )
                &&& final(self)@ == (DynamicModel {
                    order: old(self)@.order.skip(1),
                    ..old(self)@
                })
            } else {
                &&& r is Pending
                &&& final(self)@ == old(self)@
            },
    {
        if self.closed {
            return Poll::Ready(Err(Error::Dropped));
        }
        let ghost before = self@;
        match self.request_order.pop_front() {
            None => {
                assert(self@.order =~= before.order);
                Poll::Pending
            },
            Some(path) => {
                proof {
                    assert(before.order[0] == path@);
                    assert(self@.order =~= before.order.skip(1));
                    assert(before.requests.contains_key(before.order[0]));
                    assert forall|i: int| 0 <= i < self@.order.len() implies self@.requests
                        .contains_key(#[trigger] self@.order[i]) by {
                        assert(self@.order[i] == before.order[i + 1]);
                    }
                    assert forall|a: int, b: int|
                        0 <= a < self@.order.len() && 0 <= b < self@.order.len() && a
                            != b implies self@.order[a] != self@.order[b] by {
                        assert(before.order[a + 1] != before.order[b + 1]);
                    }
                }
                match self.requests.get(&path) {
                    Some(id) => {
                        let id: u64 = *id;
                        Poll::Ready(Ok(Request { path, id }))
                    },
                    None => Poll::Pending,
                }
            },
        }
    }
}

/// A pending request for a broadcast that was not announced.
///
/// [`accept`](Self::accept) resolves it with a live broadcast and [`reject`](Self::reject)
/// with an error. Giving it up without either rejects it.
pub struct Request {
    /// Absolute path that was requested.
    pub path: Path,
    /// The result that those who wait for the request look at.
    pub id: u64,
}

impl Request {
    /// Whether the request was handed out: if it is in flight, it is not queued, and its result
    /// belongs to no other path.
    pub open spec fn taken(&self, state: DynamicModel) -> bool {
        &&& self.id < state.next_result
        &&& state.in_flight(self.path@, self.id) ==> !state.order.contains(self.path@)
        &&& forall|path: Seq<Seq<char>>| #[trigger]
            state.requests.contains_key(path) && path != self.path@ ==> state.requests[path]
                != self.id
    }

    /// The absolute path that was requested.
    pub fn path(&self) -> (r: &Path)
        ensures
            *r == self.path,
    {
        &self.path
    }

    /// Accept the request, resolving everyone who waits for it with `source`. The broadcast is
    /// *not* announced, but later requests share it. Another request for the path that was
    /// registered since is left alone.
    pub fn accept(self, state: &mut OriginDynamicState, source: Source)
        requires
            old(state).well_formed(),
            self.taken(old(state)@),
        ensures
            final(state).well_formed(),
            final(state)@ == old(state)@.serving(self.path@, source@).landed(
                self.path@,
                self.id,
            ).resolved(self.id, Ok(source@)),
    {
        let ghost before = state@;
        let ghost added = source@;
        if !state.closed {
            let _ = state.served.insert(self.path.clone(), source.clone());
            assert(state@.served =~= before.served.insert(self.path@, added));
        }
        state.land(&self.path, self.id);
        state.resolve(self.id, Ok(source));
    }

    /// Reject the request, resolving everyone who waits for it with `err`. Another request for
    /// the path that was registered since is left alone.
    pub fn reject(self, state: &mut OriginDynamicState, err: Error)
        requires
            old(state).well_formed(),
            self.taken(old(state)@),
        ensures
            final(state).well_formed(),
            final(state)@ == old(state)@.landed(self.path@, self.id).resolved(self.id, Err(err)),
    {
        state.land(&self.path, self.id);
        state.resolve(self.id, Err(err));
    }

    /// Give the request up without an answer. Another request for the path that was
    /// registered since is left alone.
    pub fn abandon(self, state: &mut OriginDynamicState)
        requires
            old(state).well_formed(),
            self.taken(old(state)@),
        ensures
            final(state).well_formed(),
            final(state)@ == old(state)@.landed(self.path@, self.id).given_up(self.id),
    {
        state.land(&self.path, self.id);
        state.give_up(self.id);
    }
}

/// The pollable result of a request for a broadcast.
pub enum Requested {
    /// Already announced or served: this broadcast.
    Ready(Source),
    /// Unroutable at request time, or the origin was already dropped.
    Failed(Error),
    /// Awaiting a handler: resolved with the result of this number.
    Waiting(u64),
}

impl View for Requested {
    type V = Found;

    open spec fn view(&self) -> Found {
        match *self {
            Requested::Ready(source) => Found::Ready(source@),
            Requested::Failed(err) => Found::Failed(err),
            Requested::Waiting(id) => Found::Waiting(id),
        }
    }
}

/// What a request resolves to.
pub open spec fn request_outcome(found: Found, state: DynamicModel) -> Poll<
    Result<SourceModel, Error>,
> {
    match found {
        Found::Ready(source) => Poll::Ready(Ok(source)),
        Found::Failed(err) => Poll::Ready(Err(err)),
        Found::Waiting(id) => if !state.results.contains_key(id) {
            Poll::Ready(Err(Error::Unroutable))
        } else {
            match state.results[id].resolved {
                Some(result) => Poll::Ready(result),
                None => if state.results[id].closed {
                    // Every handler dropped without resolving: nobody could route it.
                    Poll::Ready(Err(Error::Unroutable))
                } else {
                    Poll::Pending
                },
            }
        },
    }
}

impl Requested {
    /// Stop waiting. The result goes away with the last one who waits for it, unless it is
    /// still in flight.
    pub fn release(self, state: &mut OriginDynamicState)
        requires
            old(state).well_formed(),
        ensures
            final(state).well_formed(),
            final(state)@ == old(state)@.released(self@),
    {
        let id: u64 = match self {
            Requested::Waiting(id) => id,
            _ => {
                return;
            },
        };
        let ghost before = state@;
        match state.results.remove(&id) {
            None => {
                assert(state@.results =~= before.results);
            },
            Some(pending) => {
                assert(before.results[id] == pending@);
                assert(state@.results =~= before.results.remove(id));
                if pending.waiters == 0 {
                    let _ = state.results.insert(id, pending);
                    assert(state@.results =~= before.results);
                } else {
                    let left: PendingBroadcast = PendingBroadcast {
                        waiters: pending.waiters - 1,
                        ..pending
                    };
                    let ghost new = left@;
                    state.put_result(id, left);
                    assert(state@.results =~= before.with_result(id, new).results);
                }
            },
        }
    }

    /// Poll for the requested broadcast without blocking.
    pub fn poll_ok(&self, state: &OriginDynamicState) -> (r: Poll<Result<Source, Error>>)
        ensures
            match request_outcome(self@, state@) {
                Poll::Ready(Ok(source)) => r matches Poll::Ready(Ok(found)) && found@ == source,
                Poll::Ready(Err(err)) => r matches Poll::Ready(Err(e)) && e == err,
                Poll::Pending => r is Pending,
            },
    {
        match self {
            Requested::Ready(source) => Poll::Ready(Ok(source.clone())),
            Requested::Failed(err) => Poll::Ready(Err(err.clone())),
            Requested::Waiting(id) => {
                match state.results.get(id) {
                    None => Poll::Ready(Err(Error::Unroutable)),
                    Some(pending) => {
                        assert(state@.results[*id] == pending@);
                        match &pending.resolved {
                            Some(Ok(source)) => Poll::Ready(Ok(source.clone())),
                            Some(Err(err)) => Poll::Ready(Err(err.clone())),
                            None => if pending.closed {
                                Poll::Ready(Err(Error::Unroutable))
                            } else {
                                Poll::Pending
                            },
                        }
                    },
                }
            },
        }
    }
}

/// A request that was handed out stays so, whatever is asked for, given up or answered
/// meanwhile: it can always be accepted, rejected or given up.
pub proof fn taken_request_stays_taken(
    request: Request,
    state: DynamicModel,
    path: Seq<Seq<char>>,
    announced: Option<SourceModel>,
    closed: Set<u64>,
    found: Found,
    id: u64,
    result: Result<SourceModel, Error>,
)
    requires
        request.taken(state),
        state.next_result < u64::MAX,
    ensures
        request.taken(state.requested(path, announced, closed)),
        request.taken(state.released(found)),
        request.taken(state.landed(path, id)),
        request.taken(state.resolved(id, result)),
        request.taken(state.given_up(id)),
        request.taken(DynamicModel { requests: Map::empty(), order: seq![], ..state }),
{
    let asked = state.requested(path, announced, closed);
    if asked.in_flight(request.path@, request.id) && asked.order.contains(request.path@) {
        let k = asked.order.index_of(request.path@);
        if k < state.order.len() {
            assert(state.order[k] == request.path@);
            assert(state.order.contains(request.path@));
        }
    }
}

/// One who stops waiting takes nothing from the others: what they find stays the same.
pub proof fn releasing_is_private(state: DynamicModel, gone: Found, other: Found)
    requires
        other matches Found::Waiting(id) ==> state.results.contains_key(id)
            && state.results[id].waiters > if gone == other { 1nat } else { 0 },
    ensures
        request_outcome(other, state.released(gone)) == request_outcome(other, state),
{
}

/// Once resolved, a result is gone with the last one who waits for it.
pub proof fn last_waiter_takes_the_result(
    state: DynamicModel,
    id: u64,
    result: Result<SourceModel, Error>,
)
    requires
        state.results.contains_key(id),
        state.results[id].waiters == 1,
    ensures
        state.resolved(id, result).released(Found::Waiting(id)).results == state.results.remove(id),
        state.released(Found::Waiting(id)).resolved(id, result).results == state.results.remove(id),
{
    assert(state.resolved(id, result).released(Found::Waiting(id)).results
        =~= state.results.remove(id));
    assert(state.released(Found::Waiting(id)).resolved(id, result).results
        =~= state.results.remove(id));
}

/// Two requests for one path share one result, until it is resolved.
pub proof fn requests_coalesce(
    state: DynamicModel,
    path: Seq<Seq<char>>,
    announced: Option<SourceModel>,
    closed: Set<u64>,
)
    requires
        state.next_result < u64::MAX,
    ensures
        state.requested(path, announced, closed).request(path, announced, closed)
            == state.request(path, announced, closed),
{
}

/// Once accepted, a request resolves to the broadcast for everyone who waited, and for
/// everyone who asks later, as long as the broadcast is live.
pub proof fn accepted_request_is_shared(
    state: DynamicModel,
    path: Seq<Seq<char>>,
    id: u64,
    source: SourceModel,
    closed: Set<u64>,
)
    requires
        !state.closed,
        !closed.contains(source.channel),
        state.results.contains_key(id),
        state.results[id].waiters > 0,
    ensures
        ({
            let after = state.serving(path, source).landed(path, id).resolved(id, Ok(source));
            &&& request_outcome(Found::Waiting(id), after) == Poll::Ready(
                Ok::<SourceModel, Error>(source),
            )
            &&& after.request(path, None, closed) == Found::Ready(source)
        }),
{
}

/// Without a handler, an unannounced path that is not in flight cannot be routed.
pub proof fn unrouted_request_fails(state: DynamicModel, path: Seq<Seq<char>>, closed: Set<u64>)
    requires
        !state.closed,
        state.dynamic == 0,
        !state.requests.contains_key(path),
        state.served.contains_key(path) ==> closed.contains(state.served[path].channel),
    ensures
        state.request(path, None, closed) == Found::Failed(Error::Unroutable),
{
}

/// What is announced is used as it is, and asking for it leaves no trace.
pub proof fn announced_broadcast_is_preferred(
    state: DynamicModel,
    path: Seq<Seq<char>>,
    source: SourceModel,
    closed: Set<u64>,
)
    ensures
        state.request(path, Some(source), closed) == Found::Ready(source),
        state.requested(path, Some(source), closed) == state,
        request_outcome(Found::Ready(source), state) == Poll::Ready(
            Ok::<SourceModel, Error>(source),
        ),
{
}

/// A request for what is neither announced nor served yet waits in the queue behind the others,
/// for as long as there is a handler that may serve it; one for what is served gets that, while
/// it lasts; and a closed origin serves nothing.
pub proof fn request_is_queued_once(
    state: DynamicModel,
    path: Seq<Seq<char>>,
    closed: Set<u64>,
)
    requires
        state.next_result < u64::MAX,
    ensures
        ({
            let found = state.request(path, None, closed);
            let after = state.requested(path, None, closed);
            let live = state.served.contains_key(path) && !closed.contains(
                state.served[path].channel,
            );
            &&& state.closed ==> found == Found::Failed(Error::Dropped) && after == state
            &&& !state.closed && live ==> found == Found::Ready(state.served[path]) && after
                == state
            &&& !state.closed && !live && state.requests.contains_key(path) ==> {
                &&& found == Found::Waiting(state.requests[path])
                &&& after.order == state.order
                &&& after.requests == state.requests
                &&& after.results[state.requests[path]].waiters
                    == state.results[state.requests[path]].waiters + 1
                &&& after.results[state.requests[path]].resolved
                    == state.results[state.requests[path]].resolved
            }
            &&& !state.closed && !live && !state.requests.contains_key(path) && state.dynamic > 0
                ==> {
                &&& found == Found::Waiting(state.next_result)
                &&& after.order == state.order.push(path)
                &&& after.requests.contains_key(path)
                &&& after.requests[path] == state.next_result
                &&& after.results[state.next_result].waiters == 1
                &&& request_outcome(found, after) is Pending
            }
            &&& !state.closed && !live && !state.requests.contains_key(path) && state.dynamic == 0
                ==> {
                &&& found == Found::Failed(Error::Unroutable)
                &&& after.order == state.order
                &&& after.requests == state.requests
            }
            &&& after.dynamic == state.dynamic
            &&& after.closed == state.closed
            &&& forall|other: Seq<Seq<char>>| #[trigger]
                state.served.contains_key(other) && other != path ==> after.served.contains_key(
                    other,
                ) && after.served[other] == state.served[other]
            &&& forall|id: u64| #[trigger]
                state.results.contains_key(id) && found != Found::Waiting(id)
                    ==> after.results.contains_key(id) && after.results[id] == state.results[id]
        }),
{
}

/// An answer reaches those who asked and nobody else: a rejection is what they find, a request
/// that is given up could not be routed, and either way the path can be asked for again.
pub proof fn answers_reach_those_who_asked(
    state: DynamicModel,
    path: Seq<Seq<char>>,
    id: u64,
    err: Error,
    other: u64,
)
    requires
        !state.closed,
        state.in_flight(path, id),
        state.results.contains_key(id),
        state.results[id].waiters > 0,
        state.results[id].resolved is None,
        other != id,
    ensures
        ({
            let rejected = state.landed(path, id).resolved(id, Err(err));
            let abandoned = state.landed(path, id).given_up(id);
            &&& request_outcome(Found::Waiting(id), rejected) == Poll::Ready(
                Err::<SourceModel, Error>(err),
            )
            &&& request_outcome(Found::Waiting(id), abandoned) == Poll::Ready(
                Err::<SourceModel, Error>(Error::Unroutable),
            )
            &&& !rejected.requests.contains_key(path)
            &&& !abandoned.requests.contains_key(path)
            &&& rejected.served == state.served
            &&& abandoned.served == state.served
            &&& request_outcome(Found::Waiting(other), rejected) == request_outcome(
                Found::Waiting(other),
                state,
            )
            &&& request_outcome(Found::Waiting(other), abandoned) == request_outcome(
                Found::Waiting(other),
                state,
            )
        }),
        forall|at: Seq<Seq<char>>| #[trigger]
            state.requests.contains_key(at) && at != path ==> state.landed(
                path,
                id,
            ).requests.contains_key(at) && state.landed(path, id).requests[at]
                == state.requests[at],
{
}

proof fn given_up_results(state: DynamicModel, n: nat, id: u64)
    requires
        n <= state.order.len(),
    ensures
        ({
            let after = state.queued_given_up(n);
            let queued = exists|i: int| 0 <= i < n && state.requests[#[trigger] state.order[i]]
                == id;
            &&& !queued ==> request_outcome(Found::Waiting(id), after) == request_outcome(
                Found::Waiting(id),
                state,
            )
            &&& queued && (state.results.contains_key(id) ==> state.results[id].resolved is None)
                ==> request_outcome(Found::Waiting(id), after) == Poll::Ready(
                Err::<SourceModel, Error>(Error::Unroutable),
            )
            &&& after.results.contains_key(id) ==> state.results.contains_key(id)
                && after.results[id].resolved == state.results[id].resolved
            &&& queued && after.results.contains_key(id) ==> after.results[id].closed
        }),
    decreases n,
{
    if n > 0 {
        let m = (n - 1) as nat;
        given_up_results(state, m, id);
        queued_given_up_frame(state, m);
        let last = state.requests[state.order[n - 1]];
        let before = state.queued_given_up(m);
        let after = state.queued_given_up(n);
        assert(after == before.given_up(last));
        let queued = exists|i: int| 0 <= i < n && state.requests[#[trigger] state.order[i]] == id;
        let earlier = exists|i: int|
            0 <= i < m && state.requests[#[trigger] state.order[i]] == id;
        if earlier {
            let i = choose|i: int| 0 <= i < m && state.requests[#[trigger] state.order[i]] == id;
            assert(state.requests[state.order[i]] == id);
            assert(queued);
        }
        if last == id {
            assert(state.requests[state.order[n - 1]] == id);
            assert(queued);
        } else if queued {
            let i = choose|i: int| 0 <= i < n && state.requests[#[trigger] state.order[i]] == id;
            assert(i < m);
        }
    }
}

/// When the last handler leaves, everyone who waits in the queue is told that nobody could route
/// their request, and a request that a handler took on is left to it.
pub proof fn last_handler_fails_the_queue(state: DynamicModel, id: u64)
    requires
        state.results.contains_key(id) ==> state.results[id].resolved is None,
    ensures
        ({
            let after = state.queued_given_up(state.order.len());
            let queued = exists|i: int|
                0 <= i < state.order.len() && state.requests[#[trigger] state.order[i]] == id;
            &&& queued ==> request_outcome(Found::Waiting(id), after) == Poll::Ready(
                Err::<SourceModel, Error>(Error::Unroutable),
            )
            &&& !queued ==> request_outcome(Found::Waiting(id), after) == request_outcome(
                Found::Waiting(id),
                state,
            )
            &&& after.served == state.served
        }),
{
    given_up_results(state, state.order.len(), id);
    queued_given_up_frame(state, state.order.len());
}

/// A result is seen once it is there: it is handed to each who waits, until then they wait, and
/// one that is gone without an answer could not be routed.
pub proof fn results_are_seen(state: DynamicModel, id: u64)
    ensures
        ({
            let seen = request_outcome(Found::Waiting(id), state);
            let there = state.results.contains_key(id);
            &&& there && state.results[id].resolved is Some ==> seen == Poll::Ready(
                state.results[id].resolved->Some_0,
            )
            &&& there && state.results[id].resolved is None && !state.results[id].closed
                ==> seen is Pending
            &&& there && state.results[id].resolved is None && state.results[id].closed ==> seen
                == Poll::Ready(Err::<SourceModel, Error>(Error::Unroutable))
            &&& !there ==> seen == Poll::Ready(Err::<SourceModel, Error>(Error::Unroutable))
        }),
        forall|err: Error| #[trigger]
            request_outcome(Found::Failed(err), state) == Poll::Ready(
                Err::<SourceModel, Error>(err),
            ),
{
}

/// An origin starts out open, with nothing asked for and nobody to serve it.
pub proof fn origin_starts_unasked(path: Seq<Seq<char>>, closed: Set<u64>)
    ensures
        ({
            let state = DynamicModel::empty();
            &&& !state.closed
            &&& state.dynamic == 0
            &&& state.order.len() == 0
            &&& state.next_result == 0
            &&& !state.requests.contains_key(path)
            &&& !state.served.contains_key(path)
            &&& state.request(path, None, closed) == Found::Failed(Error::Unroutable)
        }),
{
}

/// Only the request in flight under the number lands, and only while the origin is open; a newer
/// one for the path, and every other, stays in flight. Serving a closed origin changes nothing.
pub proof fn only_its_own_request_lands(
    state: DynamicModel,
    path: Seq<Seq<char>>,
    id: u64,
    source: SourceModel,
)
    ensures
        ({
            let own = state.requests.contains_key(path) && state.requests[path] == id;
            let after = state.landed(path, id);
            &&& state.closed || !own ==> after == state
            &&& !state.closed && own ==> after.requests == state.requests.remove(path)
            &&& after.order == state.order
            &&& after.served == state.served
            &&& after.results == state.results
            &&& after.dynamic == state.dynamic
            &&& after.closed == state.closed
        }),
        state.closed ==> state.serving(path, source) == state,
        !state.closed ==> state.serving(path, source).served == state.served.insert(path, source),
        state.serving(path, source).requests == state.requests,
        state.serving(path, source).results == state.results,
{
}

/// Each who waits is counted off once: with others left the result stays, one fewer waiting, and
/// releasing what is not waited for changes nothing.
pub proof fn waiters_are_counted_off(state: DynamicModel, id: u64, found: Found)
    ensures
        ({
            let after = state.released(Found::Waiting(id));
            let waited = state.results.contains_key(id) && state.results[id].waiters > 0;
            &&& !waited ==> after == state
            &&& waited && (state.results[id].waiters > 1 || !state.results[id].closed) ==> {
                &&& after.results.contains_key(id)
                &&& after.results[id].waiters == state.results[id].waiters - 1
                &&& after.results[id].resolved == state.results[id].resolved
                &&& after.results[id].closed == state.results[id].closed
            }
            &&& waited && state.results[id].waiters == 1 && state.results[id].closed
                ==> !after.results.contains_key(id)
            &&& after.results.remove(id) == state.results.remove(id)
            &&& after.requests == state.requests
            &&& after.order == state.order
        }),
        !(found is Waiting) ==> state.released(found) == state,
{
    let after = state.released(Found::Waiting(id));
    assert(after.results.remove(id) =~= state.results.remove(id));
}

} // verus!
