//! Telling cursors which broadcasts come and go.

use vstd::prelude::*;
use vstd::utf8::*;

use crate::keyed::KeyMap;
use crate::model::tree::{Change, ChangeModel, Source, SourceModel};
use crate::path::{join_path, Path};

verus! {

/// What happened to a broadcast at a path.
#[derive(Debug)]
pub enum Announced {
    /// A broadcast became available.
    Active(Source),
    /// The broadcast was replaced without an interruption in availability (e.g. a relay
    /// failover or a shorter hop path arriving). Carries the replacement.
    Restart(Source),
    /// The broadcast is no longer available.
    Ended,
}

/// What an [`Announced`] stands for.
pub enum AnnouncedModel {
    Active(SourceModel),
    Restart(SourceModel),
    Ended,
}

impl View for Announced {
    type V = AnnouncedModel;

    open spec fn view(&self) -> AnnouncedModel {
        match *self {
            Announced::Active(source) => AnnouncedModel::Active(source@),
            Announced::Restart(source) => AnnouncedModel::Restart(source@),
            Announced::Ended => AnnouncedModel::Ended,
        }
    }
}

impl Announced {
    /// The broadcast, or `None` if it ended.
    ///
    /// Both [`Active`](Self::Active) and [`Restart`](Self::Restart) carry a broadcast;
    /// [`Ended`](Self::Ended) does not.
    pub fn broadcast(self) -> (r: Option<Source>)
        ensures
            match self@ {
                AnnouncedModel::Active(source) | AnnouncedModel::Restart(source) => r matches Some(
                    found,
                ) && found@ == source,
                AnnouncedModel::Ended => r is None,
            },
    {
        match self {
            Announced::Active(source) => Some(source),
            Announced::Restart(source) => Some(source),
            Announced::Ended => None,
        }
    }
}

/// One coalesced update queued for a cursor.
///
/// At most one entry exists per path, so a slow consumer's pending set is bounded by the
/// number of distinct paths. `UnannounceAnnounce` preserves the signal that a broadcast
/// genuinely went away and a different one took its place, while a stale `Announce` cancels
/// with a subsequent unannounce because the consumer has not yet observed it. `Restart` is
/// the atomic replacement: the broadcast at the path never became unavailable.
pub enum PendingUpdate {
    Announce(Source),
    Unannounce,
    UnannounceAnnounce(Source),
    Restart(Source),
}

/// What a [`PendingUpdate`] stands for.
pub enum Update {
    Announce(SourceModel),
    Unannounce,
    UnannounceAnnounce(SourceModel),
    Restart(SourceModel),
}

impl View for PendingUpdate {
    type V = Update;

    open spec fn view(&self) -> Update {
        match *self {
            PendingUpdate::Announce(source) => Update::Announce(source@),
            PendingUpdate::Unannounce => Update::Unannounce,
            PendingUpdate::UnannounceAnnounce(source) => Update::UnannounceAnnounce(source@),
            PendingUpdate::Restart(source) => Update::Restart(source@),
        }
    }
}

/// What is pending after an announce.
pub open spec fn after_announce(pending: Option<Update>, source: SourceModel) -> Option<Update> {
    Some(
        match pending {
            // First announce, or a stale announce being replaced.
            None | Some(Update::Announce(_)) => Update::Announce(source),
            // The consumer needs to observe the unannounce before this announce.
            Some(Update::Unannounce) | Some(Update::UnannounceAnnounce(_)) =>
                Update::UnannounceAnnounce(source),
            // A restart the consumer hasn't drained yet: just the newer broadcast.
            Some(Update::Restart(_)) => Update::Restart(source),
        },
    )
}

/// What is pending after a restart.
pub open spec fn after_restart(pending: Option<Update>, source: SourceModel) -> Option<Update> {
    Some(
        match pending {
            // The consumer hasn't seen the original announce yet; keep it a fresh announce.
            Some(Update::Announce(_)) => Update::Announce(source),
            // The consumer saw the original active; collapse everything into one restart.
            _ => Update::Restart(source),
        },
    )
}

/// What is pending after an unannounce.
pub open spec fn after_unannounce(pending: Option<Update>) -> Option<Update> {
    match pending {
        // The consumer has not seen the pending announce; drop both entirely.
        Some(Update::Announce(_)) => None,
        _ => Some(Update::Unannounce),
    }
}

/// What is pending after a change of the tree.
pub open spec fn after_change(pending: Option<Update>, change: ChangeModel) -> Option<Update> {
    match change {
        ChangeModel::Unseen => pending,
        ChangeModel::Announce(source) => after_announce(pending, source),
        ChangeModel::Restart(source) => after_restart(pending, source),
        ChangeModel::Unannounce => after_unannounce(pending),
    }
}

/// What a pending update is delivered as.
pub open spec fn delivered(update: Update) -> AnnouncedModel {
    match update {
        Update::Announce(source) => AnnouncedModel::Active(source),
        Update::Unannounce => AnnouncedModel::Ended,
        Update::UnannounceAnnounce(_) => AnnouncedModel::Ended,
        Update::Restart(source) => AnnouncedModel::Restart(source),
    }
}

/// What is left pending once an update was delivered.
pub open spec fn left_over(update: Update) -> Option<Update> {
    match update {
        Update::UnannounceAnnounce(source) => Some(Update::Announce(source)),
        _ => None,
    }
}

/// The pending updates by path.
pub type Updates = Map<Seq<Seq<char>>, Update>;

/// The update pending for a path.
pub open spec fn pending_at(updates: Updates, path: Seq<Seq<char>>) -> Option<Update> {
    if updates.contains_key(path) {
        Some(updates[path])
    } else {
        None
    }
}

/// The updates with that of one path replaced.
pub open spec fn with_pending(updates: Updates, path: Seq<Seq<char>>, update: Option<Update>) -> Updates {
    match update {
        Some(update) => updates.insert(path, update),
        None => updates.remove(path),
    }
}

/// Whether text `a` sorts before text `b`, both given as bytes.
pub open spec fn sorts_before(a: Seq<u8>, b: Seq<u8>) -> bool
    decreases a.len(),
{
    if b.len() == 0 {
        false
    } else if a.len() == 0 {
        true
    } else if a[0] != b[0] {
        a[0] < b[0]
    } else {
        sorts_before(a.skip(1), b.skip(1))
    }
}

/// Whether path `a` sorts before path `b`: by their text.
pub open spec fn path_before(a: Seq<Seq<char>>, b: Seq<Seq<char>>) -> bool {
    sorts_before(encode_utf8(join_path(a)), encode_utf8(join_path(b)))
}

proof fn sorts_before_at(a: Seq<u8>, b: Seq<u8>, i: int)
    requires
        0 <= i <= a.len(),
        i <= b.len(),
        a.take(i) == b.take(i),
    ensures
        sorts_before(a, b) == sorts_before(a.skip(i), b.skip(i)),
    decreases i,
{
    if i == 0 {
        assert(a.skip(0) =~= a);
        assert(b.skip(0) =~= b);
    } else {
        assert(a[0] == a.take(i)[0]);
        assert(b[0] == b.take(i)[0]);
        assert(a.skip(1).take(i - 1) =~= a.take(i).skip(1));
        assert(b.skip(1).take(i - 1) =~= b.take(i).skip(1));
        sorts_before_at(a.skip(1), b.skip(1), i - 1);
        assert(a.skip(1).skip(i - 1) =~= a.skip(i));
        assert(b.skip(1).skip(i - 1) =~= b.skip(i));
    }
}

/// Nothing sorts before itself.
proof fn sorts_before_irreflexive(a: Seq<u8>)
    ensures
        !sorts_before(a, a),
    decreases a.len(),
{
    if a.len() > 0 {
        sorts_before_irreflexive(a.skip(1));
    }
}

/// Sorting is transitive.
proof fn sorts_before_trans(a: Seq<u8>, b: Seq<u8>, c: Seq<u8>)
    ensures
        sorts_before(a, b) && sorts_before(b, c) ==> sorts_before(a, c),
        !sorts_before(a, b) && sorts_before(c, b) ==> !sorts_before(a, c),
    decreases a.len() + b.len() + c.len(),
{
    if a.len() > 0 && b.len() > 0 && c.len() > 0 {
        sorts_before_trans(a.skip(1), b.skip(1), c.skip(1));
    }
}

fn text_before(a: &Path, b: &Path) -> (r: bool)
    ensures
        r == path_before(a@, b@),
{
    let left: String = a.to_text();
    let right: String = b.to_text();
    let x: &[u8] = left.as_str().as_bytes();
    let y: &[u8] = right.as_str().as_bytes();
    let mut i: usize = 0;
    assert(x@.take(0) =~= y@.take(0));
    while i < x.len() && i < y.len() && x[i] == y[i]
        invariant
            i <= x@.len(),
            i <= y@.len(),
            x@.take(i as int) == y@.take(i as int),
        decreases x@.len() - i,
    {
        assert(x@.take(i + 1) =~= x@.take(i as int).push(x@[i as int]));
        assert(y@.take(i + 1) =~= y@.take(i as int).push(y@[i as int]));
        i += 1;
    }
    proof {
        sorts_before_at(x@, y@, i as int);
    }
    if i == y.len() {
        false
    } else if i == x.len() {
        true
    } else {
        x[i] < y[i]
    }
}

/// Pending updates keyed by path: memory is bounded by the number of distinct paths with
/// outstanding work (collapsed pairs are fully erased), and delivery is in the order of the
/// paths.
pub struct Pending {
    pub updates: KeyMap<Path, PendingUpdate>,
}

impl View for Pending {
    type V = Updates;

    open spec fn view(&self) -> Updates {
        self.updates@.map_values(|update: PendingUpdate| update@)
    }
}

impl Pending {
    /// Nothing pending.
    pub fn new() -> (r: Pending)
        ensures
            r@ == Map::<Seq<Seq<char>>, Update>::empty(),
    {
        let r: Pending = Pending { updates: KeyMap::new() };
        assert(r@ =~= Map::<Seq<Seq<char>>, Update>::empty());
        r
    }

    /// Set what is pending for a path.
    fn put(&mut self, path: Path, update: PendingUpdate)
        ensures
            final(self)@ == old(self)@.insert(path@, update@),
    {
        let ghost id = path@;
        let ghost new = update@;
        let _ = self.updates.insert(path, update);
        assert(self@ =~= old(self)@.insert(id, new));
    }

    /// Take what is pending for a path.
    fn pull(&mut self, path: &Path) -> (r: Option<PendingUpdate>)
        ensures
            final(self)@ == old(self)@.remove(path@),
            match r {
                Some(update) => pending_at(old(self)@, path@) == Some(update@),
                None => pending_at(old(self)@, path@) is None,
            },
    {
        let r: Option<PendingUpdate> = self.updates.remove(path);
        assert(self@ =~= old(self)@.remove(path@));
        r
    }

    /// A broadcast became available.
    pub fn apply_announce(&mut self, path: Path, source: Source)
        ensures
            final(self)@ == with_pending(
                old(self)@,
                path@,
                after_announce(pending_at(old(self)@, path@), source@),
            ),
    {
        let new: PendingUpdate = match self.pull(&path) {
            None => PendingUpdate::Announce(source),
            Some(PendingUpdate::Announce(_)) => PendingUpdate::Announce(source),
            Some(PendingUpdate::Unannounce) => PendingUpdate::UnannounceAnnounce(source),
            Some(PendingUpdate::UnannounceAnnounce(_)) => PendingUpdate::UnannounceAnnounce(source),
            Some(PendingUpdate::Restart(_)) => PendingUpdate::Restart(source),
        };
        let ghost id = path@;
        self.put(path, new);
        assert(self@ =~= old(self)@.insert(id, new@));
    }

    /// The broadcast was replaced.
    pub fn apply_restart(&mut self, path: Path, source: Source)
        ensures
            final(self)@ == with_pending(
                old(self)@,
                path@,
                after_restart(pending_at(old(self)@, path@), source@),
            ),
    {
        let new: PendingUpdate = match self.pull(&path) {
            Some(PendingUpdate::Announce(_)) => PendingUpdate::Announce(source),
            _ => PendingUpdate::Restart(source),
        };
        let ghost id = path@;
        self.put(path, new);
        assert(self@ =~= old(self)@.insert(id, new@));
    }

    /// The broadcast is no longer available.
    pub fn apply_unannounce(&mut self, path: Path)
        ensures
            final(self)@ == with_pending(
                old(self)@,
                path@,
                after_unannounce(pending_at(old(self)@, path@)),
            ),
    {
        match self.pull(&path) {
            Some(PendingUpdate::Announce(_)) => {},
            _ => {
                let ghost id = path@;
                self.put(path, PendingUpdate::Unannounce);
                assert(self@ =~= old(self)@.insert(id, Update::Unannounce));
            },
        }
    }

    /// Something happened in the tree.
    pub fn apply(&mut self, path: Path, change: &Change)
        ensures
            final(self)@ == with_pending(
                old(self)@,
                path@,
                after_change(pending_at(old(self)@, path@), change@),
            ),
    {
        match change {
            Change::Unseen => {
                assert(self@ =~= with_pending(self@, path@, pending_at(self@, path@)));
            },
            Change::Announce(source) => self.apply_announce(path, source.clone()),
            Change::Restart(source) => self.apply_restart(path, source.clone()),
            Change::Unannounce => self.apply_unannounce(path),
        }
    }

    /// Whether nothing is pending.
    pub fn is_empty(&self) -> (r: bool)
        ensures
            r == (self@ == Map::<Seq<Seq<char>>, Update>::empty()),
    {
        let r: bool = self.updates.is_empty();
        proof {
            if r {
                assert(self@ =~= Map::<Seq<Seq<char>>, Update>::empty());
            } else if self@ == Map::<Seq<Seq<char>>, Update>::empty() {
                assert(self.updates@ =~= Map::<Seq<Seq<char>>, PendingUpdate>::empty()) by {
                    assert forall|id: Seq<Seq<char>>| !self.updates@.contains_key(id) by {
                        assert(!self@.contains_key(id));
                    }
                }
            }
        }
        r
    }

    /// The pending path that sorts first.
    fn first(&self) -> (r: Option<Path>)
        ensures
            match r {
                Some(path) => {
                    &&& self@.contains_key(path@)
                    &&& forall|other: Seq<Seq<char>>| #[trigger]
                        self@.contains_key(other) ==> !path_before(other, path@)
                },
                None => self@ == Map::<Seq<Seq<char>>, Update>::empty(),
            },
    {
        if self.is_empty() {
            return None;
        }
        let n: usize = self.updates.len();
        let ghost order: Seq<Seq<Seq<char>>> = self.updates.order();
        proof {
            if n == 0 {
                assert(self@ =~= Map::<Seq<Seq<char>>, Update>::empty()) by {
                    assert forall|id: Seq<Seq<char>>| !self@.contains_key(id) by {
                        assert(!order.to_set().contains(id));
                    }
                }
            }
        }
        let (first, _): (&Path, &PendingUpdate) = self.updates.nth(0);
        let mut best: Path = first.clone();
        let mut i: usize = 1;
        proof {
            sorts_before_irreflexive(encode_utf8(join_path(best@)));
        }
        while i < n
            invariant
                n == self.updates.order().len(),
                order == self.updates.order(),
                1 <= i <= n,
                self@.contains_key(best@),
                forall|j: int| 0 <= j < i ==> !path_before(#[trigger] order[j], best@),
            decreases n - i,
        {
            let (path, _): (&Path, &PendingUpdate) = self.updates.nth(i);
            if text_before(path, &best) {
                proof {
                    assert forall|j: int| 0 <= j < i + 1 implies !path_before(
                        #[trigger] order[j],
                        path@,
                    ) by {
                        sorts_before_irreflexive(encode_utf8(join_path(path@)));
                        sorts_before_trans(
                            encode_utf8(join_path(order[j])),
                            encode_utf8(join_path(best@)),
                            encode_utf8(join_path(path@)),
                        );
                    }
                }
                best = path.clone();
            }
            i += 1;
        }
        proof {
            assert forall|other: Seq<Seq<char>>| #[trigger]
                self@.contains_key(other) implies !path_before(other, best@) by {
                assert(self.updates@.contains_key(other));
                assert(order.to_set().contains(other));
                let j = order.index_of(other);
                assert(order[j] == other);
            }
        }
        Some(best)
    }

    /// Take one update to deliver to the consumer, if any.
    pub fn take(&mut self) -> (r: Option<(Path, Announced)>)
        ensures
            match r {
                Some((path, event)) => {
                    &&& old(self)@.contains_key(path@)
                    &&& forall|other: Seq<Seq<char>>| #[trigger]
                        old(self)@.contains_key(other) ==> !path_before(other, path@)
                    &&& event@ == delivered(old(self)@[path@])
                    &&& final(self)@ == with_pending(
                        old(self)@,
                        path@,
                        left_over(old(self)@[path@]),
                    )
                },
                None => {
                    &&& old(self)@ == Map::<Seq<Seq<char>>, Update>::empty()
                    &&& final(self)@ == old(self)@
                },
            },
    {
        let path: Path = match self.first() {
            Some(path) => path,
            None => {
                return None;
            },
        };
        let event: Announced = match self.pull(&path) {
            Some(PendingUpdate::Announce(source)) => Announced::Active(source),
            Some(PendingUpdate::UnannounceAnnounce(source)) => {
                // Deliver the unannounce now; leave the trailing announce pending so the next
                // take returns it for the same path.
                let ghost left = source@;
                self.put(path.clone(), PendingUpdate::Announce(source));
                assert(self@ =~= old(self)@.insert(path@, Update::Announce(left)));
                Announced::Ended
            },
            Some(PendingUpdate::Restart(source)) => Announced::Restart(source),
            _ => Announced::Ended,
        };
        Some((path, event))
    }

    /// Take updates until one announces a broadcast at exactly `path`: those that sort before
    /// it are skipped, those that sort after it stay.
    pub fn take_exact(&mut self, path: &Path) -> (r: Option<Source>)
        ensures
            exact_taken(
                old(self)@,
                path@,
                match r {
                    Some(source) => Some(source@),
                    None => None,
                },
                final(self)@,
            ),
    {
        loop
            invariant
                forall|k: Seq<Seq<char>>| #[trigger]
                    self@.contains_key(k) ==> old(self)@.contains_key(k),
                announces(pending_at(self@, path@)) == announces(pending_at(old(self)@, path@)),
                announces(pending_at(self@, path@)) is Some ==> forall|k: Seq<Seq<char>>| #[trigger]
                    old(self)@.contains_key(k) && path_before(path@, k) ==> self@.contains_key(k)
                        && self@[k] == old(self)@[k],
            decreases self@.dom().len(), halves(self@).len(),
        {
            let ghost before = self@;
            let _ = self.updates.len();
            assert(before.dom() =~= self.updates@.dom());
            match self.take() {
                None => {
                    return None;
                },
                Some((at, event)) => {
                    proof {
                        match left_over(before[at@]) {
                            Some(_) => {
                                assert(self@.dom() =~= before.dom());
                                assert(halves(self@) =~= halves(before).remove(at@));
                                assert(halves(before).contains(at@));
                            },
                            None => {
                                assert(self@.dom() =~= before.dom().remove(at@));
                            },
                        }
                    }
                    if at.same(path) {
                        match event.broadcast() {
                            Some(source) => {
                                return Some(source);
                            },
                            None => {},
                        }
                    } else {
                        assert(pending_at(self@, path@) == pending_at(before, path@));
                    }
                },
            }
        }
    }
}

/// The broadcast that a pending update announces in the end.
pub open spec fn announces(update: Option<Update>) -> Option<SourceModel> {
    settled(None, update)
}

/// The paths with two events pending.
spec fn halves(updates: Updates) -> Set<Seq<Seq<char>>> {
    updates.dom().filter(|path: Seq<Seq<char>>| updates[path] is UnannounceAnnounce)
}

/// Whether updates were taken until one announced a broadcast at exactly `path`. Without one
/// everything is taken.
pub open spec fn exact_taken(
    before: Updates,
    path: Seq<Seq<char>>,
    r: Option<SourceModel>,
    after: Updates,
) -> bool {
    &&& r == announces(pending_at(before, path))
    &&& if r is Some {
        &&& !after.contains_key(path)
        &&& forall|k: Seq<Seq<char>>| #[trigger]
            after.contains_key(k) ==> before.contains_key(k) && !path_before(k, path)
        &&& forall|k: Seq<Seq<char>>| #[trigger]
            before.contains_key(k) && path_before(path, k) ==> after.contains_key(k) && after[k]
                == before[k]
    } else {
        after == Map::<Seq<Seq<char>>, Update>::empty()
    }
}

/// What a consumer that last saw `seen` will believe once it has drained everything.
pub open spec fn settled(seen: Option<SourceModel>, pending: Option<Update>) -> Option<SourceModel> {
    match pending {
        None => seen,
        Some(Update::Announce(source)) => Some(source),
        Some(Update::Unannounce) => None,
        Some(Update::UnannounceAnnounce(source)) => Some(source),
        Some(Update::Restart(source)) => Some(source),
    }
}

/// Whether what is pending fits what the consumer saw last: nothing can end or be replaced
/// that it has not seen, and nothing can start that it has.
pub open spec fn fits(seen: Option<SourceModel>, pending: Option<Update>) -> bool {
    match pending {
        None => true,
        Some(Update::Announce(_)) => seen is None,
        Some(_) => seen is Some,
    }
}

/// What a consumer believes after an event.
pub open spec fn observe(event: AnnouncedModel) -> Option<SourceModel> {
    match event {
        AnnouncedModel::Active(source) | AnnouncedModel::Restart(source) => Some(source),
        AnnouncedModel::Ended => None,
    }
}

/// However updates are coalesced, a consumer that drains them ends up with the truth: an
/// announce or restart leaves it with the new broadcast, an unannounce with none. And what
/// is pending keeps fitting what the consumer saw, as long as only what is there ends or is
/// replaced, and only what is not there starts.
pub proof fn coalescing_converges(
    seen: Option<SourceModel>,
    pending: Option<Update>,
    source: SourceModel,
)
    requires
        fits(seen, pending),
    ensures
        settled(seen, after_announce(pending, source)) == Some(source),
        settled(seen, after_restart(pending, source)) == Some(source),
        settled(seen, pending) is Some ==> settled(seen, after_unannounce(pending)) is None,
        settled(seen, pending) is None ==> fits(seen, after_announce(pending, source)),
        settled(seen, pending) is Some ==> fits(seen, after_restart(pending, source)),
        settled(seen, pending) is Some ==> fits(seen, after_unannounce(pending)),
{
}

/// Events toggle: what is delivered ends or replaces only what the consumer saw, and starts
/// only what it did not; and delivering changes nothing of what the consumer ends up with.
pub proof fn delivery_toggles(seen: Option<SourceModel>, update: Update)
    requires
        fits(seen, Some(update)),
    ensures
        delivered(update) is Active <==> seen is None,
        fits(observe(delivered(update)), left_over(update)),
        settled(observe(delivered(update)), left_over(update)) == settled(seen, Some(update)),
{
}

/// An interruption is seen as one, a replacement is not: what ends and starts again is delivered
/// as an end and then a start, what is replaced as a restart, and what comes and goes before it
/// was seen is not delivered at all.
pub proof fn interruptions_are_seen(
    seen: Option<SourceModel>,
    pending: Option<Update>,
    source: SourceModel,
)
    requires
        fits(seen, pending),
        settled(seen, pending) is Some,
    ensures
        seen is Some ==> ({
            let again = after_announce(after_unannounce(pending), source);
            &&& again matches Some(update) && delivered(update) == AnnouncedModel::Ended
            &&& left_over(again->Some_0) matches Some(rest) && delivered(rest)
                == AnnouncedModel::Active(source) && left_over(rest) is None
        }),
        seen is Some ==> ({
            let gone = after_unannounce(pending);
            &&& gone matches Some(update) && delivered(update) == AnnouncedModel::Ended
            &&& left_over(gone->Some_0) is None
        }),
        seen is Some ==> ({
            let replaced = after_restart(pending, source);
            &&& replaced matches Some(update) && delivered(update) == AnnouncedModel::Restart(
                source,
            )
            &&& left_over(replaced->Some_0) is None
        }),
        seen is None ==> after_unannounce(pending) is None,
        seen is None ==> ({
            let replaced = after_restart(pending, source);
            &&& replaced matches Some(update) && delivered(update) == AnnouncedModel::Active(
                source,
            )
            &&& left_over(replaced->Some_0) is None
        }),
        after_change(pending, ChangeModel::Unseen) == pending,
        after_change(pending, ChangeModel::Announce(source)) == after_announce(pending, source),
        after_change(pending, ChangeModel::Restart(source)) == after_restart(pending, source),
        after_change(pending, ChangeModel::Unannounce) == after_unannounce(pending),
{
}

/// An update pending for one path leaves every other path alone.
pub proof fn pending_updates_are_apart(
    updates: Updates,
    path: Seq<Seq<char>>,
    update: Option<Update>,
    other: Seq<Seq<char>>,
)
    ensures
        pending_at(with_pending(updates, path, update), path) == update,
        other != path ==> pending_at(with_pending(updates, path, update), other) == pending_at(
            updates,
            other,
        ),
        pending_at(updates, path) is Some <==> updates.contains_key(path),
{
}

/// Text sorts by its first difference; what ends first sorts first.
pub proof fn text_sorts_by_the_first_difference(a: Seq<u8>, b: Seq<u8>, i: int)
    requires
        0 <= i <= a.len(),
        i <= b.len(),
        a.take(i) == b.take(i),
    ensures
        i < a.len() && i < b.len() && a[i] != b[i] ==> sorts_before(a, b) == (a[i] < b[i]),
        i == a.len() ==> sorts_before(a, b) == (i < b.len()),
        i == b.len() ==> !sorts_before(a, b),
{
    sorts_before_at(a, b, i);
}

/// Waiting for one path finds what is announced there in the end, if anything is, and leaves what
/// comes after it for later.
pub proof fn exact_path_is_found(
    before: Updates,
    path: Seq<Seq<char>>,
    r: Option<SourceModel>,
    after: Updates,
    other: Seq<Seq<char>>,
)
    requires
        exact_taken(before, path, r, after),
    ensures
        !before.contains_key(path) ==> r is None,
        before.contains_key(path) ==> match before[path] {
            Update::Announce(source) => r == Some(source),
            Update::UnannounceAnnounce(source) => r == Some(source),
            Update::Restart(source) => r == Some(source),
            Update::Unannounce => r is None,
        },
        r is Some ==> !after.contains_key(path),
        r is Some && before.contains_key(other) && path_before(path, other) ==> after.contains_key(
            other,
        ) && after[other] == before[other],
        after.contains_key(other) ==> before.contains_key(other),
        r is None ==> !after.contains_key(other),
{
}

} // verus!
