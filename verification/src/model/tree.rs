//! The tree of broadcasts that an origin holds.

use vstd::prelude::*;

use crate::keyed::Key;
use crate::model::origin::{Origin, OriginList};
use crate::model::route_key::{key_of, route_key, RouteKey};
use crate::path::Path;

verus! {

/// A broadcast that can be consumed: which one it is, and the way it came.
#[derive(Debug)]
pub struct Source {
    /// Which broadcast this is.
    pub channel: u64,
    /// The chain of origins it traversed, oldest first.
    pub hops: OriginList,
}

/// What a [`Source`] stands for.
pub struct SourceModel {
    pub channel: u64,
    pub hops: Seq<Origin>,
}

impl View for Source {
    type V = SourceModel;

    open spec fn view(&self) -> SourceModel {
        SourceModel { channel: self.channel, hops: self.hops@ }
    }
}

impl Clone for Source {
    fn clone(&self) -> (r: Source)
        ensures
            r@ == self@,
    {
        Source { channel: self.channel, hops: self.hops.clone() }
    }
}

/// The routes to a broadcast at one path.
pub struct OriginBroadcast {
    /// Where it is published.
    pub path: Path,
    /// The one in use.
    pub active: Source,
    /// The others, in case the active one drops.
    pub backup: Vec<Source>,
}

/// What an [`OriginBroadcast`] stands for.
pub struct Entry {
    pub path: Seq<Seq<char>>,
    pub active: SourceModel,
    pub backup: Seq<SourceModel>,
}

/// What a run of sources stands for.
pub open spec fn source_models(sources: Seq<Source>) -> Seq<SourceModel> {
    sources.map_values(|source: Source| source@)
}

impl View for OriginBroadcast {
    type V = Entry;

    open spec fn view(&self) -> Entry {
        Entry { path: self.path@, active: self.active@, backup: source_models(self.backup@) }
    }
}

/// What an optional broadcast stands for.
pub open spec fn entry_of(broadcast: Option<OriginBroadcast>) -> Option<Entry> {
    match broadcast {
        Some(broadcast) => Some(broadcast@),
        None => None,
    }
}

/// What a change of the tree means to those who watch it.
pub enum Change {
    /// Nothing that can be seen.
    Unseen,
    /// A broadcast became available.
    Announce(Source),
    /// The broadcast was replaced without an interruption.
    Restart(Source),
    /// The broadcast is no longer available.
    Unannounce,
}

/// What a [`Change`] stands for.
pub enum ChangeModel {
    Unseen,
    Announce(SourceModel),
    Restart(SourceModel),
    Unannounce,
}

impl View for Change {
    type V = ChangeModel;

    open spec fn view(&self) -> ChangeModel {
        match *self {
            Change::Unseen => ChangeModel::Unseen,
            Change::Announce(source) => ChangeModel::Announce(source@),
            Change::Restart(source) => ChangeModel::Restart(source@),
            Change::Unannounce => ChangeModel::Unannounce,
        }
    }
}

/// Whether `channel` is among the sources.
pub open spec fn has_channel(sources: Seq<SourceModel>, channel: u64) -> bool {
    exists|i: int| 0 <= i < sources.len() && (#[trigger] sources[i]).channel == channel
}

/// The first place of `channel` among the sources, or their number.
pub open spec fn place_of(sources: Seq<SourceModel>, channel: u64) -> int
    decreases sources.len(),
{
    if sources.len() == 0 || sources[0].channel == channel {
        0
    } else {
        1 + place_of(sources.skip(1), channel)
    }
}

/// The first place, among the first `n` sources, of the best route to `path`.
pub open spec fn best_of(path: Seq<Seq<char>>, sources: Seq<SourceModel>, n: nat) -> int
    decreases n,
{
    if n <= 1 {
        0
    } else {
        let best = best_of(path, sources, (n - 1) as nat);
        if key_of(path, sources[n - 1].hops).less(key_of(path, sources[best].hops)) {
            n - 1
        } else {
            best
        }
    }
}

/// What publishing a source at a path makes of the routes there, and what is to be told.
///
/// The route with the lower ordering key (shorter hop chain, deterministic hash on ties) is
/// active, so every node converges on the same route regardless of the order announces
/// arrive. A duplicate (same underlying broadcast delivered via multiple links) is dropped.
pub open spec fn publish_entry(
    path: Seq<Seq<char>>,
    entry: Option<Entry>,
    source: SourceModel,
) -> (Option<Entry>, ChangeModel) {
    match entry {
        None => (
            Some(Entry { path, active: source, backup: seq![] }),
            ChangeModel::Announce(source),
        ),
        Some(existing) => if existing.active.channel == source.channel || has_channel(
            existing.backup,
            source.channel,
        ) {
            (entry, ChangeModel::Unseen)
        } else if key_of(path, source.hops).less(key_of(path, existing.active.hops)) {
            (
                Some(
                    Entry {
                        active: source,
                        backup: existing.backup.push(existing.active),
                        ..existing
                    },
                ),
                ChangeModel::Restart(source),
            )
        } else {
            (
                Some(Entry { backup: existing.backup.push(source), ..existing }),
                ChangeModel::Unseen,
            )
        },
    }
}

/// What removing a source makes of the routes at a path, and what is to be told.
///
/// The backup with the lowest ordering key is promoted, the same rule used when publishing,
/// so the route a node heals to still matches its peers.
pub open spec fn remove_entry(path: Seq<Seq<char>>, entry: Option<Entry>, channel: u64) -> (
    Option<Entry>,
    ChangeModel,
) {
    match entry {
        None => (None, ChangeModel::Unseen),
        Some(existing) => if has_channel(existing.backup, channel) {
            (
                Some(
                    Entry {
                        backup: existing.backup.remove(place_of(existing.backup, channel)),
                        ..existing
                    },
                ),
                ChangeModel::Unseen,
            )
        } else if existing.backup.len() > 0 {
            let best = best_of(path, existing.backup, existing.backup.len());
            (
                Some(
                    Entry {
                        active: existing.backup[best],
                        backup: existing.backup.remove(best),
                        ..existing
                    },
                ),
                ChangeModel::Restart(existing.backup[best]),
            )
        } else {
            (None, ChangeModel::Unannounce)
        },
    }
}

proof fn place_is(sources: Seq<SourceModel>, channel: u64, i: int)
    requires
        0 <= i < sources.len(),
        sources[i].channel == channel,
        forall|j: int| 0 <= j < i ==> (#[trigger] sources[j]).channel != channel,
    ensures
        place_of(sources, channel) == i,
    decreases i,
{
    if i > 0 {
        assert(sources[0].channel != channel);
        let rest = sources.skip(1);
        assert forall|j: int| 0 <= j < i - 1 implies (#[trigger] rest[j]).channel != channel by {
            assert(sources[j + 1].channel != channel);
        }
        place_is(rest, channel, i - 1);
    }
}

impl OriginBroadcast {
    /// The place of `channel` among the backups.
    fn find_backup(&self, channel: u64) -> (r: Option<usize>)
        ensures
            match r {
                Some(i) => i < self@.backup.len() && has_channel(self@.backup, channel) && i
                    == place_of(self@.backup, channel),
                None => !has_channel(self@.backup, channel),
            },
    {
        let mut i: usize = 0;
        while i < self.backup.len()
            invariant
                i <= self.backup@.len(),
                forall|j: int| 0 <= j < i ==> (#[trigger] self@.backup[j]).channel != channel,
            decreases self.backup@.len() - i,
        {
            assert(self@.backup[i as int] == self.backup@[i as int]@);
            if self.backup[i].channel == channel {
                proof {
                    place_is(self@.backup, channel, i as int);
                }
                return Some(i);
            }
            i += 1;
        }
        None
    }

    /// The place of the best backup.
    fn best_backup(&self, path: &Path) -> (r: usize)
        requires
            self.backup@.len() > 0,
        ensures
            r < self.backup@.len(),
            r == best_of(path@, self@.backup, self@.backup.len()),
    {
        let mut best: usize = 0;
        let mut i: usize = 1;
        assert(self@.backup[0] == self.backup@[0]@);
        while i < self.backup.len()
            invariant
                1 <= i <= self.backup@.len(),
                best < i,
                best == best_of(path@, self@.backup, i as nat),
            decreases self.backup@.len() - i,
        {
            assert(self@.backup[i as int] == self.backup@[i as int]@);
            assert(self@.backup[best as int] == self.backup@[best as int]@);
            let key: RouteKey = route_key(path, &self.backup[i].hops);
            if key.less(route_key(path, &self.backup[best].hops)) {
                best = i;
            }
            i += 1;
        }
        best
    }
}

/// Publish a source among the routes at `path`.
pub fn publish_at(path: &Path, broadcast: &mut Option<OriginBroadcast>, source: Source) -> (r:
    Change)
    ensures
        (entry_of(*final(broadcast)), r@) == publish_entry(
            path@,
            entry_of(*old(broadcast)),
            source@,
        ),
{
    match broadcast {
        Some(existing) => {
            if existing.active.channel == source.channel || existing.find_backup(
                source.channel,
            ).is_some() {
                return Change::Unseen;
            }
            let ghost before = existing@;
            if route_key(path, &source.hops).less(route_key(path, &existing.active.hops)) {
                let mut previous: Source = source.clone();
                std::mem::swap(&mut previous, &mut existing.active);
                existing.backup.push(previous);
                assert(existing@.backup =~= before.backup.push(before.active));
                Change::Restart(source)
            } else {
                // Loses the ordering (longer path, or the tie-break): keep as a backup in case
                // the active one drops.
                let ghost added = source@;
                existing.backup.push(source);
                assert(existing@.backup =~= before.backup.push(added));
                Change::Unseen
            }
        },
        None => {
            *broadcast = Some(
                OriginBroadcast { path: path.clone(), active: source.clone(), backup: Vec::new() },
            );
            assert(entry_of(*broadcast)->Some_0.backup =~= seq![]);
            Change::Announce(source)
        },
    }
}

/// Remove a source from the routes at `path`.
pub fn remove_at(path: &Path, broadcast: &mut Option<OriginBroadcast>, channel: u64) -> (r: Change)
    requires
        entry_of(*old(broadcast)) matches Some(entry) ==> entry.active.channel == channel
            || has_channel(entry.backup, channel),
    ensures
        (entry_of(*final(broadcast)), r@) == remove_entry(
            path@,
            entry_of(*old(broadcast)),
            channel,
        ),
{
    match broadcast {
        None => Change::Unseen,
        Some(existing) => {
            let ghost before = existing@;
            match existing.find_backup(channel) {
                Some(i) => {
                    let _ = existing.backup.remove(i);
                    assert(existing@.backup =~= before.backup.remove(i as int));
                    return Change::Unseen;
                },
                None => {},
            }
            // It must be the active broadcast.
            if existing.backup.len() > 0 {
                let best: usize = existing.best_backup(path);
                assert(before.backup[best as int] == existing.backup@[best as int]@);
                let next: Source = existing.backup.remove(best);
                assert(existing@.backup =~= before.backup.remove(best as int));
                existing.active = next.clone();
                return Change::Restart(next);
            }
            // No more backups, so remove the entry.
            *broadcast = None;
            Change::Unannounce
        },
    }
}

/// A node of the tree: the broadcast published there, the nodes one level down, and who is
/// to be told of changes at or below it.
pub struct Node {
    /// The broadcast that is published to this node.
    pub broadcast: Option<OriginBroadcast>,
    /// Nested nodes, one level down the tree.
    pub nested: Vec<(String, Node)>,
    /// The cursors that watch this node.
    pub consumers: Vec<u64>,
}

/// Whether child `i` of a node is called `name`.
pub open spec fn named(node: Node, i: int, name: Seq<char>) -> bool {
    0 <= i < node.nested@.len() && node.nested@[i].0@ == name
}

/// The child of a node with the given name.
pub open spec fn child_of(node: Node, name: Seq<char>) -> Option<int> {
    if exists|i: int| named(node, i, name) {
        Some(choose|i: int| named(node, i, name))
    } else {
        None
    }
}

/// The node at a path.
pub open spec fn node_at(node: Node, path: Seq<Seq<char>>) -> Option<Node>
    decreases path.len(),
{
    if path.len() == 0 {
        Some(node)
    } else {
        match child_of(node, path[0]) {
            Some(i) => node_at(node.nested@[i].1, path.skip(1)),
            None => None,
        }
    }
}

/// The routes published at a path.
pub open spec fn entry_at(node: Node, path: Seq<Seq<char>>) -> Option<Entry> {
    match node_at(node, path) {
        Some(found) => entry_of(found.broadcast),
        None => None,
    }
}

/// The cursors that watch exactly this path.
pub open spec fn consumers_at(node: Node, path: Seq<Seq<char>>) -> Seq<u64> {
    match node_at(node, path) {
        Some(found) => found.consumers@,
        None => seq![],
    }
}

/// The cursors that watch this path or one above it.
pub open spec fn watchers(node: Node, path: Seq<Seq<char>>) -> Seq<u64>
    decreases path.len(),
{
    if path.len() == 0 {
        node.consumers@
    } else {
        match child_of(node, path[0]) {
            Some(i) => node.consumers@ + watchers(node.nested@[i].1, path.skip(1)),
            None => node.consumers@,
        }
    }
}

/// Whether no two children have the same name.
pub open spec fn names_distinct(node: Node) -> bool {
    forall|i: int, j: int|
        0 <= i < j < node.nested@.len() ==> (#[trigger] node.nested@[i]).0@ != (
        #[trigger] node.nested@[j]).0@
}

/// Whether a tree has distinct names in every node, and at most `depth` levels below it.
pub open spec fn tree_valid(node: Node, depth: nat) -> bool
    decreases depth,
{
    &&& names_distinct(node)
    &&& depth == 0 ==> node.nested@.len() == 0
    &&& depth > 0 ==> forall|i: int|
        0 <= i < node.nested@.len() ==> tree_valid(
            (#[trigger] node.nested@[i]).1,
            (depth - 1) as nat,
        )
}

/// Whether two trees hold the same broadcasts and are watched by the same cursors.
pub open spec fn same_tree(a: Node, b: Node) -> bool {
    &&& forall|q: Seq<Seq<char>>| #[trigger] entry_at(a, q) == entry_at(b, q)
    &&& forall|q: Seq<Seq<char>>| #[trigger] consumers_at(a, q) == consumers_at(b, q)
}

/// With distinct names, a child is found by its name.
proof fn child_is(node: Node, i: int, name: Seq<char>)
    requires
        names_distinct(node),
        named(node, i, name),
    ensures
        child_of(node, name) == Some(i),
{
    let j = choose|j: int| named(node, j, name);
    assert(named(node, j, name));
    assert(i == j);
}

/// Replacing a child changes what is below it, and nothing else.
proof fn child_replaced(before: Node, after: Node, i: int, q: Seq<Seq<char>>)
    requires
        names_distinct(before),
        0 <= i < before.nested@.len(),
        after.broadcast == before.broadcast,
        after.consumers == before.consumers,
        after.nested@.len() == before.nested@.len(),
        after.nested@[i].0@ == before.nested@[i].0@,
        forall|j: int|
            0 <= j < before.nested@.len() && j != i ==> #[trigger] after.nested@[j]
                == before.nested@[j],
    ensures
        names_distinct(after),
        if q.len() > 0 && q[0] == before.nested@[i].0@ {
            &&& entry_at(after, q) == entry_at(after.nested@[i].1, q.skip(1))
            &&& consumers_at(after, q) == consumers_at(after.nested@[i].1, q.skip(1))
            &&& entry_at(before, q) == entry_at(before.nested@[i].1, q.skip(1))
            &&& consumers_at(before, q) == consumers_at(before.nested@[i].1, q.skip(1))
        } else {
            &&& entry_at(after, q) == entry_at(before, q)
            &&& consumers_at(after, q) == consumers_at(before, q)
        },
{
    assert(names_distinct(after)) by {
        assert forall|a: int, b: int| 0 <= a < b < after.nested@.len() implies (
        #[trigger] after.nested@[a]).0@ != (#[trigger] after.nested@[b]).0@ by {
            assert(before.nested@[a].0@ != before.nested@[b].0@);
        }
    }
    if q.len() > 0 {
        if q[0] == before.nested@[i].0@ {
            child_is(before, i, q[0]);
            child_is(after, i, q[0]);
        } else if exists|j: int| named(before, j, q[0]) {
            let j = choose|j: int| named(before, j, q[0]);
            assert(named(before, j, q[0]));
            child_is(before, j, q[0]);
            assert(named(after, j, q[0]));
            child_is(after, j, q[0]);
        } else {
            assert forall|j: int| !named(after, j, q[0]) by {
                assert(!named(before, j, q[0]));
            }
        }
    }
}

/// An empty child more, or less, makes no difference.
proof fn empty_child(before: Node, after: Node, i: int, q: Seq<Seq<char>>)
    requires
        names_distinct(after),
        0 <= i < after.nested@.len(),
        before.nested@ == after.nested@.remove(i),
        after.broadcast == before.broadcast,
        after.consumers == before.consumers,
        after.nested@[i].1.broadcast is None,
        after.nested@[i].1.nested@.len() == 0,
        after.nested@[i].1.consumers@.len() == 0,
    ensures
        names_distinct(before),
        entry_at(after, q) == entry_at(before, q),
        consumers_at(after, q) == consumers_at(before, q),
{
    assert(names_distinct(before)) by {
        assert forall|a: int, b: int| 0 <= a < b < before.nested@.len() implies (
        #[trigger] before.nested@[a]).0@ != (#[trigger] before.nested@[b]).0@ by {
            let x = if a < i {
                a
            } else {
                a + 1
            };
            let y = if b < i {
                b
            } else {
                b + 1
            };
            assert(after.nested@[x].0@ != after.nested@[y].0@);
        }
    }
    if q.len() > 0 {
        let child = after.nested@[i].1;
        if q[0] == after.nested@[i].0@ {
            child_is(after, i, q[0]);
            assert forall|j: int| !named(before, j, q[0]) by {
                if named(before, j, q[0]) {
                    let k = if j < i {
                        j
                    } else {
                        j + 1
                    };
                    assert(after.nested@[k].0@ == q[0]);
                    assert(k != i);
                }
            }
            let rest = q.skip(1);
            if rest.len() > 0 {
                assert forall|j: int| !named(child, j, rest[0]) by {}
            }
            assert(entry_at(after, q) == entry_at(child, rest));
            assert(consumers_at(after, q) =~= consumers_at(before, q));
        } else if exists|j: int| named(before, j, q[0]) {
            let j = choose|j: int| named(before, j, q[0]);
            assert(named(before, j, q[0]));
            child_is(before, j, q[0]);
            let k = if j < i {
                j
            } else {
                j + 1
            };
            assert(named(after, k, q[0]));
            child_is(after, k, q[0]);
        } else {
            assert forall|j: int| !named(after, j, q[0]) by {
                if named(after, j, q[0]) {
                    let k = if j < i {
                        j
                    } else {
                        j - 1
                    };
                    assert(named(before, k, q[0]));
                }
            }
        }
    }
}

/// Whether a path and source are those of an entry.
pub open spec fn listed(at: (Path, Source), entry: Entry) -> bool {
    at.0@ == entry.path && at.1@ == entry.active
}

/// Whether an entry is in a list of paths and sources.
pub open spec fn lists(list: Seq<(Path, Source)>, entry: Entry) -> bool {
    exists|j: int| 0 <= j < list.len() && listed(#[trigger] list[j], entry)
}

/// Whether a path and source are those of an entry in the tree.
pub open spec fn holds(node: Node, at: (Path, Source)) -> bool {
    exists|q: Seq<Seq<char>>|
        (#[trigger] entry_at(node, q)) is Some && listed(at, entry_at(node, q)->Some_0)
}

/// Whether a path and source are those of an entry in the tree at or below a path.
pub open spec fn holds_under(node: Node, path: Seq<Seq<char>>, at: (Path, Source)) -> bool {
    exists|q: Seq<Seq<char>>|
        (#[trigger] entry_at(node, q)) is Some && path.is_prefix_of(q) && listed(
            at,
            entry_at(node, q)->Some_0,
        )
}

/// The ids without the first `id`.
pub open spec fn without(ids: Seq<u64>, id: u64) -> Seq<u64>
    decreases ids.len(),
{
    if ids.len() == 0 {
        ids
    } else if ids[0] == id {
        ids.skip(1)
    } else {
        seq![ids[0]] + without(ids.skip(1), id)
    }
}

proof fn without_at(ids: Seq<u64>, id: u64, i: int)
    requires
        0 <= i <= ids.len(),
        forall|j: int| 0 <= j < i ==> ids[j] != id,
        i < ids.len() ==> ids[i] == id,
    ensures
        without(ids, id) == if i < ids.len() {
            ids.remove(i)
        } else {
            ids
        },
    decreases i,
{
    if i > 0 {
        assert(ids[0] != id);
        without_at(ids.skip(1), id, i - 1);
        assert(without(ids, id) =~= if i < ids.len() {
            ids.remove(i)
        } else {
            ids
        });
    } else if ids.len() > 0 {
        assert(ids.remove(0) =~= ids.skip(1));
    }
}

/// Take the first `id` out.
fn remove_id(ids: &mut Vec<u64>, id: u64)
    ensures
        final(ids)@ == without(old(ids)@, id),
{
    let mut i: usize = 0;
    while i < ids.len() && ids[i] != id
        invariant
            i <= ids@.len(),
            ids@ == old(ids)@,
            forall|j: int| 0 <= j < i ==> ids@[j] != id,
        decreases ids@.len() - i,
    {
        i += 1;
    }
    proof {
        without_at(ids@, id, i as int);
    }
    if i < ids.len() {
        let _ = ids.remove(i);
    }
}

impl Node {
    /// A node with nothing in it.
    pub fn new() -> (r: Node)
        ensures
            r.broadcast is None,
            r.nested@.len() == 0,
            r.consumers@ == Seq::<u64>::empty(),
            forall|depth: nat| tree_valid(r, depth),
            forall|q: Seq<Seq<char>>| #[trigger] entry_at(r, q) is None,
            forall|q: Seq<Seq<char>>| #[trigger] consumers_at(r, q) == Seq::<u64>::empty(),
    {
        let r: Node = Node { broadcast: None, nested: Vec::new(), consumers: Vec::new() };
        assert forall|q: Seq<Seq<char>>| #[trigger] entry_at(r, q) is None by {
            if q.len() > 0 {
                assert forall|j: int| !named(r, j, q[0]) by {}
            }
        }
        assert forall|q: Seq<Seq<char>>| #[trigger]
            consumers_at(r, q) == Seq::<u64>::empty() by {
            if q.len() > 0 {
                assert forall|j: int| !named(r, j, q[0]) by {}
            }
        }
        r
    }

    /// The child with the given name.
    fn find(&self, name: &String) -> (r: Option<usize>)
        requires
            names_distinct(*self),
        ensures
            match r {
                Some(i) => named(*self, i as int, name@) && child_of(*self, name@) == Some(
                    i as int,
                ),
                None => child_of(*self, name@) is None && forall|i: int| !named(*self, i, name@),
            },
    {
        let mut i: usize = 0;
        while i < self.nested.len()
            invariant
                names_distinct(*self),
                i <= self.nested@.len(),
                forall|j: int| 0 <= j < i ==> !named(*self, j, name@),
            decreases self.nested@.len() - i,
        {
            if self.nested[i].0.same_key(name) {
                proof {
                    child_is(*self, i as int, name@);
                }
                return Some(i);
            }
            i += 1;
        }
        assert forall|j: int| !named(*self, j, name@) by {}
        None
    }

    /// The child with the given name, made if it is missing.
    fn entry(&mut self, name: &String, Ghost(depth): Ghost<nat>) -> (r: usize)
        requires
            tree_valid(*old(self), depth),
            depth > 0,
        ensures
            tree_valid(*final(self), depth),
            named(*final(self), r as int, name@),
            same_tree(*final(self), *old(self)),
            final(self).broadcast == old(self).broadcast,
            final(self).consumers == old(self).consumers,
    {
        match self.find(name) {
            Some(i) => i,
            None => {
                let ghost before = *self;
                let child: Node = Node::new();
                let i: usize = self.nested.len();
                self.nested.push((name.clone(), child));
                proof {
                    let after = *self;
                    assert(after.nested@.remove(i as int) =~= before.nested@);
                    assert(names_distinct(after)) by {
                        assert forall|a: int, b: int| 0 <= a < b < after.nested@.len() implies (
                        #[trigger] after.nested@[a]).0@ != (#[trigger] after.nested@[b]).0@ by {
                            if b == i {
                                assert(!named(before, a, name@));
                            } else {
                                assert(before.nested@[a].0@ != before.nested@[b].0@);
                            }
                        }
                    }
                    assert forall|j: int| 0 <= j < after.nested@.len() implies tree_valid(
                        (#[trigger] after.nested@[j]).1,
                        (depth - 1) as nat,
                    ) by {
                        if j < i {
                            assert(after.nested@[j] == before.nested@[j]);
                        }
                    }
                    assert forall|q: Seq<Seq<char>>| #[trigger]
                        entry_at(after, q) == entry_at(before, q) by {
                        empty_child(before, after, i as int, q);
                    }
                    assert forall|q: Seq<Seq<char>>| #[trigger]
                        consumers_at(after, q) == consumers_at(before, q) by {
                        empty_child(before, after, i as int, q);
                    }
                }
                i
            },
        }
    }

    /// Publish a source at a path below this node: the part of `path` from `level` on.
    pub fn publish(
        &mut self,
        path: &Path,
        level: usize,
        source: Source,
        Ghost(depth): Ghost<nat>,
    ) -> (r: Change)
        requires
            tree_valid(*old(self), depth),
            level <= path@.len() <= level + depth,
        ensures
            tree_valid(*final(self), depth),
            ({
                let rest = path@.skip(level as int);
                let (entry, change) = publish_entry(path@, entry_at(*old(self), rest), source@);
                &&& r@ == change
                &&& forall|q: Seq<Seq<char>>| #[trigger]
                    entry_at(*final(self), q) == if q == rest {
                        entry
                    } else {
                        entry_at(*old(self), q)
                    }
                &&& forall|q: Seq<Seq<char>>| #[trigger]
                    consumers_at(*final(self), q) == consumers_at(*old(self), q)
            }),
        decreases path@.len() - level,
    {
        let ghost rest = path@.skip(level as int);
        if level == path.len() {
            let ghost before = *self;
            let r: Change = publish_at(path, &mut self.broadcast, source);
            proof {
                assert(rest =~= seq![]);
                leaf_changed(before, *self, depth);
                assert forall|q: Seq<Seq<char>>| q.len() == 0 implies q == rest by {
                    assert(q =~= rest);
                }
            }
            return r;
        }
        let name: String = path.part(level);
        let i: usize = self.entry(&name, Ghost(depth));
        let ghost middle = *self;
        let r: Change = self.nested[i].1.publish(
            path,
            level + 1,
            source,
            Ghost((depth - 1) as nat),
        );
        proof {
            let after = *self;
            assert(rest[0] == name@);
            assert(rest.skip(1) =~= path@.skip(level + 1));
            child_changed(middle, after, i as int, depth);
            lift_child(*old(self), middle, after, i as int, rest);
        }
        r
    }

    /// Whether nothing is published, nested or watched here.
    pub fn is_empty(&self) -> (r: bool)
        ensures
            r == (self.broadcast is None && self.nested@.len() == 0 && self.consumers@.len() == 0),
    {
        self.broadcast.is_none() && self.nested.len() == 0 && self.consumers.len() == 0
    }

    /// Remove a source at a path below this node: the part of `path` from `level` on. A node
    /// that this leaves empty is dropped.
    pub fn remove(
        &mut self,
        path: &Path,
        level: usize,
        channel: u64,
        Ghost(depth): Ghost<nat>,
    ) -> (r: Change)
        requires
            tree_valid(*old(self), depth),
            level <= path@.len() <= level + depth,
            entry_at(*old(self), path@.skip(level as int)) matches Some(entry)
                ==> entry.active.channel == channel || has_channel(entry.backup, channel),
        ensures
            tree_valid(*final(self), depth),
            ({
                let rest = path@.skip(level as int);
                let (entry, change) = remove_entry(path@, entry_at(*old(self), rest), channel);
                &&& r@ == change
                &&& forall|q: Seq<Seq<char>>| #[trigger]
                    entry_at(*final(self), q) == if q == rest {
                        entry
                    } else {
                        entry_at(*old(self), q)
                    }
                &&& forall|q: Seq<Seq<char>>| #[trigger]
                    consumers_at(*final(self), q) == consumers_at(*old(self), q)
            }),
        decreases path@.len() - level,
    {
        let ghost rest = path@.skip(level as int);
        if level == path.len() {
            let ghost before = *self;
            assert(rest =~= seq![]);
            let r: Change = remove_at(path, &mut self.broadcast, channel);
            proof {
                leaf_changed(before, *self, depth);
                assert forall|q: Seq<Seq<char>>| q.len() == 0 implies q == rest by {
                    assert(q =~= rest);
                }
            }
            return r;
        }
        let name: String = path.part(level);
        let i: usize = self.entry(&name, Ghost(depth));
        let ghost middle = *self;
        proof {
            assert(rest[0] == name@);
            assert(rest.skip(1) =~= path@.skip(level + 1));
            child_replaced(middle, middle, i as int, rest);
            assert(entry_at(middle, rest) == entry_at(*old(self), rest));
        }
        let r: Change = self.nested[i].1.remove(
            path,
            level + 1,
            channel,
            Ghost((depth - 1) as nat),
        );
        proof {
            let after = *self;
            child_changed(middle, after, i as int, depth);
            lift_child(*old(self), middle, after, i as int, rest);
        }
        if self.nested[i].1.is_empty() {
            let ghost after = *self;
            let _ = self.nested.remove(i);
            proof {
                assert forall|q: Seq<Seq<char>>| #[trigger]
                    entry_at(*self, q) == entry_at(after, q) by {
                    empty_child(*self, after, i as int, q);
                }
                assert forall|q: Seq<Seq<char>>| #[trigger]
                    consumers_at(*self, q) == consumers_at(after, q) by {
                    empty_child(*self, after, i as int, q);
                }
                empty_child(*self, after, i as int, seq![]);
                assert forall|j: int| 0 <= j < self.nested@.len() implies tree_valid(
                    (#[trigger] self.nested@[j]).1,
                    (depth - 1) as nat,
                ) by {
                    let k = if j < i {
                        j
                    } else {
                        j + 1
                    };
                    assert(self.nested@[j] == after.nested@[k]);
                }
            }
        }
        r
    }

    /// The active broadcast at a path below this node.
    pub fn consume_broadcast(&self, path: &Path, level: usize, Ghost(depth): Ghost<nat>) -> (r:
        Option<Source>)
        requires
            tree_valid(*self, depth),
            level <= path@.len(),
        ensures
            match entry_at(*self, path@.skip(level as int)) {
                Some(entry) => r matches Some(source) && source@ == entry.active,
                None => r is None,
            },
        decreases path@.len() - level,
    {
        let ghost rest = path@.skip(level as int);
        if level == path.len() {
            assert(rest =~= seq![]);
            return match &self.broadcast {
                Some(broadcast) => Some(broadcast.active.clone()),
                None => None,
            };
        }
        let name: String = path.part(level);
        assert(rest[0] == name@);
        match self.find(&name) {
            None => None,
            Some(i) => {
                assert(rest.skip(1) =~= path@.skip(level + 1));
                self.nested[i].1.consume_broadcast(path, level + 1, Ghost((depth - 1) as nat))
            },
        }
    }

    /// Watch a path below this node, the part of `path` from `level` on.
    pub fn consume(&mut self, path: &Path, level: usize, id: u64, Ghost(depth): Ghost<nat>)
        requires
            tree_valid(*old(self), depth),
            level <= path@.len() <= level + depth,
        ensures
            tree_valid(*final(self), depth),
            ({
                let rest = path@.skip(level as int);
                &&& forall|q: Seq<Seq<char>>| #[trigger]
                    entry_at(*final(self), q) == entry_at(*old(self), q)
                &&& forall|q: Seq<Seq<char>>| #[trigger]
                    consumers_at(*final(self), q) == if q == rest {
                        consumers_at(*old(self), q).push(id)
                    } else {
                        consumers_at(*old(self), q)
                    }
            }),
        decreases path@.len() - level,
    {
        let ghost rest = path@.skip(level as int);
        if level == path.len() {
            let ghost before = *self;
            self.consumers.push(id);
            proof {
                assert(rest =~= seq![]);
                leaf_changed(before, *self, depth);
                assert forall|q: Seq<Seq<char>>| q.len() == 0 implies q == rest by {
                    assert(q =~= rest);
                }
            }
            return;
        }
        let name: String = path.part(level);
        let i: usize = self.entry(&name, Ghost(depth));
        let ghost middle = *self;
        self.nested[i].1.consume(path, level + 1, id, Ghost((depth - 1) as nat));
        proof {
            let after = *self;
            assert(rest[0] == name@);
            assert(rest.skip(1) =~= path@.skip(level + 1));
            child_changed(middle, after, i as int, depth);
            lift_child(*old(self), middle, after, i as int, rest);
        }
    }

    /// Stop watching a path below this node.
    pub fn unconsume(&mut self, path: &Path, level: usize, id: u64, Ghost(depth): Ghost<nat>)
        requires
            tree_valid(*old(self), depth),
            level <= path@.len() <= level + depth,
        ensures
            tree_valid(*final(self), depth),
            ({
                let rest = path@.skip(level as int);
                &&& forall|q: Seq<Seq<char>>| #[trigger]
                    entry_at(*final(self), q) == entry_at(*old(self), q)
                &&& forall|q: Seq<Seq<char>>| #[trigger]
                    consumers_at(*final(self), q) == if q == rest {
                        without(consumers_at(*old(self), q), id)
                    } else {
                        consumers_at(*old(self), q)
                    }
            }),
        decreases path@.len() - level,
    {
        let ghost rest = path@.skip(level as int);
        if level == path.len() {
            let ghost before = *self;
            remove_id(&mut self.consumers, id);
            proof {
                assert(rest =~= seq![]);
                leaf_changed(before, *self, depth);
                assert forall|q: Seq<Seq<char>>| q.len() == 0 implies q == rest by {
                    assert(q =~= rest);
                }
            }
            return;
        }
        let name: String = path.part(level);
        let i: usize = self.entry(&name, Ghost(depth));
        let ghost middle = *self;
        self.nested[i].1.unconsume(path, level + 1, id, Ghost((depth - 1) as nat));
        proof {
            let after = *self;
            assert(rest[0] == name@);
            assert(rest.skip(1) =~= path@.skip(level + 1));
            child_changed(middle, after, i as int, depth);
            lift_child(*old(self), middle, after, i as int, rest);
        }
    }

    /// The cursors that watch a path, or one above it.
    pub fn watchers(&self, path: &Path, Ghost(depth): Ghost<nat>) -> (r: Vec<u64>)
        requires
            tree_valid(*self, depth),
        ensures
            r@ == watchers(*self, path@),
    {
        let mut found: Vec<u64> = Vec::new();
        self.add_watchers(path, 0, &mut found, Ghost(depth));
        proof {
            assert(path@.skip(0) =~= path@);
            assert(found@ =~= watchers(*self, path@));
        }
        found
    }

    fn add_watchers(
        &self,
        path: &Path,
        level: usize,
        found: &mut Vec<u64>,
        Ghost(depth): Ghost<nat>,
    )
        requires
            tree_valid(*self, depth),
            level <= path@.len(),
        ensures
            final(found)@ == old(found)@ + watchers(*self, path@.skip(level as int)),
        decreases path@.len() - level,
    {
        let ghost rest = path@.skip(level as int);
        let mut i: usize = 0;
        assert(found@ =~= old(found)@ + self.consumers@.take(0));
        while i < self.consumers.len()
            invariant
                i <= self.consumers@.len(),
                found@ == old(found)@ + self.consumers@.take(i as int),
            decreases self.consumers@.len() - i,
        {
            found.push(self.consumers[i]);
            i += 1;
            assert(found@ =~= old(found)@ + self.consumers@.take(i as int));
        }
        assert(self.consumers@.take(i as int) =~= self.consumers@);
        if level == path.len() {
            return;
        }
        let name: String = path.part(level);
        assert(rest[0] == name@);
        match self.find(&name) {
            None => {},
            Some(i) => {
                assert(rest.skip(1) =~= path@.skip(level + 1));
                self.nested[i].1.add_watchers(path, level + 1, found, Ghost((depth - 1) as nat));
                assert(found@ =~= old(found)@ + watchers(*self, rest));
            },
        }
    }

    /// The active broadcasts at or below this node, with their paths.
    pub fn collect(&self, Ghost(depth): Ghost<nat>) -> (r: Vec<(Path, Source)>)
        requires
            tree_valid(*self, depth),
        ensures
            forall|j: int| 0 <= j < r@.len() ==> holds(*self, #[trigger] r@[j]),
            forall|q: Seq<Seq<char>>|
                (#[trigger] entry_at(*self, q)) is Some ==> lists(
                    r@,
                    entry_at(*self, q)->Some_0,
                ),
        decreases depth,
    {
        let mut found: Vec<(Path, Source)> = Vec::new();
        match &self.broadcast {
            Some(broadcast) => {
                found.push((broadcast.path.clone(), broadcast.active.clone()));
                proof {
                    assert(entry_at(*self, seq![]) == Some(broadcast@));
                    assert(listed(found@[0], broadcast@));
                }
            },
            None => {},
        }
        let mut i: usize = 0;
        while i < self.nested.len()
            invariant
                tree_valid(*self, depth),
                i <= self.nested@.len(),
                forall|j: int| 0 <= j < found@.len() ==> holds(*self, #[trigger] found@[j]),
                entry_of(self.broadcast) is Some ==> lists(
                    found@,
                    entry_of(self.broadcast)->Some_0,
                ),
                forall|k: int, q: Seq<Seq<char>>|
                    0 <= k < i && (#[trigger] entry_at(self.nested@[k].1, q)) is Some ==> lists(
                        found@,
                        entry_at(self.nested@[k].1, q)->Some_0,
                    ),
            decreases self.nested@.len() - i,
        {
            let ghost before = found@;
            let child: &Node = &self.nested[i].1;
            assert(depth > 0);
            let mut below: Vec<(Path, Source)> = child.collect(Ghost((depth - 1) as nat));
            let ghost listed_below = below@;
            found.append(&mut below);
            proof {
                assert(found@ == before + listed_below);
                assert forall|j: int| 0 <= j < found@.len() implies holds(
                    *self,
                    #[trigger] found@[j],
                ) by {
                    if j < before.len() {
                        assert(found@[j] == before[j]);
                    } else {
                        let at = listed_below[j - before.len()];
                        assert(found@[j] == at);
                        assert(holds(*child, at));
                        let q = choose|q: Seq<Seq<char>>|
                            (#[trigger] entry_at(*child, q)) is Some && listed(
                                at,
                                entry_at(*child, q)->Some_0,
                            );
                        let name = self.nested@[i as int].0@;
                        let up = seq![name] + q;
                        assert(up[0] == name);
                        assert(named(*self, i as int, name));
                        child_is(*self, i as int, name);
                        assert(up.skip(1) =~= q);
                        assert(entry_at(*self, up) == entry_at(*child, q));
                    }
                }
                assert forall|e: Entry| lists(before, e) implies #[trigger] lists(found@, e) by {
                    let j = choose|j: int| 0 <= j < before.len() && listed(#[trigger] before[j], e);
                    assert(listed(found@[j], e));
                }
                assert forall|e: Entry| lists(listed_below, e) implies #[trigger] lists(
                    found@,
                    e,
                ) by {
                    let j = choose|j: int|
                        0 <= j < listed_below.len() && listed(#[trigger] listed_below[j], e);
                    assert(listed(found@[before.len() + j], e));
                }
                assert forall|k: int, q: Seq<Seq<char>>|
                    0 <= k < i + 1 && (#[trigger] entry_at(
                        self.nested@[k].1,
                        q,
                    )) is Some implies lists(found@, entry_at(self.nested@[k].1, q)->Some_0) by {
                    if k < i {
                        assert(lists(before, entry_at(self.nested@[k].1, q)->Some_0));
                    } else {
                        assert(lists(listed_below, entry_at(*child, q)->Some_0));
                    }
                }
            }
            i += 1;
        }
        proof {
            assert forall|q: Seq<Seq<char>>| (#[trigger] entry_at(*self, q)) is Some implies lists(
                found@,
                entry_at(*self, q)->Some_0,
            ) by {
                if q.len() > 0 {
                    let k = child_of(*self, q[0])->Some_0;
                    assert(named(*self, k, q[0]));
                    assert(entry_at(*self, q) == entry_at(self.nested@[k].1, q.skip(1)));
                }
            }
        }
        found
    }

    /// The active broadcasts at or below a path.
    pub fn collect_under(&self, path: &Path, level: usize, Ghost(depth): Ghost<nat>) -> (r: Vec<
        (Path, Source),
    >)
        requires
            tree_valid(*self, depth),
            level <= path@.len(),
        ensures
            forall|j: int|
                0 <= j < r@.len() ==> holds_under(
                    *self,
                    path@.skip(level as int),
                    #[trigger] r@[j],
                ),
            forall|q: Seq<Seq<char>>|
                (#[trigger] entry_at(*self, q)) is Some && path@.skip(level as int).is_prefix_of(q)
                    ==> lists(r@, entry_at(*self, q)->Some_0),
        decreases path@.len() - level,
    {
        let ghost rest = path@.skip(level as int);
        if level == path.len() {
            let r: Vec<(Path, Source)> = self.collect(Ghost(depth));
            proof {
                assert(rest =~= seq![]);
                assert forall|j: int| 0 <= j < r@.len() implies holds_under(
                    *self,
                    rest,
                    #[trigger] r@[j],
                ) by {
                    assert(holds(*self, r@[j]));
                    let q = choose|q: Seq<Seq<char>>|
                        (#[trigger] entry_at(*self, q)) is Some && listed(
                            r@[j],
                            entry_at(*self, q)->Some_0,
                        );
                    assert(rest.is_prefix_of(q));
                }
            }
            return r;
        }
        let name: String = path.part(level);
        assert(rest[0] == name@);
        match self.find(&name) {
            None => {
                let r: Vec<(Path, Source)> = Vec::new();
                assert forall|q: Seq<Seq<char>>|
                    (#[trigger] entry_at(*self, q)) is Some && rest.is_prefix_of(q) implies lists(
                    r@,
                    entry_at(*self, q)->Some_0,
                ) by {
                    assert(q[0] == rest[0]);
                }
                r
            },
            Some(i) => {
                let child: &Node = &self.nested[i].1;
                assert(rest.skip(1) =~= path@.skip(level + 1));
                let r: Vec<(Path, Source)> = child.collect_under(
                    path,
                    level + 1,
                    Ghost((depth - 1) as nat),
                );
                proof {
                    assert forall|j: int| 0 <= j < r@.len() implies holds_under(
                        *self,
                        rest,
                        #[trigger] r@[j],
                    ) by {
                        assert(holds_under(*child, rest.skip(1), r@[j]));
                        let q = choose|q: Seq<Seq<char>>|
                            (#[trigger] entry_at(*child, q)) is Some && rest.skip(1).is_prefix_of(q)
                                && listed(r@[j], entry_at(*child, q)->Some_0);
                        let up = seq![name@] + q;
                        assert(up[0] == name@);
                        assert(up.skip(1) =~= q);
                        assert(entry_at(*self, up) == entry_at(*child, q));
                        assert(rest =~= seq![name@] + rest.skip(1));
                        assert(rest.is_prefix_of(up));
                    }
                    assert forall|q: Seq<Seq<char>>|
                        (#[trigger] entry_at(*self, q)) is Some && rest.is_prefix_of(
                            q,
                        ) implies lists(r@, entry_at(*self, q)->Some_0) by {
                        assert(q[0] == rest[0]);
                        assert(entry_at(*self, q) == entry_at(*child, q.skip(1)));
                        assert(rest.skip(1).is_prefix_of(q.skip(1))) by {
                            assert(q.skip(1).take(rest.len() - 1) =~= q.take(
                                rest.len() as int,
                            ).skip(1));
                            assert(q.take(rest.len() as int) =~= rest);
                            assert(rest.skip(1) =~= q.skip(1).take(rest.len() - 1));
                        }
                    }
                }
                r
            },
        }
    }
}

/// Changing what a node itself holds changes nothing below it.
proof fn leaf_changed(before: Node, after: Node, depth: nat)
    requires
        tree_valid(before, depth),
        after.nested == before.nested,
    ensures
        tree_valid(after, depth),
        forall|q: Seq<Seq<char>>|
            q.len() > 0 ==> #[trigger] entry_at(after, q) == entry_at(before, q),
        forall|q: Seq<Seq<char>>|
            q.len() > 0 ==> #[trigger] consumers_at(after, q) == consumers_at(before, q),
        after.broadcast == before.broadcast ==> entry_at(after, seq![]) == entry_at(
            before,
            seq![],
        ),
        after.consumers == before.consumers ==> consumers_at(after, seq![]) == consumers_at(
            before,
            seq![],
        ),
{
    assert forall|q: Seq<Seq<char>>| q.len() > 0 implies #[trigger] entry_at(after, q)
        == entry_at(before, q) && consumers_at(after, q) == consumers_at(before, q) by {
        same_children(before, after, q[0]);
    }
    assert forall|q: Seq<Seq<char>>| q.len() > 0 implies #[trigger] consumers_at(after, q)
        == consumers_at(before, q) by {
        same_children(before, after, q[0]);
    }
}

proof fn same_children(before: Node, after: Node, name: Seq<char>)
    requires
        names_distinct(before),
        after.nested == before.nested,
    ensures
        child_of(after, name) == child_of(before, name),
{
    if exists|i: int| named(before, i, name) {
        let i = choose|i: int| named(before, i, name);
        assert(named(before, i, name) && named(after, i, name));
        child_is(before, i, name);
        child_is(after, i, name);
    } else {
        assert forall|i: int| !named(after, i, name) by {
            assert(!named(before, i, name));
        }
    }
}

/// A change at one path below a child is a change at one path below the node.
proof fn lift_child(start: Node, before: Node, after: Node, i: int, rest: Seq<Seq<char>>)
    requires
        same_tree(before, start),
        names_distinct(before),
        0 <= i < before.nested@.len(),
        rest.len() > 0,
        rest[0] == before.nested@[i].0@,
        after.broadcast == before.broadcast,
        after.consumers == before.consumers,
        after.nested@.len() == before.nested@.len(),
        after.nested@[i].0@ == before.nested@[i].0@,
        forall|j: int|
            0 <= j < before.nested@.len() && j != i ==> #[trigger] after.nested@[j]
                == before.nested@[j],
    ensures
        entry_at(start, rest) == entry_at(before.nested@[i].1, rest.skip(1)),
        entry_at(after, rest) == entry_at(after.nested@[i].1, rest.skip(1)),
        consumers_at(start, rest) == consumers_at(before.nested@[i].1, rest.skip(1)),
        consumers_at(after, rest) == consumers_at(after.nested@[i].1, rest.skip(1)),
        (forall|q: Seq<Seq<char>>|
            q != rest.skip(1) ==> #[trigger] entry_at(after.nested@[i].1, q) == entry_at(
                before.nested@[i].1,
                q,
            )) ==> forall|q: Seq<Seq<char>>|
            q != rest ==> #[trigger] entry_at(after, q) == entry_at(start, q),
        (forall|q: Seq<Seq<char>>|
            q != rest.skip(1) ==> #[trigger] consumers_at(after.nested@[i].1, q) == consumers_at(
                before.nested@[i].1,
                q,
            )) ==> forall|q: Seq<Seq<char>>|
            q != rest ==> #[trigger] consumers_at(after, q) == consumers_at(start, q),
{
    child_replaced(before, after, i, rest);
    assert(entry_at(before, rest) == entry_at(start, rest));
    assert(consumers_at(before, rest) == consumers_at(start, rest));
    if forall|q: Seq<Seq<char>>|
        q != rest.skip(1) ==> #[trigger] entry_at(after.nested@[i].1, q) == entry_at(
            before.nested@[i].1,
            q,
        ) {
        assert forall|q: Seq<Seq<char>>| q != rest implies #[trigger] entry_at(after, q)
            == entry_at(start, q) by {
            child_replaced(before, after, i, q);
            if q.len() > 0 && q[0] == rest[0] {
                assert(q =~= seq![rest[0]] + q.skip(1));
                assert(rest =~= seq![rest[0]] + rest.skip(1));
            }
            assert(entry_at(before, q) == entry_at(start, q));
        }
    }
    if forall|q: Seq<Seq<char>>|
        q != rest.skip(1) ==> #[trigger] consumers_at(after.nested@[i].1, q) == consumers_at(
            before.nested@[i].1,
            q,
        ) {
        assert forall|q: Seq<Seq<char>>| q != rest implies #[trigger] consumers_at(after, q)
            == consumers_at(start, q) by {
            child_replaced(before, after, i, q);
            if q.len() > 0 && q[0] == rest[0] {
                assert(q =~= seq![rest[0]] + q.skip(1));
                assert(rest =~= seq![rest[0]] + rest.skip(1));
            }
            assert(consumers_at(before, q) == consumers_at(start, q));
        }
    }
}

/// A tree stays valid when a child is replaced by a valid one.
proof fn child_changed(before: Node, after: Node, i: int, depth: nat)
    requires
        tree_valid(before, depth),
        depth > 0,
        0 <= i < before.nested@.len(),
        after.broadcast == before.broadcast,
        after.consumers == before.consumers,
        after.nested@.len() == before.nested@.len(),
        after.nested@[i].0@ == before.nested@[i].0@,
        tree_valid(after.nested@[i].1, (depth - 1) as nat),
        forall|j: int|
            0 <= j < before.nested@.len() && j != i ==> #[trigger] after.nested@[j]
                == before.nested@[j],
    ensures
        tree_valid(after, depth),
{
    child_replaced(before, after, i, seq![]);
    assert forall|j: int| 0 <= j < after.nested@.len() implies tree_valid(
        (#[trigger] after.nested@[j]).1,
        (depth - 1) as nat,
    ) by {
        if j != i {
            assert(after.nested@[j] == before.nested@[j]);
        }
    }
}

/// Whether the active route is the best one: no backup sorts before it.
pub open spec fn best_is_active(path: Seq<Seq<char>>, entry: Entry) -> bool {
    forall|i: int|
        0 <= i < entry.backup.len() ==> !key_of(path, (#[trigger] entry.backup[i]).hops).less(
            key_of(path, entry.active.hops),
        )
}

proof fn best_of_is_best(path: Seq<Seq<char>>, sources: Seq<SourceModel>, n: nat)
    requires
        0 < n <= sources.len(),
    ensures
        0 <= best_of(path, sources, n) < n,
        forall|i: int|
            0 <= i < n ==> !key_of(path, (#[trigger] sources[i]).hops).less(
                key_of(path, sources[best_of(path, sources, n)].hops),
            ),
    decreases n,
{
    if n > 1 {
        best_of_is_best(path, sources, (n - 1) as nat);
    }
}

/// Publishing and removing keep the best route active.
pub proof fn best_stays_active(
    path: Seq<Seq<char>>,
    entry: Option<Entry>,
    source: SourceModel,
    channel: u64,
)
    requires
        entry matches Some(entry) ==> best_is_active(path, entry),
    ensures
        publish_entry(path, entry, source).0 matches Some(after) ==> best_is_active(path, after),
        entry matches Some(entry) ==> entry.active.channel == channel || has_channel(
            entry.backup,
            channel,
        ) ==> (remove_entry(path, Some(entry), channel).0 matches Some(after) ==> best_is_active(
            path,
            after,
        )),
{
    match entry {
        None => {},
        Some(existing) => {
            let (after, _) = publish_entry(path, entry, source);
            let grown = after->Some_0;
            assert forall|i: int| 0 <= i < grown.backup.len() implies !key_of(
                path,
                (#[trigger] grown.backup[i]).hops,
            ).less(key_of(path, grown.active.hops)) by {
                if i < existing.backup.len() {
                    assert(!key_of(path, existing.backup[i].hops).less(
                        key_of(path, existing.active.hops),
                    ));
                }
            }
            if existing.backup.len() > 0 {
                best_of_is_best(path, existing.backup, existing.backup.len());
            }
            if let Some(left) = remove_entry(path, entry, channel).0 {
                place_in_bounds(existing.backup, channel);
                let gone = if has_channel(existing.backup, channel) {
                    place_of(existing.backup, channel)
                } else {
                    best_of(path, existing.backup, existing.backup.len())
                };
                assert forall|i: int| 0 <= i < left.backup.len() implies !key_of(
                    path,
                    (#[trigger] left.backup[i]).hops,
                ).less(key_of(path, left.active.hops)) by {
                    let k = if i < gone {
                        i
                    } else {
                        i + 1
                    };
                    assert(left.backup[i] == existing.backup[k]);
                }
            }
        },
    }
}

proof fn place_in_bounds(sources: Seq<SourceModel>, channel: u64)
    ensures
        0 <= place_of(sources, channel) <= sources.len(),
        has_channel(sources, channel) ==> place_of(sources, channel) < sources.len(),
    decreases sources.len(),
{
    if sources.len() > 0 && sources[0].channel != channel {
        let rest = sources.skip(1);
        place_in_bounds(rest, channel);
        if has_channel(sources, channel) {
            let i = choose|i: int|
                0 <= i < sources.len() && (#[trigger] sources[i]).channel == channel;
            assert(rest[i - 1].channel == channel);
        }
    }
}

/// The order in which two different routes arrive does not matter to which is active, as
/// long as their keys differ.
pub proof fn arrival_order_is_irrelevant(
    path: Seq<Seq<char>>,
    a: SourceModel,
    b: SourceModel,
)
    requires
        a.channel != b.channel,
        key_of(path, a.hops) != key_of(path, b.hops),
    ensures
        ({
            let ab = publish_entry(path, publish_entry(path, None, a).0, b).0;
            let ba = publish_entry(path, publish_entry(path, None, b).0, a).0;
            &&& ab is Some && ba is Some
            &&& ab->Some_0.active == ba->Some_0.active
        }),
{
}

/// Removing what was just published gives back what was there: nothing, or the route that
/// was active, if no backup is as good as it.
pub proof fn remove_undoes_publish(path: Seq<Seq<char>>, entry: Option<Entry>, source: SourceModel)
    requires
        entry matches Some(existing) ==> {
            &&& existing.active.channel != source.channel
            &&& !has_channel(existing.backup, source.channel)
            &&& forall|i: int|
                0 <= i < existing.backup.len() ==> key_of(path, existing.active.hops).less(
                    key_of(path, (#[trigger] existing.backup[i]).hops),
                )
        },
    ensures
        ({
            let after = publish_entry(path, entry, source).0;
            let back = remove_entry(path, after, source.channel).0;
            match entry {
                None => back is None,
                Some(existing) => back == Some(existing),
            }
        }),
{
    if let Some(existing) = entry {
        let after = publish_entry(path, entry, source).0->Some_0;
        let n = existing.backup.len() as int;
        if key_of(path, source.hops).less(key_of(path, existing.active.hops)) {
            assert(!has_channel(after.backup, source.channel)) by {
                if has_channel(after.backup, source.channel) {
                    let i = choose|i: int|
                        0 <= i < after.backup.len() && (#[trigger] after.backup[i]).channel
                            == source.channel;
                    if i < n {
                        assert(existing.backup[i].channel == source.channel);
                    }
                }
            }
            best_of_is_best(path, after.backup, after.backup.len());
            let best = best_of(path, after.backup, after.backup.len());
            assert(after.backup[n] == existing.active);
            if best < n {
                assert(after.backup[best] == existing.backup[best]);
            }
            assert(after.backup.remove(n) =~= existing.backup);
        } else {
            assert(after.backup[n].channel == source.channel);
            assert forall|j: int| 0 <= j < n implies (#[trigger] after.backup[j]).channel
                != source.channel by {
                assert(existing.backup[j] == after.backup[j]);
            }
            place_is(after.backup, source.channel, n);
            assert(after.backup.remove(n) =~= existing.backup);
        }
    }
}

/// Whether a source is among the routes at a path.
pub open spec fn routed(entry: Option<Entry>, source: SourceModel) -> bool {
    entry matches Some(entry) && (entry.active == source || entry.backup.contains(source))
}

/// Whether no two routes at a path are the same broadcast.
pub open spec fn channels_distinct(entry: Option<Entry>) -> bool {
    entry matches Some(entry) ==> {
        &&& !has_channel(entry.backup, entry.active.channel)
        &&& forall|i: int, j: int|
            0 <= i < j < entry.backup.len() ==> (#[trigger] entry.backup[i]).channel != (
            #[trigger] entry.backup[j]).channel
    }
}

/// Whether what is told of a change is what there was to see: that a broadcast came, that
/// another one took its place, that it went, or nothing if the one in use is the same.
pub open spec fn truly_told(before: Option<Entry>, after: Option<Entry>, change: ChangeModel) -> bool {
    match (before, after) {
        (None, None) => change is Unseen,
        (None, Some(new)) => change == ChangeModel::Announce(new.active),
        (Some(_), None) => change is Unannounce,
        (Some(old), Some(new)) => if old.active == new.active {
            change is Unseen
        } else {
            change == ChangeModel::Restart(new.active)
        },
    }
}

/// Publishing a broadcast adds it to the routes and takes none away, unless it is there already,
/// and tells what there is to see of it. It is in use at once if there was no other or if its
/// key sorts before that of the one in use.
pub proof fn publishing_adds_the_route(
    path: Seq<Seq<char>>,
    entry: Option<Entry>,
    source: SourceModel,
    other: SourceModel,
)
    requires
        channels_distinct(entry),
    ensures
        ({
            let (after, change) = publish_entry(path, entry, source);
            let known = entry matches Some(existing) && (existing.active.channel == source.channel
                || has_channel(existing.backup, source.channel));
            &&& channels_distinct(after)
            &&& truly_told(entry, after, change)
            &&& known ==> after == entry
            &&& !known ==> routed(after, source)
            &&& !known && other != source ==> routed(after, other) == routed(entry, other)
            &&& after matches Some(after) && (entry matches Some(existing) ==> after.path
                == existing.path) && (entry is None ==> after.path == path)
            &&& !known ==> (after->Some_0.active == source <==> entry is None || key_of(
                path,
                source.hops,
            ).less(key_of(path, entry->Some_0.active.hops)))
        }),
{
    let (after, change) = publish_entry(path, entry, source);
    if let Some(existing) = entry {
        let grown = after->Some_0;
        let n = existing.backup.len() as int;
        if !(existing.active.channel == source.channel || has_channel(
            existing.backup,
            source.channel,
        )) {
            let added = if grown.active == source {
                existing.active
            } else {
                source
            };
            assert(grown.backup == existing.backup.push(added));
            assert(grown.backup[n] == added);
            assert forall|i: int| 0 <= i < n implies #[trigger] grown.backup[i]
                == existing.backup[i] by {}
            assert forall|i: int| 0 <= i < n implies (#[trigger] existing.backup[i]).channel
                != source.channel && existing.backup[i].channel != existing.active.channel by {}
            if existing.backup.contains(other) {
                let i = existing.backup.index_of(other);
                assert(grown.backup[i] == other);
            }
            if grown.backup.contains(other) {
                let i = grown.backup.index_of(other);
                if i < n {
                    assert(existing.backup[i] == other);
                }
            }
            assert(grown.backup.contains(added));
        }
    }
}

/// Removing a broadcast takes it out of the routes and nothing else, and tells what there is to
/// see of it. One that was not in use goes unseen; after the one in use went, the best of the
/// others is.
pub proof fn removing_takes_one_route(
    path: Seq<Seq<char>>,
    entry: Entry,
    channel: u64,
    other: SourceModel,
)
    requires
        channels_distinct(Some(entry)),
        entry.active.channel == channel || has_channel(entry.backup, channel),
    ensures
        ({
            let (after, change) = remove_entry(path, Some(entry), channel);
            &&& channels_distinct(after)
            &&& truly_told(Some(entry), after, change)
            &&& routed(after, other) <==> routed(Some(entry), other) && other.channel != channel
            &&& entry.active.channel != channel ==> (after matches Some(left) && left.active
                == entry.active)
            &&& after matches Some(left) ==> left.path == entry.path
            &&& after is None <==> entry.active.channel == channel && entry.backup.len() == 0
        }),
        remove_entry(path, None, channel) == (None::<Entry>, ChangeModel::Unseen),
{
    let (after, change) = remove_entry(path, Some(entry), channel);
    let backup = entry.backup;
    place_in_bounds(backup, channel);
    if backup.len() > 0 {
        best_of_is_best(path, backup, backup.len());
    }
    if after is Some {
        let left = after->Some_0;
        let gone = if has_channel(backup, channel) {
            place_of(backup, channel)
        } else {
            best_of(path, backup, backup.len())
        };
        if has_channel(backup, channel) {
            place_holds(backup, channel);
        }
        assert(left.backup == backup.remove(gone));
        assert forall|i: int| 0 <= i < left.backup.len() implies #[trigger] left.backup[i]
            == backup[if i < gone {
            i
        } else {
            i + 1
        }] by {}
        assert forall|i: int, j: int| 0 <= i < j < left.backup.len() implies (
        #[trigger] left.backup[i]).channel != (#[trigger] left.backup[j]).channel by {
            let a = if i < gone {
                i
            } else {
                i + 1
            };
            let b = if j < gone {
                j
            } else {
                j + 1
            };
            assert(backup[a].channel != backup[b].channel);
        }
        assert(!has_channel(left.backup, left.active.channel)) by {
            if has_channel(left.backup, left.active.channel) {
                let i = choose|i: int|
                    0 <= i < left.backup.len() && (#[trigger] left.backup[i]).channel
                        == left.active.channel;
                let a = if i < gone {
                    i
                } else {
                    i + 1
                };
                assert(backup[a].channel == left.active.channel);
                if !has_channel(backup, channel) {
                    assert(left.active == backup[gone]);
                    if a < gone {
                        assert(backup[a].channel != backup[gone].channel);
                    } else {
                        assert(backup[gone].channel != backup[a].channel);
                    }
                }
            }
        }
        if backup.contains(other) {
            let i = backup.index_of(other);
            if i < gone {
                assert(left.backup[i] == other);
            } else if i > gone {
                assert(left.backup[i - 1] == other);
            }
            assert(backup[i].channel == other.channel);
        }
        if left.backup.contains(other) {
            let i = left.backup.index_of(other);
            let a = if i < gone {
                i
            } else {
                i + 1
            };
            assert(backup[a] == other);
            if has_channel(backup, channel) {
                if a < gone {
                    assert(backup[a].channel != backup[gone].channel);
                } else {
                    assert(backup[gone].channel != backup[a].channel);
                }
            }
        }
    } else {
        if backup.contains(other) {
            let i = backup.index_of(other);
            assert(backup[i] == other);
        }
    }
}

proof fn place_holds(sources: Seq<SourceModel>, channel: u64)
    requires
        has_channel(sources, channel),
    ensures
        0 <= place_of(sources, channel) < sources.len(),
        sources[place_of(sources, channel)].channel == channel,
    decreases sources.len(),
{
    if sources[0].channel != channel {
        let rest = sources.skip(1);
        let i = choose|i: int| 0 <= i < sources.len() && (#[trigger] sources[i]).channel == channel;
        assert(rest[i - 1].channel == channel);
        place_holds(rest, channel);
    }
}

} // verus!
