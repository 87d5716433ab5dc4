//! What an origin knows: the broadcasts published to it, and the cursors that watch them
//! come and go.

use vstd::prelude::*;

use crate::keyed::KeyMap;
use crate::model::announce::{
    after_change, coalescing_converges, delivered, delivery_toggles, exact_taken, fits, left_over,
    path_before, pending_at, settled, with_pending, Announced, AnnouncedModel, Pending, Update,
    Updates,
};
use crate::model::scope::{
    apart, covers, minimal, minimal_apart, minimal_covers_the_same, minimal_from, minimal_prefixes,
    path_models, Scope,
};
use crate::model::tree::{
    channels_distinct, consumers_at, entry_at, has_channel, holds_under, listed, lists,
    publish_entry, publishing_adds_the_route, remove_entry, removing_takes_one_route, tree_valid,
    truly_told, watchers, without, Change, ChangeModel, Entry, Node, Source, SourceModel,
};
use crate::path::Path;

verus! {

/// Receives announce / unannounce events for a subtree.
pub struct Cursor {
    /// The prefix that is automatically stripped from emitted paths.
    pub root: Path,
    /// The paths below which changes are told.
    pub watched: Vec<Path>,
    /// Pending updates queued for this cursor. Coalesced so a slow consumer can't accumulate
    /// redundant announce/unannounce pairs.
    pub pending: Pending,
}

/// What a [`Cursor`] stands for.
pub struct CursorModel {
    pub root: Seq<Seq<char>>,
    pub watched: Seq<Seq<Seq<char>>>,
    pub pending: Updates,
}

impl View for Cursor {
    type V = CursorModel;

    open spec fn view(&self) -> CursorModel {
        CursorModel {
            root: self.root@,
            watched: path_models(self.watched@),
            pending: self.pending@,
        }
    }
}

/// A cursor once it was told of a change.
pub open spec fn told(cursor: CursorModel, path: Seq<Seq<char>>, change: ChangeModel) -> CursorModel {
    let relative = path.skip(cursor.root.len() as int);
    CursorModel {
        pending: with_pending(
            cursor.pending,
            relative,
            after_change(pending_at(cursor.pending, relative), change),
        ),
        ..cursor
    }
}

/// The cursors by their numbers.
pub type Cursors = Map<u64, CursorModel>;

/// The cursors once all that watch the path were told of a change there.
pub open spec fn all_told(cursors: Cursors, path: Seq<Seq<char>>, change: ChangeModel) -> Cursors {
    cursors.map_values(
        |cursor: CursorModel|
            if covers(cursor.watched, path) {
                told(cursor, path, change)
            } else {
                cursor
            },
    )
}

/// The published broadcasts by path.
pub type Entries = Map<Seq<Seq<char>>, Entry>;

/// The routes published at a path.
pub open spec fn routes_at(entries: Entries, path: Seq<Seq<char>>) -> Option<Entry> {
    if entries.contains_key(path) {
        Some(entries[path])
    } else {
        None
    }
}

/// The published broadcasts with the routes at one path replaced.
pub open spec fn with_routes(entries: Entries, path: Seq<Seq<char>>, routes: Option<Entry>) -> Entries {
    match routes {
        Some(entry) => entries.insert(path, entry),
        None => entries.remove(path),
    }
}

/// What a new cursor starts with: an announcement for everything that is active within its
/// scope.
pub open spec fn initial_updates(
    entries: Entries,
    root: Seq<Seq<char>>,
    scope: Seq<Seq<Seq<char>>>,
) -> Updates {
    Map::new(
        |relative: Seq<Seq<char>>|
            covers(scope, relative) && entries.contains_key(root + relative),
        |relative: Seq<Seq<char>>| Update::Announce(entries[root + relative].active),
    )
}

/// The prefixes below a root, as absolute paths.
pub open spec fn absolute_all(root: Seq<Seq<char>>, scope: Seq<Seq<Seq<char>>>) -> Seq<
    Seq<Seq<char>>,
> {
    scope.map_values(|prefix: Seq<Seq<char>>| root + prefix)
}

/// The origin's tree and cursors.
pub struct Registry {
    pub node: Node,
    pub cursors: KeyMap<u64, Cursor>,
    pub next_cursor: u64,
    pub depth: Ghost<nat>,
}

impl Registry {
    /// The published broadcasts by path.
    pub open spec fn entries(&self) -> Entries {
        Map::new(
            |path: Seq<Seq<char>>| entry_at(self.node, path) is Some,
            |path: Seq<Seq<char>>| entry_at(self.node, path)->Some_0,
        )
    }

    /// The cursors by their numbers.
    pub open spec fn watching(&self) -> Cursors {
        self.cursors@.map_values(|cursor: Cursor| cursor@)
    }

    /// What every registry satisfies: a broadcast is filed under its path, and exactly the
    /// live cursors are registered, each where it watches.
    pub open spec fn well_formed(&self) -> bool {
        &&& tree_valid(self.node, self.depth@)
        &&& forall|path: Seq<Seq<char>>|
            (#[trigger] entry_at(self.node, path)) is Some ==> entry_at(
                self.node,
                path,
            )->Some_0.path == path
        &&& forall|path: Seq<Seq<char>>|
            (#[trigger] consumers_at(self.node, path)).no_duplicates()
        &&& forall|path: Seq<Seq<char>>, id: u64|
            #[trigger] consumers_at(self.node, path).contains(id) <==> registered(
                self.watching(),
                path,
                id,
            )
        &&& forall|id: u64| #[trigger] self.watching().contains_key(id) ==> id < self.next_cursor
        &&& forall|id: u64| #[trigger]
            self.watching().contains_key(id) ==> cursor_valid(self.watching()[id])
    }
}

/// Whether cursor `id` watches exactly this path.
pub open spec fn registered(cursors: Cursors, path: Seq<Seq<char>>, id: u64) -> bool {
    cursors.contains_key(id) && cursors[id].watched.contains(path)
}

/// Whether a cursor watches only below its root, and no path twice.
pub open spec fn cursor_valid(cursor: CursorModel) -> bool {
    &&& apart(cursor.watched)
    &&& forall|i: int|
        0 <= i < cursor.watched.len() ==> cursor.root.is_prefix_of(#[trigger] cursor.watched[i])
}

/// A deeper bound on the depth of a tree holds as well.
proof fn deeper(node: Node, depth: nat, more: nat)
    requires
        tree_valid(node, depth),
        depth <= more,
    ensures
        tree_valid(node, more),
    decreases depth,
{
    if depth > 0 {
        assert forall|i: int| 0 <= i < node.nested@.len() implies tree_valid(
            (#[trigger] node.nested@[i]).1,
            (more - 1) as nat,
        ) by {
            deeper(node.nested@[i].1, (depth - 1) as nat, (more - 1) as nat);
        }
    }
}

/// A cursor watches a path if it is registered there or above.
proof fn watchers_are(node: Node, path: Seq<Seq<char>>, id: u64)
    ensures
        watchers(node, path).contains(id) <==> exists|k: int|
            0 <= k <= path.len() && #[trigger] consumers_at(node, path.take(k)).contains(id),
    decreases path.len(),
{
    assert(path.take(0) =~= seq![]);
    assert(consumers_at(node, path.take(0)) == node.consumers@);
    if path.len() == 0 {
        if watchers(node, path).contains(id) {
            assert(consumers_at(node, path.take(0)).contains(id));
        }
    } else {
        match crate::model::tree::child_of(node, path[0]) {
            None => {
                assert forall|k: int| 0 < k <= path.len() implies !(#[trigger] consumers_at(
                    node,
                    path.take(k),
                )).contains(id) by {
                    assert(path.take(k)[0] == path[0]);
                }
                if watchers(node, path).contains(id) {
                    assert(consumers_at(node, path.take(0)).contains(id));
                }
            },
            Some(i) => {
                let child = node.nested@[i].1;
                let rest = path.skip(1);
                watchers_are(child, rest, id);
                assert forall|k: int| 0 < k <= path.len() implies #[trigger] consumers_at(
                    node,
                    path.take(k),
                ) == consumers_at(child, rest.take(k - 1)) by {
                    assert(path.take(k)[0] == path[0]);
                    assert(path.take(k).skip(1) =~= rest.take(k - 1));
                }
                let below = watchers(child, rest);
                let all = node.consumers@ + below;
                if all.contains(id) {
                    let j = all.index_of(id);
                    if j < node.consumers@.len() {
                        assert(node.consumers@[j] == id);
                        assert(consumers_at(node, path.take(0)).contains(id));
                    } else {
                        assert(below[j - node.consumers@.len()] == id);
                        let k = choose|k: int|
                            0 <= k <= rest.len() && #[trigger] consumers_at(
                                child,
                                rest.take(k),
                            ).contains(id);
                        assert(consumers_at(node, path.take(k + 1)).contains(id));
                    }
                }
                if exists|k: int|
                    0 <= k <= path.len() && #[trigger] consumers_at(node, path.take(k)).contains(
                        id,
                    ) {
                    let k = choose|k: int|
                        0 <= k <= path.len() && #[trigger] consumers_at(
                            node,
                            path.take(k),
                        ).contains(id);
                    if k == 0 {
                        let j = node.consumers@.index_of(id);
                        assert(all[j] == id);
                    } else {
                        assert(consumers_at(child, rest.take(k - 1)).contains(id));
                        let j = below.index_of(id);
                        assert(all[node.consumers@.len() + j] == id);
                    }
                }
            },
        }
    }
}

/// A cursor that is registered once along a path is listed once.
proof fn watchers_once(node: Node, path: Seq<Seq<char>>)
    requires
        forall|k: int|
            0 <= k <= path.len() ==> (#[trigger] consumers_at(
                node,
                path.take(k),
            )).no_duplicates(),
        forall|k: int, l: int, id: u64|
            0 <= k < l <= path.len() && #[trigger] consumers_at(node, path.take(k)).contains(id)
                ==> !#[trigger] consumers_at(node, path.take(l)).contains(id),
    ensures
        watchers(node, path).no_duplicates(),
    decreases path.len(),
{
    assert(path.take(0) =~= seq![]);
    assert(consumers_at(node, path.take(0)) == node.consumers@);
    if path.len() > 0 {
        match crate::model::tree::child_of(node, path[0]) {
            None => {},
            Some(i) => {
                let child = node.nested@[i].1;
                let rest = path.skip(1);
                assert forall|k: int| 0 <= k <= rest.len() implies #[trigger] consumers_at(
                    child,
                    rest.take(k),
                ) == consumers_at(node, path.take(k + 1)) by {
                    assert(path.take(k + 1)[0] == path[0]);
                    assert(path.take(k + 1).skip(1) =~= rest.take(k));
                }
                watchers_once(child, rest);
                let below = watchers(child, rest);
                let all = node.consumers@ + below;
                assert forall|a: int, b: int|
                    0 <= a < all.len() && 0 <= b < all.len() && a != b implies all[a]
                    != all[b] by {
                    let n = node.consumers@.len() as int;
                    if a < n && b < n {
                        assert(node.consumers@[a] != node.consumers@[b]);
                    } else if a >= n && b >= n {
                        assert(below[a - n] != below[b - n]);
                    } else {
                        let (x, y) = if a < n {
                            (a, b)
                        } else {
                            (b, a)
                        };
                        if all[x] == all[y] {
                            let id = all[x];
                            assert(node.consumers@[x] == id);
                            assert(consumers_at(node, path.take(0)).contains(id));
                            assert(below[y - n] == id);
                            watchers_are(child, rest, id);
                            let k = choose|k: int|
                                0 <= k <= rest.len() && #[trigger] consumers_at(
                                    child,
                                    rest.take(k),
                                ).contains(id);
                            assert(consumers_at(node, path.take(k + 1)).contains(id));
                        }
                    }
                }
            },
        }
    }
}

impl Registry {
    /// Of the prefixes of a path, a cursor watches at most one, and it does so iff the path
    /// lies below what it watches.
    proof fn watchers_match(self, path: Seq<Seq<char>>)
        requires
            self.well_formed(),
        ensures
            watchers(self.node, path).no_duplicates(),
            forall|id: u64| #[trigger]
                watchers(self.node, path).contains(id) <==> self.watching().contains_key(id)
                    && covers(self.watching()[id].watched, path),
    {
        let cursors = self.watching();
        assert forall|k: int, l: int, id: u64|
            0 <= k < l <= path.len() && #[trigger] consumers_at(self.node, path.take(k)).contains(
                id,
            ) implies !#[trigger] consumers_at(self.node, path.take(l)).contains(id) by {
            if consumers_at(self.node, path.take(l)).contains(id) {
                assert(registered(cursors, path.take(k), id));
                assert(registered(cursors, path.take(l), id));
                assert(cursor_valid(cursors[id]));
                let watched = cursors[id].watched;
                let a = watched.index_of(path.take(k));
                let b = watched.index_of(path.take(l));
                assert(watched[a] == path.take(k));
                assert(watched[b] == path.take(l));
                assert(path.take(k) =~= path.take(l).take(k));
                assert(watched[a].is_prefix_of(watched[b]));
            }
        }
        watchers_once(self.node, path);
        assert forall|id: u64| #[trigger]
            watchers(self.node, path).contains(id) <==> cursors.contains_key(id) && covers(
                cursors[id].watched,
                path,
            ) by {
            watchers_are(self.node, path, id);
            if watchers(self.node, path).contains(id) {
                let k = choose|k: int|
                    0 <= k <= path.len() && #[trigger] consumers_at(
                        self.node,
                        path.take(k),
                    ).contains(id);
                assert(registered(cursors, path.take(k), id));
                let a = cursors[id].watched.index_of(path.take(k));
                assert(cursors[id].watched[a].is_prefix_of(path));
            }
            if cursors.contains_key(id) && covers(cursors[id].watched, path) {
                let watched = cursors[id].watched;
                let a = choose|a: int|
                    0 <= a < watched.len() && (#[trigger] watched[a]).is_prefix_of(path);
                let k = watched[a].len() as int;
                assert(watched[a] =~= path.take(k));
                assert(registered(cursors, path.take(k), id));
                assert(consumers_at(self.node, path.take(k)).contains(id));
            }
        }
    }

    /// An origin that nothing was published to.
    pub fn new() -> (r: Registry)
        ensures
            r.well_formed(),
            r.entries() == Map::<Seq<Seq<char>>, Entry>::empty(),
            r.watching() == Map::<u64, CursorModel>::empty(),
            r.next_cursor == 0,
    {
        let r: Registry = Registry {
            node: Node::new(),
            cursors: KeyMap::new(),
            next_cursor: 0,
            depth: Ghost(0),
        };
        assert(r.entries() =~= Map::<Seq<Seq<char>>, Entry>::empty());
        assert(r.watching() =~= Map::<u64, CursorModel>::empty());
        r
    }

    /// Tell all cursors in the list of a change.
    fn notify(&mut self, ids: &Vec<u64>, path: &Path, change: &Change)
        requires
            ids@.no_duplicates(),
            forall|i: int|
                0 <= i < ids@.len() ==> old(self).watching().contains_key(#[trigger] ids@[i])
                    && old(self).watching()[ids@[i]].root.is_prefix_of(path@),
        ensures
            final(self).node == old(self).node,
            final(self).next_cursor == old(self).next_cursor,
            final(self).depth == old(self).depth,
            final(self).watching() == old(self).watching().map_entries(
                |id: u64, cursor: CursorModel|
                    if ids@.contains(id) {
                        told(cursor, path@, change@)
                    } else {
                        cursor
                    },
            ),
    {
        let ghost start = self.watching();
        let mut i: usize = 0;
        assert(self.watching() =~= start.map_entries(
            |id: u64, cursor: CursorModel|
                if ids@.take(0).contains(id) {
                    told(cursor, path@, change@)
                } else {
                    cursor
                },
        ));
        while i < ids.len()
            invariant
                i <= ids@.len(),
                ids@.no_duplicates(),
                start == old(self).watching(),
                forall|j: int|
                    0 <= j < ids@.len() ==> start.contains_key(#[trigger] ids@[j])
                        && start[ids@[j]].root.is_prefix_of(path@),
                self.node == old(self).node,
                self.next_cursor == old(self).next_cursor,
                self.depth == old(self).depth,
                self.watching() == start.map_entries(
                    |id: u64, cursor: CursorModel|
                        if ids@.take(i as int).contains(id) {
                            told(cursor, path@, change@)
                        } else {
                            cursor
                        },
                ),
            decreases ids@.len() - i,
        {
            let id: u64 = ids[i];
            let ghost before = self.watching();
            proof {
                assert(!ids@.take(i as int).contains(id)) by {
                    if ids@.take(i as int).contains(id) {
                        let j = ids@.take(i as int).index_of(id);
                        assert(ids@[j] == ids@[i as int]);
                    }
                }
                assert(before.contains_key(id));
                assert(before[id] == start[id]);
            }
            match self.cursors.remove(&id) {
                None => {},
                Some(mut cursor) => {
                    assert(cursor@ == start[id]);
                    match path.strip_prefix(&cursor.root) {
                        None => {},
                        Some(relative) => {
                            cursor.pending.apply(relative, change);
                        },
                    }
                    assert(cursor@ == told(start[id], path@, change@));
                    let _ = self.cursors.insert(id, cursor);
                    assert(self.watching() =~= before.insert(id, told(start[id], path@, change@)));
                },
            }
            proof {
                assert(ids@.take(i + 1) =~= ids@.take(i as int).push(id));
                assert forall|other: u64| #[trigger]
                    ids@.take(i + 1).contains(other) == (ids@.take(i as int).contains(other)
                        || other == id) by {
                    let now = ids@.take(i + 1);
                    let was = ids@.take(i as int);
                    if was.contains(other) {
                        assert(now[was.index_of(other)] == other);
                    }
                    if other == id {
                        assert(now[i as int] == other);
                    }
                    if now.contains(other) && other != id {
                        assert(was[now.index_of(other)] == other);
                    }
                }
                assert(self.watching() =~= start.map_entries(
                    |id: u64, cursor: CursorModel|
                        if ids@.take(i + 1).contains(id) {
                            told(cursor, path@, change@)
                        } else {
                            cursor
                        },
                ));
            }
            i += 1;
        }
        assert(ids@.take(i as int) =~= ids@);
    }

    /// Telling the cursors of a change keeps the registry well-formed, and tells each cursor
    /// whose scope holds the path.
    proof fn told_is_valid(before: Registry, after: Registry, path: Seq<Seq<char>>, change: ChangeModel)
        requires
            before.well_formed(),
            after.watching() == before.watching().map_entries(
                |id: u64, cursor: CursorModel|
                    if watchers(before.node, path).contains(id) {
                        told(cursor, path, change)
                    } else {
                        cursor
                    },
            ),
            after.next_cursor == before.next_cursor,
            forall|q: Seq<Seq<char>>| #[trigger]
                consumers_at(after.node, q) == consumers_at(before.node, q),
            tree_valid(after.node, after.depth@),
            forall|q: Seq<Seq<char>>|
                (#[trigger] entry_at(after.node, q)) is Some ==> entry_at(
                    after.node,
                    q,
                )->Some_0.path == q,
        ensures
            after.well_formed(),
            after.watching() == all_told(before.watching(), path, change),
    {
        before.watchers_match(path);
        assert(after.watching() =~= all_told(before.watching(), path, change));
        assert forall|q: Seq<Seq<char>>, id: u64| #[trigger]
            consumers_at(after.node, q).contains(id) <==> registered(
            after.watching(),
            q,
            id,
        ) by {
            assert(consumers_at(before.node, q).contains(id) <==> registered(
                before.watching(),
                q,
                id,
            ));
        }
        assert forall|q: Seq<Seq<char>>|
            (#[trigger] consumers_at(after.node, q)).no_duplicates() by {
            assert(consumers_at(before.node, q).no_duplicates());
        }
        assert forall|id: u64| #[trigger] after.watching().contains_key(id) implies id
            < after.next_cursor && cursor_valid(after.watching()[id]) by {
            assert(before.watching().contains_key(id));
            assert(cursor_valid(before.watching()[id]));
        }
    }

    /// The watchers of a path have a root above it.
    proof fn watchers_below_root(self, path: Seq<Seq<char>>)
        requires
            self.well_formed(),
        ensures
            watchers(self.node, path).no_duplicates(),
            forall|i: int|
                0 <= i < watchers(self.node, path).len() ==> self.watching().contains_key(
                    #[trigger] watchers(self.node, path)[i],
                ) && self.watching()[watchers(self.node, path)[i]].root.is_prefix_of(path),
    {
        self.watchers_match(path);
        let ids = watchers(self.node, path);
        assert forall|i: int| 0 <= i < ids.len() implies self.watching().contains_key(
            #[trigger] ids[i],
        ) && self.watching()[ids[i]].root.is_prefix_of(path) by {
            assert(ids.contains(ids[i]));
            let cursor = self.watching()[ids[i]];
            assert(cursor_valid(cursor));
            let a = choose|a: int|
                0 <= a < cursor.watched.len() && (#[trigger] cursor.watched[a]).is_prefix_of(path);
            assert(cursor.root.is_prefix_of(cursor.watched[a]));
            assert(cursor.root =~= path.take(cursor.root.len() as int)) by {
                assert(cursor.root =~= cursor.watched[a].take(cursor.root.len() as int));
                assert(cursor.watched[a] =~= path.take(cursor.watched[a].len() as int));
            }
        }
    }

    /// Publish a source at an absolute path, telling all cursors that watch it.
    pub fn publish(&mut self, path: &Path, source: Source)
        requires
            old(self).well_formed(),
        ensures
            final(self).well_formed(),
            final(self).next_cursor == old(self).next_cursor,
            ({
                let (routes, change) = publish_entry(
                    path@,
                    routes_at(old(self).entries(), path@),
                    source@,
                );
                &&& final(self).entries() == with_routes(old(self).entries(), path@, routes)
                &&& final(self).watching() == all_told(old(self).watching(), path@, change)
            }),
    {
        proof {
            if self.depth@ < path@.len() {
                deeper(self.node, self.depth@, path@.len());
            }
            self.watchers_below_root(path@);
            assert(path@.skip(0) =~= path@);
            assert(routes_at(self.entries(), path@) == entry_at(self.node, path@));
        }
        let ghost deep: nat = if self.depth@ < path@.len() {
            path@.len()
        } else {
            self.depth@
        };
        self.depth = Ghost(deep);
        let ids: Vec<u64> = self.node.watchers(path, Ghost(deep));
        let ghost added = source@;
        let change: Change = self.node.publish(path, 0, source, Ghost(deep));
        let ghost seen = change@;
        self.notify(&ids, path, &change);
        proof {
            let (routes, _) = publish_entry(path@, routes_at(old(self).entries(), path@), added);
            assert(self.entries() =~= with_routes(old(self).entries(), path@, routes));
            Registry::told_is_valid(*old(self), *self, path@, seen);
        }
    }

    /// Remove a source from an absolute path, telling all cursors that watch it.
    pub fn remove(&mut self, path: &Path, channel: u64)
        requires
            old(self).well_formed(),
            routes_at(old(self).entries(), path@) matches Some(entry) ==> entry.active.channel
                == channel || has_channel(entry.backup, channel),
        ensures
            final(self).well_formed(),
            final(self).next_cursor == old(self).next_cursor,
            ({
                let (routes, change) = remove_entry(
                    path@,
                    routes_at(old(self).entries(), path@),
                    channel,
                );
                &&& final(self).entries() == with_routes(old(self).entries(), path@, routes)
                &&& final(self).watching() == all_told(old(self).watching(), path@, change)
            }),
    {
        proof {
            if self.depth@ < path@.len() {
                deeper(self.node, self.depth@, path@.len());
            }
            self.watchers_below_root(path@);
            assert(path@.skip(0) =~= path@);
            assert(routes_at(self.entries(), path@) == entry_at(self.node, path@));
        }
        let ghost deep: nat = if self.depth@ < path@.len() {
            path@.len()
        } else {
            self.depth@
        };
        self.depth = Ghost(deep);
        let ids: Vec<u64> = self.node.watchers(path, Ghost(deep));
        let change: Change = self.node.remove(path, 0, channel, Ghost(deep));
        let ghost seen = change@;
        self.notify(&ids, path, &change);
        proof {
            let (routes, _) = remove_entry(path@, routes_at(old(self).entries(), path@), channel);
            assert(self.entries() =~= with_routes(old(self).entries(), path@, routes));
            Registry::told_is_valid(*old(self), *self, path@, seen);
        }
    }

    /// The active broadcast at an absolute path.
    pub fn get(&self, path: &Path) -> (r: Option<Source>)
        requires
            self.well_formed(),
        ensures
            match routes_at(self.entries(), path@) {
                Some(entry) => r matches Some(source) && source@ == entry.active,
                None => r is None,
            },
    {
        proof {
            assert(path@.skip(0) =~= path@);
            assert(routes_at(self.entries(), path@) == entry_at(self.node, path@));
        }
        self.node.consume_broadcast(path, 0, Ghost(self.depth@))
    }

    /// Start a cursor over the part of the tree that `scope` allows below `root`, with the
    /// currently active broadcasts as initial announcements.
    pub fn open(&mut self, root: &Path, scope: &Scope) -> (id: u64)
        requires
            old(self).well_formed(),
            old(self).next_cursor < u64::MAX,
        ensures
            final(self).well_formed(),
            final(self).entries() == old(self).entries(),
            id == old(self).next_cursor,
            final(self).next_cursor == id + 1,
            final(self).watching() == old(self).watching().insert(
                id,
                (CursorModel {
                    root: root@,
                    watched: minimal(absolute_all(root@, scope@)),
                    pending: initial_updates(old(self).entries(), root@, scope@),
                }),
            ),
    {
        let id: u64 = self.next_cursor;
        let watched: Vec<Path> = absolute_prefixes(root, scope);
        let pending: Pending = self.initial(root, scope, &watched);
        let ghost paths = path_models(watched@);
        let ghost start = *self;
        proof {
            minimal_apart(absolute_all(root@, scope@));
        }
        let mut i: usize = 0;
        assert(paths.take(0) =~= seq![]);
        while i < watched.len()
            invariant
                start == *old(self),
                start.well_formed(),
                paths == path_models(watched@),
                apart(paths),
                i <= watched@.len(),
                id == start.next_cursor,
                tree_valid(self.node, self.depth@),
                self.cursors == start.cursors,
                self.next_cursor == start.next_cursor,
                forall|q: Seq<Seq<char>>| #[trigger]
                    entry_at(self.node, q) == entry_at(start.node, q),
                forall|q: Seq<Seq<char>>| #[trigger]
                    consumers_at(self.node, q) == if paths.take(i as int).contains(q) {
                        consumers_at(start.node, q).push(id)
                    } else {
                        consumers_at(start.node, q)
                    },
            decreases watched@.len() - i,
        {
            let path: &Path = &watched[i];
            assert(paths[i as int] == path@);
            let ghost deep: nat = if self.depth@ < path@.len() {
                path@.len()
            } else {
                self.depth@
            };
            proof {
                deeper(self.node, self.depth@, deep);
                assert(path@.skip(0) =~= path@);
                assert(!paths.take(i as int).contains(path@)) by {
                    if paths.take(i as int).contains(path@) {
                        let j = paths.take(i as int).index_of(path@);
                        assert(paths[j] == path@);
                        assert(paths[j] =~= paths[i as int].take(paths[j].len() as int));
                        assert(paths[j].is_prefix_of(paths[i as int]));
                    }
                }
                taken_one_more(paths, i as int);
            }
            self.depth = Ghost(deep);
            self.node.consume(path, 0, id, Ghost(deep));
            i += 1;
        }
        let ghost model = CursorModel { root: root@, watched: paths, pending: pending@ };
        let _ = self.cursors.insert(id, Cursor { root: root.clone(), watched, pending });
        self.next_cursor = id + 1;
        proof {
            assert(paths.take(i as int) =~= paths);
            assert(self.watching() =~= start.watching().insert(id, model));
            assert(self.entries() =~= start.entries());
            assert(!start.watching().contains_key(id));
            assert forall|q: Seq<Seq<char>>, other: u64| #[trigger]
                consumers_at(self.node, q).contains(other) <==> registered(
                self.watching(),
                q,
                other,
            ) by {
                let was = consumers_at(start.node, q);
                assert(was.contains(other) <==> registered(start.watching(), q, other));
                if paths.contains(q) {
                    let now = was.push(id);
                    if was.contains(other) {
                        assert(now[was.index_of(other)] == other);
                    }
                    assert(now[was.len() as int] == id);
                    if now.contains(other) && other != id {
                        assert(was[now.index_of(other)] == other);
                    }
                }
            }
            assert forall|q: Seq<Seq<char>>|
                (#[trigger] consumers_at(self.node, q)).no_duplicates() by {
                let was = consumers_at(start.node, q);
                assert(was.no_duplicates());
                if paths.contains(q) {
                    assert(!was.contains(id)) by {
                        assert(was.contains(id) <==> registered(start.watching(), q, id));
                    }
                    let now = was.push(id);
                    assert forall|a: int, b: int|
                        0 <= a < now.len() && 0 <= b < now.len() && a != b implies now[a]
                        != now[b] by {
                        if a == was.len() {
                            assert(was.contains(was[b]));
                        } else if b == was.len() {
                            assert(was.contains(was[a]));
                        } else {
                            assert(was[a] != was[b]);
                        }
                    }
                }
            }
            assert(cursor_valid(model)) by {
                assert forall|k: int| 0 <= k < paths.len() implies root@.is_prefix_of(
                    #[trigger] paths[k],
                ) by {
                    minimal_from(absolute_all(root@, scope@), k);
                    let all = absolute_all(root@, scope@);
                    let m = choose|m: int| 0 <= m < all.len() && #[trigger] all[m] == paths[k];
                    assert(all[m] == root@ + scope@[m]);
                    assert(root@ =~= all[m].take(root@.len() as int));
                }
            }
            assert forall|other: u64| #[trigger] self.watching().contains_key(other) implies other
                < self.next_cursor && cursor_valid(self.watching()[other]) by {
                if other != id {
                    assert(start.watching().contains_key(other));
                }
            }
        }
        id
    }

    /// The initial announcements of a cursor.
    fn initial(&self, root: &Path, scope: &Scope, watched: &Vec<Path>) -> (r: Pending)
        requires
            self.well_formed(),
            path_models(watched@) == minimal(absolute_all(root@, scope@)),
        ensures
            r@ == initial_updates(self.entries(), root@, scope@),
    {
        let ghost entries = self.entries();
        let ghost paths = path_models(watched@);
        let mut pending: Pending = Pending::new();
        let mut i: usize = 0;
        while i < watched.len()
            invariant
                self.well_formed(),
                entries == self.entries(),
                paths == path_models(watched@),
                i <= watched@.len(),
                forall|relative: Seq<Seq<char>>| #[trigger]
                    pending@.contains_key(relative) ==> entries.contains_key(root@ + relative)
                        && covers(paths, root@ + relative) && pending@[relative]
                        == Update::Announce(entries[root@ + relative].active),
                forall|relative: Seq<Seq<char>>, k: int|
                    0 <= k < i && entries.contains_key(root@ + relative) && (
                    #[trigger] paths[k]).is_prefix_of(#[trigger] (root@ + relative))
                        ==> pending@.contains_key(relative),
            decreases watched@.len() - i,
        {
            let prefix: &Path = &watched[i];
            assert(paths[i as int] == prefix@);
            let found: Vec<(Path, Source)> = self.node.collect_under(
                prefix,
                0,
                Ghost(self.depth@),
            );
            assert(prefix@.skip(0) =~= prefix@);
            let mut j: usize = 0;
            let ghost before = pending@;
            while j < found.len()
                invariant
                    self.well_formed(),
                    entries == self.entries(),
                    paths == path_models(watched@),
                    i < watched@.len(),
                    paths[i as int] == prefix@,
                    j <= found@.len(),
                    forall|k: int|
                        0 <= k < found@.len() ==> holds_under(
                            self.node,
                            prefix@,
                            #[trigger] found@[k],
                        ),
                    forall|relative: Seq<Seq<char>>| #[trigger]
                        pending@.contains_key(relative) ==> entries.contains_key(root@ + relative)
                            && covers(paths, root@ + relative) && pending@[relative]
                            == Update::Announce(entries[root@ + relative].active),
                    forall|relative: Seq<Seq<char>>|
                        before.contains_key(relative) ==> #[trigger] pending@.contains_key(
                            relative,
                        ),
                    forall|k: int, relative: Seq<Seq<char>>|
                        0 <= k < j && #[trigger] found@[k].0@ == #[trigger] (root@ + relative)
                            ==> pending@.contains_key(relative),
                decreases found@.len() - j,
            {
                let ghost was = pending@;
                proof {
                    assert(holds_under(self.node, prefix@, found@[j as int]));
                    let q = choose|q: Seq<Seq<char>>|
                        (#[trigger] entry_at(self.node, q)) is Some && prefix@.is_prefix_of(q)
                            && listed(found@[j as int], entry_at(self.node, q)->Some_0);
                    assert(q == found@[j as int].0@);
                    assert(entries.contains_key(q));
                    assert(entries[q].active == found@[j as int].1@);
                    assert(paths[i as int].is_prefix_of(q));
                    assert(covers(paths, q));
                }
                match found[j].0.strip_prefix(root) {
                    None => {
                        proof {
                            assert forall|relative: Seq<Seq<char>>|
                                found@[j as int].0@ == #[trigger] (root@ + relative) implies false by {
                                assert(root@ =~= (root@ + relative).take(root@.len() as int));
                            }
                        }
                    },
                    Some(relative) => {
                        let ghost at = relative@;
                        assert(root@ + at =~= found@[j as int].0@) by {
                            assert(root@ =~= found@[j as int].0@.take(root@.len() as int));
                        }
                        pending.apply_announce(relative, found[j].1.clone());
                        proof {
                            assert(pending@ == was.insert(
                                at,
                                Update::Announce(found@[j as int].1@),
                            ));
                            assert forall|relative: Seq<Seq<char>>|
                                found@[j as int].0@ == #[trigger] (root@ + relative) implies relative
                                == at by {
                                assert(relative =~= (root@ + relative).skip(root@.len() as int));
                            }
                        }
                    },
                }
                j += 1;
            }
            proof {
                assert forall|relative: Seq<Seq<char>>, k: int|
                    0 <= k < i + 1 && entries.contains_key(root@ + relative) && (
                    #[trigger] paths[k]).is_prefix_of(
                        #[trigger] (root@ + relative),
                    ) implies pending@.contains_key(relative) by {
                    if k < i {
                        assert(before.contains_key(relative));
                    } else {
                        let q = root@ + relative;
                        assert(entry_at(self.node, q) is Some);
                        assert(lists(found@, entry_at(self.node, q)->Some_0));
                        let m = choose|m: int|
                            0 <= m < found@.len() && listed(
                                #[trigger] found@[m],
                                entry_at(self.node, q)->Some_0,
                            );
                        assert(found@[m].0@ == root@ + relative);
                    }
                }
            }
            i += 1;
        }
        proof {
            assert forall|relative: Seq<Seq<char>>| #[trigger]
                covers(paths, root@ + relative) == covers(scope@, relative) by {
                minimal_covers_the_same(absolute_all(root@, scope@), root@ + relative);
                absolute_covers(root@, scope@, relative);
            }
            assert forall|relative: Seq<Seq<char>>|
                entries.contains_key(root@ + relative) && covers(
                    paths,
                    root@ + relative,
                ) implies #[trigger] pending@.contains_key(relative) by {
                let k = choose|k: int|
                    0 <= k < paths.len() && (#[trigger] paths[k]).is_prefix_of(root@ + relative);
                assert(paths[k].is_prefix_of(root@ + relative));
            }
            assert(pending@ =~= initial_updates(entries, root@, scope@));
        }
        pending
    }

    /// End a cursor.
    pub fn close(&mut self, id: u64)
        requires
            old(self).well_formed(),
        ensures
            final(self).well_formed(),
            final(self).entries() == old(self).entries(),
            final(self).next_cursor == old(self).next_cursor,
            final(self).watching() == old(self).watching().remove(id),
    {
        let ghost start = *self;
        match self.cursors.remove(&id) {
            None => {
                assert(self.watching() =~= start.watching());
                assert(start.watching().remove(id) =~= start.watching());
                assert(self.cursors@ =~= start.cursors@);
            },
            Some(cursor) => {
                let watched: Vec<Path> = cursor.watched;
                let ghost paths = path_models(watched@);
                proof {
                    assert(start.watching()[id] == cursor@);
                    assert(start.watching().contains_key(id));
                    assert(cursor_valid(start.watching()[id]));
                    assert(self.watching() =~= start.watching().remove(id));
                    assert(paths.take(0) =~= seq![]);
                }
                let mut i: usize = 0;
                while i < watched.len()
                    invariant
                        start == *old(self),
                        start.well_formed(),
                        paths == path_models(watched@),
                        apart(paths),
                        i <= watched@.len(),
                        tree_valid(self.node, self.depth@),
                        self.watching() == start.watching().remove(id),
                        self.next_cursor == start.next_cursor,
                        forall|q: Seq<Seq<char>>| #[trigger]
                            entry_at(self.node, q) == entry_at(start.node, q),
                        forall|q: Seq<Seq<char>>| #[trigger]
                            consumers_at(self.node, q) == if paths.take(i as int).contains(q) {
                                without(consumers_at(start.node, q), id)
                            } else {
                                consumers_at(start.node, q)
                            },
                    decreases watched@.len() - i,
                {
                    let path: &Path = &watched[i];
                    assert(paths[i as int] == path@);
                    let ghost deep: nat = if self.depth@ < path@.len() {
                        path@.len()
                    } else {
                        self.depth@
                    };
                    proof {
                        deeper(self.node, self.depth@, deep);
                        assert(path@.skip(0) =~= path@);
                        assert(!paths.take(i as int).contains(path@)) by {
                            if paths.take(i as int).contains(path@) {
                                let j = paths.take(i as int).index_of(path@);
                                assert(paths[j] == path@);
                                assert(paths[j] =~= paths[i as int].take(paths[j].len() as int));
                                assert(paths[j].is_prefix_of(paths[i as int]));
                            }
                        }
                        taken_one_more(paths, i as int);
                    }
                    self.depth = Ghost(deep);
                    self.node.unconsume(path, 0, id, Ghost(deep));
                    i += 1;
                }
                proof {
                    assert(paths.take(i as int) =~= paths);
                    assert forall|q: Seq<Seq<char>>, other: u64| #[trigger]
                        consumers_at(self.node, q).contains(other) <==> registered(
                        self.watching(),
                        q,
                        other,
                    ) by {
                        let was = consumers_at(start.node, q);
                        assert(was.contains(other) <==> registered(start.watching(), q, other));
                        assert(was.no_duplicates());
                        without_facts(was, id);
                        if !paths.contains(q) {
                            assert(!registered(start.watching(), q, id));
                            assert(was.contains(id) <==> registered(start.watching(), q, id));
                        }
                    }
                    assert forall|q: Seq<Seq<char>>|
                        (#[trigger] consumers_at(self.node, q)).no_duplicates() by {
                        let was = consumers_at(start.node, q);
                        assert(was.no_duplicates());
                        without_facts(was, id);
                    }
                    assert forall|other: u64| #[trigger] self.watching().contains_key(
                        other,
                    ) implies other < self.next_cursor && cursor_valid(self.watching()[other]) by {
                        assert(start.watching().contains_key(other));
                    }
                }
            },
        }
        assert(self.entries() =~= start.entries());
    }
}

/// Without its only occurrence, an id is gone and the others stay, each once.
proof fn without_facts(ids: Seq<u64>, id: u64)
    requires
        ids.no_duplicates(),
    ensures
        without(ids, id).no_duplicates(),
        forall|other: u64| #[trigger]
            without(ids, id).contains(other) <==> ids.contains(other) && other != id,
    decreases ids.len(),
{
    if ids.len() > 0 {
        let rest = ids.skip(1);
        assert(rest.no_duplicates()) by {
            assert forall|a: int, b: int|
                0 <= a < rest.len() && 0 <= b < rest.len() && a != b implies rest[a]
                != rest[b] by {
                assert(ids[a + 1] != ids[b + 1]);
            }
        }
        without_facts(rest, id);
        assert forall|other: u64| #[trigger]
            ids.contains(other) <==> other == ids[0] || rest.contains(other) by {
            if ids.contains(other) && other != ids[0] {
                let a = ids.index_of(other);
                assert(rest[a - 1] == other);
            }
            if rest.contains(other) {
                let a = rest.index_of(other);
                assert(ids[a + 1] == other);
            }
        }
        assert(!rest.contains(ids[0])) by {
            if rest.contains(ids[0]) {
                let a = rest.index_of(ids[0]);
                assert(ids[a + 1] == ids[0]);
            }
        }
        if ids[0] != id {
            let left = without(rest, id);
            let all = seq![ids[0]] + left;
            assert forall|other: u64| #[trigger]
                all.contains(other) <==> other == ids[0] || left.contains(other) by {
                if all.contains(other) && other != ids[0] {
                    let a = all.index_of(other);
                    assert(left[a - 1] == other);
                }
                if left.contains(other) {
                    let a = left.index_of(other);
                    assert(all[a + 1] == other);
                }
                assert(all[0] == ids[0]);
            }
            assert forall|a: int, b: int|
                0 <= a < all.len() && 0 <= b < all.len() && a != b implies all[a] != all[b] by {
                if a == 0 {
                    assert(left.contains(left[b - 1]));
                } else if b == 0 {
                    assert(left.contains(left[a - 1]));
                } else {
                    assert(left[a - 1] != left[b - 1]);
                }
            }
        }
    }
}

/// One more path taken.
proof fn taken_one_more(paths: Seq<Seq<Seq<char>>>, i: int)
    requires
        0 <= i < paths.len(),
    ensures
        forall|q: Seq<Seq<char>>| #[trigger]
            paths.take(i + 1).contains(q) == (paths.take(i).contains(q) || q == paths[i]),
{
    let now = paths.take(i + 1);
    let was = paths.take(i);
    assert forall|q: Seq<Seq<char>>| #[trigger]
        now.contains(q) == (was.contains(q) || q == paths[i]) by {
        if was.contains(q) {
            assert(now[was.index_of(q)] == q);
        }
        assert(now[i] == paths[i]);
        if now.contains(q) && q != paths[i] {
            assert(was[now.index_of(q)] == q);
        }
    }
}

/// A path below the root is allowed there as it is allowed relative to the root.
proof fn absolute_covers(
    root: Seq<Seq<char>>,
    scope: Seq<Seq<Seq<char>>>,
    relative: Seq<Seq<char>>,
)
    ensures
        covers(absolute_all(root, scope), root + relative) == covers(scope, relative),
{
    let all = absolute_all(root, scope);
    let full = root + relative;
    if covers(scope, relative) {
        let i = choose|i: int| 0 <= i < scope.len() && (#[trigger] scope[i]).is_prefix_of(relative);
        assert(all[i] == root + scope[i]);
        assert(all[i] =~= full.take(all[i].len() as int)) by {
            assert(scope[i] =~= relative.take(scope[i].len() as int));
        }
        assert(all[i].is_prefix_of(full));
    }
    if covers(all, full) {
        let i = choose|i: int| 0 <= i < all.len() && (#[trigger] all[i]).is_prefix_of(full);
        assert(all[i] == root + scope[i]);
        assert(scope[i] =~= relative.take(scope[i].len() as int)) by {
            assert(all[i] =~= full.take(all[i].len() as int));
            assert forall|k: int| 0 <= k < scope[i].len() implies scope[i][k] == relative[k] by {
                assert(all[i][k + root.len()] == full[k + root.len()]);
            }
        }
        assert(scope[i].is_prefix_of(relative));
    }
}

/// The prefixes of a scope as absolute paths, without overlaps.
fn absolute_prefixes(root: &Path, scope: &Scope) -> (r: Vec<Path>)
    ensures
        path_models(r@) == minimal(absolute_all(root@, scope@)),
{
    let ghost all = absolute_all(root@, scope@);
    let mut prefixes: Vec<Path> = Vec::new();
    let mut i: usize = 0;
    assert(path_models(prefixes@) =~= all.take(0));
    while i < scope.roots.len()
        invariant
            i <= scope.roots@.len(),
            all == absolute_all(root@, scope@),
            path_models(prefixes@) == all.take(i as int),
        decreases scope.roots@.len() - i,
    {
        let ghost before = path_models(prefixes@);
        assert(scope@[i as int] == scope.roots@[i as int]@);
        let path: Path = root.join(&scope.roots[i]);
        assert(all[i as int] == path@);
        let ghost added = path@;
        prefixes.push(path);
        assert(path_models(prefixes@) =~= before.push(added));
        i += 1;
        assert(path_models(prefixes@) =~= all.take(i as int));
    }
    assert(all.take(i as int) =~= all);
    minimal_prefixes(&prefixes)
}

impl Registry {
    /// Take the next event of a cursor.
    pub fn next(&mut self, id: u64) -> (r: Option<(Path, Announced)>)
        requires
            old(self).well_formed(),
        ensures
            final(self).well_formed(),
            final(self).entries() == old(self).entries(),
            final(self).next_cursor == old(self).next_cursor,
            ({
                let cursors = old(self).watching();
                match r {
                    Some((path, event)) => {
                        let pending = cursors[id].pending;
                        &&& cursors.contains_key(id)
                        &&& pending.contains_key(path@)
                        &&& forall|other: Seq<Seq<char>>| #[trigger]
                            pending.contains_key(other) ==> !path_before(other, path@)
                        &&& event@ == delivered(pending[path@])
                        &&& final(self).watching() == cursors.insert(
                            id,
                            (CursorModel {
                                pending: with_pending(pending, path@, left_over(pending[path@])),
                                ..cursors[id]
                            }),
                        )
                    },
                    None => {
                        &&& cursors.contains_key(id) ==> cursors[id].pending == Map::<
                            Seq<Seq<char>>,
                            Update,
                        >::empty()
                        &&& final(self).watching() == cursors
                    },
                }
            }),
    {
        let ghost start = *self;
        match self.cursors.remove(&id) {
            None => {
                assert(self.cursors@ =~= start.cursors@);
                assert(self.watching() =~= start.watching());
                None
            },
            Some(mut cursor) => {
                let ghost was = cursor@;
                assert(start.watching()[id] == was);
                assert(start.watching().contains_key(id));
                let r: Option<(Path, Announced)> = cursor.pending.take();
                let ghost now = cursor@;
                let _ = self.cursors.insert(id, cursor);
                proof {
                    assert(self.watching() =~= start.watching().insert(id, now));
                    if r is None {
                        assert(now == was);
                        assert(self.watching() =~= start.watching());
                    }
                    assert forall|q: Seq<Seq<char>>, other: u64| #[trigger]
                        consumers_at(self.node, q).contains(other) <==> registered(
                        self.watching(),
                        q,
                        other,
                    ) by {
                        assert(registered(start.watching(), q, other) == registered(
                            self.watching(),
                            q,
                            other,
                        ));
                    }
                    assert forall|other: u64| #[trigger] self.watching().contains_key(
                        other,
                    ) implies other < self.next_cursor && cursor_valid(self.watching()[other]) by {
                        assert(start.watching().contains_key(other));
                        assert(cursor_valid(start.watching()[other]));
                    }
                    assert(self.entries() =~= start.entries());
                }
                r
            },
        }
    }

    /// Take events of a cursor until one announces a broadcast at exactly `path`. See
    /// [`Pending::take_exact`].
    pub fn next_exact(&mut self, id: u64, path: &Path) -> (r: Option<Source>)
        requires
            old(self).well_formed(),
        ensures
            final(self).well_formed(),
            final(self).entries() == old(self).entries(),
            final(self).next_cursor == old(self).next_cursor,
            ({
                let cursors = old(self).watching();
                let found = match r {
                    Some(source) => Some(source@),
                    None => None,
                };
                if cursors.contains_key(id) {
                    let pending = final(self).watching()[id].pending;
                    &&& exact_taken(cursors[id].pending, path@, found, pending)
                    &&& final(self).watching() == cursors.insert(
                        id,
                        (CursorModel { pending, ..cursors[id] }),
                    )
                } else {
                    &&& r is None
                    &&& final(self).watching() == cursors
                }
            }),
    {
        let ghost start = *self;
        match self.cursors.remove(&id) {
            None => {
                assert(self.cursors@ =~= start.cursors@);
                assert(self.watching() =~= start.watching());
                None
            },
            Some(mut cursor) => {
                let ghost was = cursor@;
                assert(start.watching()[id] == was);
                assert(start.watching().contains_key(id));
                let r: Option<Source> = cursor.pending.take_exact(path);
                let ghost now = cursor@;
                let _ = self.cursors.insert(id, cursor);
                proof {
                    assert(self.watching() =~= start.watching().insert(id, now));
                    assert forall|q: Seq<Seq<char>>, other: u64| #[trigger]
                        consumers_at(self.node, q).contains(other) <==> registered(
                        self.watching(),
                        q,
                        other,
                    ) by {
                        assert(registered(start.watching(), q, other) == registered(
                            self.watching(),
                            q,
                            other,
                        ));
                    }
                    assert forall|other: u64| #[trigger] self.watching().contains_key(
                        other,
                    ) implies other < self.next_cursor && cursor_valid(self.watching()[other]) by {
                        assert(start.watching().contains_key(other));
                        assert(cursor_valid(start.watching()[other]));
                    }
                    assert(self.entries() =~= start.entries());
                }
                r
            },
        }
    }
}

/// Whether everything pending for a cursor is at a path that it watches.
pub open spec fn within_scope(cursor: CursorModel) -> bool {
    forall|k: Seq<Seq<char>>| #[trigger]
        cursor.pending.contains_key(k) ==> covers(cursor.watched, cursor.root + k)
}

/// A new cursor is told only of what is within its scope.
pub proof fn cursor_starts_within_scope(
    entries: Entries,
    root: Seq<Seq<char>>,
    scope: Seq<Seq<Seq<char>>>,
)
    ensures
        within_scope(
            CursorModel {
                root,
                watched: minimal(absolute_all(root, scope)),
                pending: initial_updates(entries, root, scope),
            },
        ),
{
    let all = absolute_all(root, scope);
    let pending = initial_updates(entries, root, scope);
    assert forall|k: Seq<Seq<char>>| #[trigger] pending.contains_key(k) implies covers(
        minimal(all),
        root + k,
    ) by {
        let j = choose|j: int| 0 <= j < scope.len() && (#[trigger] scope[j]).is_prefix_of(k);
        assert(all[j] == root + scope[j]);
        assert(all[j].is_prefix_of(root + k));
        minimal_covers_the_same(all, root + k);
    }
}

/// No change makes a cursor hear of what is outside its scope.
pub proof fn cursor_stays_within_scope(
    cursors: Cursors,
    id: u64,
    path: Seq<Seq<char>>,
    change: ChangeModel,
)
    requires
        cursors.contains_key(id),
        cursor_valid(cursors[id]),
        within_scope(cursors[id]),
    ensures
        within_scope(all_told(cursors, path, change)[id]),
{
    let cursor = cursors[id];
    if covers(cursor.watched, path) {
        let j = choose|j: int|
            0 <= j < cursor.watched.len() && (#[trigger] cursor.watched[j]).is_prefix_of(path);
        assert(cursor.root.is_prefix_of(cursor.watched[j]));
        let relative = path.skip(cursor.root.len() as int);
        assert(cursor.root + relative =~= path);
        let after = told(cursor, path, change);
        assert forall|k: Seq<Seq<char>>| #[trigger] after.pending.contains_key(k) implies covers(
            after.watched,
            after.root + k,
        ) by {
            if k != relative {
                assert(cursor.pending.contains_key(k));
            }
        }
    }
}

/// A new cursor is told of each broadcast in its scope once, as active, and of nothing else.
pub proof fn new_cursor_hears_of_each_broadcast_once(
    entries: Entries,
    root: Seq<Seq<char>>,
    scope: Seq<Seq<Seq<char>>>,
    path: Seq<Seq<char>>,
)
    ensures
        ({
            let pending = initial_updates(entries, root, scope);
            &&& pending.contains_key(path) <==> covers(scope, path) && entries.contains_key(
                root + path,
            )
            &&& pending.contains_key(path) ==> {
                &&& delivered(pending[path]) == AnnouncedModel::Active(entries[root + path].active)
                &&& with_pending(pending, path, left_over(pending[path])) == pending.remove(path)
            }
        }),
{
}

/// What a consumer saw last at a path.
pub open spec fn seen_at(seen: Map<Seq<Seq<char>>, SourceModel>, path: Seq<Seq<char>>) -> Option<
    SourceModel,
> {
    if seen.contains_key(path) {
        Some(seen[path])
    } else {
        None
    }
}

/// Whether a consumer that saw `seen`, and drains what is pending for it, ends up with what is
/// published, at every path it watches.
pub open spec fn informed(
    entries: Entries,
    cursor: CursorModel,
    seen: Map<Seq<Seq<char>>, SourceModel>,
) -> bool {
    forall|path: Seq<Seq<char>>|
        #![trigger pending_at(cursor.pending, path)]
        covers(cursor.watched, cursor.root + path) ==> {
            &&& fits(seen_at(seen, path), pending_at(cursor.pending, path))
            &&& settled(seen_at(seen, path), pending_at(cursor.pending, path)) == (
            if entries.contains_key(cursor.root + path) {
                Some(entries[cursor.root + path].active)
            } else {
                None
            })
        }
}

/// A new cursor is informed: it will hear of everything that is published in its scope, and of
/// nothing else.
pub proof fn new_cursor_is_informed(
    entries: Entries,
    root: Seq<Seq<char>>,
    scope: Seq<Seq<Seq<char>>>,
)
    ensures
        informed(
            entries,
            CursorModel {
                root,
                watched: minimal(absolute_all(root, scope)),
                pending: initial_updates(entries, root, scope),
            },
            Map::empty(),
        ),
{
    let all = absolute_all(root, scope);
    let pending = initial_updates(entries, root, scope);
    assert forall|path: Seq<Seq<char>>|
        #![trigger pending_at(pending, path)]
        covers(minimal(all), root + path) implies {
        &&& fits(seen_at(Map::empty(), path), pending_at(pending, path))
        &&& settled(seen_at(Map::empty(), path), pending_at(pending, path)) == (
        if entries.contains_key(root + path) {
            Some(entries[root + path].active)
        } else {
            None
        })
    } by {
        minimal_covers_the_same(all, root + path);
        let k = choose|k: int| 0 <= k < all.len() && (#[trigger] all[k]).is_prefix_of(root + path);
        assert(all[k] == root + scope[k]);
        assert(scope[k].is_prefix_of(path)) by {
            assert forall|i: int| 0 <= i < scope[k].len() implies scope[k][i] == path[i] by {
                assert(all[k][root.len() + i] == (root + path)[root.len() + i]);
            }
            assert(scope[k] =~= path.subrange(0, scope[k].len() as int));
        }
        assert(covers(scope, path));
    }
}

proof fn telling_keeps_informed(
    entries: Entries,
    after: Entries,
    cursors: Cursors,
    id: u64,
    full: Seq<Seq<char>>,
    change: ChangeModel,
    seen: Map<Seq<Seq<char>>, SourceModel>,
)
    requires
        cursors.contains_key(id),
        cursor_valid(cursors[id]),
        informed(entries, cursors[id], seen),
        truly_told(routes_at(entries, full), routes_at(after, full), change),
        forall|other: Seq<Seq<char>>|
            other != full ==> #[trigger] routes_at(after, other) == routes_at(entries, other),
    ensures
        informed(after, all_told(cursors, full, change)[id], seen),
{
    let before = cursors[id];
    let now = all_told(cursors, full, change)[id];
    assert forall|path: Seq<Seq<char>>|
        #![trigger pending_at(now.pending, path)]
        covers(now.watched, now.root + path) implies {
        &&& fits(seen_at(seen, path), pending_at(now.pending, path))
        &&& settled(seen_at(seen, path), pending_at(now.pending, path)) == (if after.contains_key(
            now.root + path,
        ) {
            Some(after[now.root + path].active)
        } else {
            None
        })
    } by {
        let at = before.root + path;
        assert(covers(before.watched, at));
        let was = pending_at(before.pending, path);
        assert(fits(seen_at(seen, path), was));
        if at == full {
            assert(full.skip(before.root.len() as int) =~= path);
            assert(covers(before.watched, full));
            assert(pending_at(now.pending, path) == after_change(was, change));
            assert(routes_at(entries, full) is Some <==> entries.contains_key(full));
            assert(routes_at(after, full) is Some <==> after.contains_key(full));
            match change {
                ChangeModel::Announce(source) => coalescing_converges(
                    seen_at(seen, path),
                    was,
                    source,
                ),
                ChangeModel::Restart(source) => coalescing_converges(
                    seen_at(seen, path),
                    was,
                    source,
                ),
                ChangeModel::Unannounce => coalescing_converges(
                    seen_at(seen, path),
                    was,
                    entries[full].active,
                ),
                ChangeModel::Unseen => {},
            }
        } else {
            assert(routes_at(after, at) == routes_at(entries, at));
            assert(routes_at(entries, at) is Some <==> entries.contains_key(at));
            assert(routes_at(after, at) is Some <==> after.contains_key(at));
            if covers(before.watched, full) {
                let relative = full.skip(before.root.len() as int);
                let k = choose|k: int|
                    0 <= k < before.watched.len() && (#[trigger] before.watched[k]).is_prefix_of(
                        full,
                    );
                assert(before.root.is_prefix_of(before.watched[k]));
                assert(before.root.is_prefix_of(full)) by {
                    let root = before.root;
                    let prefix = before.watched[k];
                    assert forall|i: int| 0 <= i < root.len() implies root[i] == full[i] by {
                        assert(root[i] == prefix.subrange(0, root.len() as int)[i]);
                        assert(prefix[i] == full.subrange(0, prefix.len() as int)[i]);
                    }
                    assert(root =~= full.subrange(0, root.len() as int));
                }
                assert(before.root + relative =~= full) by {
                    assert forall|i: int| 0 <= i < before.root.len() implies before.root[i]
                        == full[i] by {
                        assert(before.root[i] == full.subrange(0, before.root.len() as int)[i]);
                    }
                }
                assert(relative != path);
            }
            assert(pending_at(now.pending, path) == was);
        }
    }
}

/// Whatever is published, every cursor stays informed.
pub proof fn publishing_informs_every_cursor(
    entries: Entries,
    cursors: Cursors,
    id: u64,
    full: Seq<Seq<char>>,
    source: SourceModel,
    seen: Map<Seq<Seq<char>>, SourceModel>,
)
    requires
        cursors.contains_key(id),
        cursor_valid(cursors[id]),
        informed(entries, cursors[id], seen),
        channels_distinct(routes_at(entries, full)),
    ensures
        ({
            let (routes, change) = publish_entry(full, routes_at(entries, full), source);
            informed(
                with_routes(entries, full, routes),
                all_told(cursors, full, change)[id],
                seen,
            )
        }),
{
    let (routes, change) = publish_entry(full, routes_at(entries, full), source);
    publishing_adds_the_route(full, routes_at(entries, full), source, source);
    let after = with_routes(entries, full, routes);
    assert(routes_at(after, full) == routes);
    telling_keeps_informed(entries, after, cursors, id, full, change, seen);
}

/// Whatever is taken back, every cursor stays informed.
pub proof fn removing_informs_every_cursor(
    entries: Entries,
    cursors: Cursors,
    id: u64,
    full: Seq<Seq<char>>,
    channel: u64,
    seen: Map<Seq<Seq<char>>, SourceModel>,
)
    requires
        cursors.contains_key(id),
        cursor_valid(cursors[id]),
        informed(entries, cursors[id], seen),
        channels_distinct(routes_at(entries, full)),
        routes_at(entries, full) matches Some(entry) ==> entry.active.channel == channel
            || has_channel(entry.backup, channel),
    ensures
        ({
            let (routes, change) = remove_entry(full, routes_at(entries, full), channel);
            informed(
                with_routes(entries, full, routes),
                all_told(cursors, full, change)[id],
                seen,
            )
        }),
{
    let (routes, change) = remove_entry(full, routes_at(entries, full), channel);
    if let Some(entry) = routes_at(entries, full) {
        removing_takes_one_route(full, entry, channel, entry.active);
    }
    let after = with_routes(entries, full, routes);
    assert(routes_at(after, full) == routes);
    telling_keeps_informed(entries, after, cursors, id, full, change, seen);
}

/// Taking an update in keeps a cursor informed: what it has then seen is the event, and what is
/// left pending fits.
pub proof fn delivering_informs_the_consumer(
    entries: Entries,
    cursor: CursorModel,
    path: Seq<Seq<char>>,
    seen: Map<Seq<Seq<char>>, SourceModel>,
)
    requires
        informed(entries, cursor, seen),
        cursor.pending.contains_key(path),
        covers(cursor.watched, cursor.root + path),
    ensures
        ({
            let update = cursor.pending[path];
            let now = CursorModel {
                pending: with_pending(cursor.pending, path, left_over(update)),
                ..cursor
            };
            let saw = match delivered(update) {
                AnnouncedModel::Active(source) => seen.insert(path, source),
                AnnouncedModel::Restart(source) => seen.insert(path, source),
                AnnouncedModel::Ended => seen.remove(path),
            };
            &&& informed(entries, now, saw)
            &&& delivered(update) is Active <==> !seen.contains_key(path)
        }),
{
    let update = cursor.pending[path];
    let now = CursorModel {
        pending: with_pending(cursor.pending, path, left_over(update)),
        ..cursor
    };
    let saw = match delivered(update) {
        AnnouncedModel::Active(source) => seen.insert(path, source),
        AnnouncedModel::Restart(source) => seen.insert(path, source),
        AnnouncedModel::Ended => seen.remove(path),
    };
    assert(pending_at(cursor.pending, path) == Some(update));
    delivery_toggles(seen_at(seen, path), update);
    assert forall|other: Seq<Seq<char>>|
        #![trigger pending_at(now.pending, other)]
        covers(now.watched, now.root + other) implies {
        &&& fits(seen_at(saw, other), pending_at(now.pending, other))
        &&& settled(seen_at(saw, other), pending_at(now.pending, other)) == (
        if entries.contains_key(now.root + other) {
            Some(entries[now.root + other].active)
        } else {
            None
        })
    } by {
        assert(fits(seen_at(seen, other), pending_at(cursor.pending, other)));
        if other == path {
            assert(pending_at(now.pending, path) == left_over(update));
        } else {
            assert(pending_at(now.pending, other) == pending_at(cursor.pending, other));
            assert(seen_at(saw, other) == seen_at(seen, other));
        }
    }
}

/// A change is told to those who watch the path and to nobody else, under the path below their
/// root.
pub proof fn only_watchers_are_told(
    cursors: Cursors,
    path: Seq<Seq<char>>,
    change: ChangeModel,
    id: u64,
    other: Seq<Seq<char>>,
)
    requires
        cursors.contains_key(id),
    ensures
        ({
            let told = all_told(cursors, path, change);
            let watches = exists|i: int|
                0 <= i < cursors[id].watched.len() && (
                #[trigger] cursors[id].watched[i]).is_prefix_of(path);
            let relative = path.skip(cursors[id].root.len() as int);
            &&& told.dom() == cursors.dom()
            &&& told[id].root == cursors[id].root
            &&& told[id].watched == cursors[id].watched
            &&& !watches ==> told[id] == cursors[id]
            &&& watches ==> pending_at(told[id].pending, relative) == after_change(
                pending_at(cursors[id].pending, relative),
                change,
            )
            &&& other != relative ==> pending_at(told[id].pending, other) == pending_at(
                cursors[id].pending,
                other,
            )
        }),
{
    assert(all_told(cursors, path, change).dom() =~= cursors.dom());
}

/// The routes at one path are apart from those at any other.
pub proof fn entries_are_apart(
    entries: Entries,
    path: Seq<Seq<char>>,
    routes: Option<Entry>,
    other: Seq<Seq<char>>,
)
    ensures
        routes_at(with_routes(entries, path, routes), path) == routes,
        other != path ==> routes_at(with_routes(entries, path, routes), other) == routes_at(
            entries,
            other,
        ),
        routes_at(entries, path) is Some <==> entries.contains_key(path),
{
}

} // verus!
