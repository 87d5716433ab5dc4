//! The part of an origin that a handle may touch.

use vstd::prelude::*;

use crate::path::Path;

verus! {

/// What a run of paths stands for.
pub open spec fn path_models(paths: Seq<Path>) -> Seq<Seq<Seq<char>>> {
    paths.map_values(|path: Path| path@)
}

/// Whether a path lies under one of the prefixes.
pub open spec fn covers(prefixes: Seq<Seq<Seq<char>>>, path: Seq<Seq<char>>) -> bool {
    exists|i: int| 0 <= i < prefixes.len() && (#[trigger] prefixes[i]).is_prefix_of(path)
}

/// Whether a prefix adds nothing to `kept`.
pub open spec fn redundant(kept: Seq<Seq<Seq<char>>>, prefix: Seq<Seq<char>>) -> bool {
    covers(kept, prefix)
}

/// The prefixes of `kept` that do not lie under `prefix`.
pub open spec fn outside(kept: Seq<Seq<Seq<char>>>, prefix: Seq<Seq<char>>) -> Seq<Seq<Seq<char>>> {
    kept.filter(|path: Seq<Seq<char>>| !prefix.is_prefix_of(path))
}

/// The prefixes without duplicates or overlaps, keeping the shortest of those that overlap.
pub open spec fn minimal(prefixes: Seq<Seq<Seq<char>>>) -> Seq<Seq<Seq<char>>>
    decreases prefixes.len(),
{
    if prefixes.len() == 0 {
        seq![]
    } else {
        let kept = minimal(prefixes.drop_last());
        let prefix = prefixes.last();
        if redundant(kept, prefix) {
            kept
        } else {
            outside(kept, prefix).push(prefix)
        }
    }
}

/// What the root `root` gives when restricted to `prefixes`: itself for each prefix that it
/// lies under, and each prefix that lies under it.
pub open spec fn select_from(root: Seq<Seq<char>>, prefixes: Seq<Seq<Seq<char>>>) -> Seq<
    Seq<Seq<char>>,
>
    decreases prefixes.len(),
{
    if prefixes.len() == 0 {
        seq![]
    } else {
        let before = select_from(root, prefixes.drop_last());
        let prefix = prefixes.last();
        if prefix.is_prefix_of(root) {
            before.push(root)
        } else if root.is_prefix_of(prefix) {
            before.push(prefix)
        } else {
            before
        }
    }
}

/// The roots restricted to `prefixes`.
pub open spec fn selected(roots: Seq<Seq<Seq<char>>>, prefixes: Seq<Seq<Seq<char>>>) -> Seq<
    Seq<Seq<char>>,
>
    decreases roots.len(),
{
    if roots.len() == 0 {
        seq![]
    } else {
        selected(roots.drop_last(), prefixes) + select_from(roots.last(), prefixes)
    }
}

/// The roots as seen from below `new_root`.
pub open spec fn rooted(roots: Seq<Seq<Seq<char>>>, new_root: Seq<Seq<char>>) -> Seq<Seq<Seq<char>>>
    decreases roots.len(),
{
    if roots.len() == 0 {
        seq![]
    } else {
        let before = rooted(roots.drop_last(), new_root);
        let root = roots.last();
        if new_root.is_prefix_of(root) {
            // If the old root is longer than the new root, shorten the keys.
            before.push(root.skip(new_root.len() as int))
        } else if root.is_prefix_of(new_root) {
            // If the new root is longer than the old root, everything below it is allowed.
            before.push(seq![])
        } else {
            before
        }
    }
}

/// The prefixes that a handle is limited to, relative to its root.
pub struct Scope {
    pub roots: Vec<Path>,
}

impl View for Scope {
    type V = Seq<Seq<Seq<char>>>;

    open spec fn view(&self) -> Seq<Seq<Seq<char>>> {
        path_models(self.roots@)
    }
}

fn copy_paths(paths: &Vec<Path>) -> (r: Vec<Path>)
    ensures
        path_models(r@) == path_models(paths@),
{
    let mut out: Vec<Path> = Vec::new();
    let mut i: usize = 0;
    assert(path_models(out@) =~= path_models(paths@).take(0));
    while i < paths.len()
        invariant
            i <= paths@.len(),
            path_models(out@) == path_models(paths@).take(i as int),
        decreases paths@.len() - i,
    {
        let ghost before = path_models(out@);
        out.push(paths[i].clone());
        assert(path_models(out@) =~= before.push(paths@[i as int]@));
        i += 1;
        assert(path_models(out@) =~= path_models(paths@).take(i as int));
    }
    assert(path_models(paths@).take(i as int) =~= path_models(paths@));
    out
}

fn any_prefix_of(prefixes: &Vec<Path>, path: &Path) -> (r: bool)
    ensures
        r == covers(path_models(prefixes@), path@),
{
    let mut i: usize = 0;
    while i < prefixes.len()
        invariant
            i <= prefixes@.len(),
            forall|j: int|
                0 <= j < i ==> !(#[trigger] path_models(prefixes@)[j]).is_prefix_of(path@),
        decreases prefixes@.len() - i,
    {
        assert(path_models(prefixes@)[i as int] == prefixes@[i as int]@);
        if path.has_prefix(&prefixes[i]) {
            return true;
        }
        i += 1;
    }
    false
}

/// The prefixes without duplicates or overlaps.
pub fn minimal_prefixes(prefixes: &Vec<Path>) -> (r: Vec<Path>)
    ensures
        path_models(r@) == minimal(path_models(prefixes@)),
{
    let ghost all = path_models(prefixes@);
    let mut kept: Vec<Path> = Vec::new();
    let mut i: usize = 0;
    assert(all.take(0) =~= seq![]);
    assert(path_models(kept@) =~= seq![]);
    while i < prefixes.len()
        invariant
            i <= prefixes@.len(),
            all == path_models(prefixes@),
            path_models(kept@) == minimal(all.take(i as int)),
        decreases prefixes@.len() - i,
    {
        let prefix: &Path = &prefixes[i];
        assert(all[i as int] == prefix@);
        assert(all.take(i + 1).drop_last() =~= all.take(i as int));
        if !any_prefix_of(&kept, prefix) {
            let ghost before = path_models(kept@);
            let mut left: Vec<Path> = Vec::new();
            let mut j: usize = 0;
            assert(path_models(left@) =~= outside(before.take(0), prefix@)) by {
                reveal(Seq::filter);
                assert(before.take(0) =~= seq![]);
            }
            while j < kept.len()
                invariant
                    j <= kept@.len(),
                    before == path_models(kept@),
                    path_models(left@) == outside(before.take(j as int), prefix@),
                decreases kept@.len() - j,
            {
                let ghost was = path_models(left@);
                assert(before[j as int] == kept@[j as int]@);
                proof {
                    reveal(Seq::filter);
                    assert(before.take(j + 1).drop_last() =~= before.take(j as int));
                }
                if !kept[j].has_prefix(prefix) {
                    left.push(kept[j].clone());
                    assert(path_models(left@) =~= was.push(before[j as int]));
                }
                j += 1;
            }
            assert(before.take(j as int) =~= before);
            let ghost was = path_models(left@);
            left.push(prefix.clone());
            assert(path_models(left@) =~= was.push(prefix@));
            kept = left;
        }
        i += 1;
    }
    assert(all.take(i as int) =~= all);
    kept
}

impl Clone for Scope {
    fn clone(&self) -> (r: Scope)
        ensures
            r@ == self@,
    {
        Scope { roots: copy_paths(&self.roots) }
    }
}

impl Scope {
    /// No limit.
    pub fn full() -> (r: Scope)
        ensures
            r@ == seq![Seq::<Seq<char>>::empty()],
    {
        let mut roots: Vec<Path> = Vec::new();
        roots.push(Path::empty());
        assert(path_models(roots@) =~= seq![Seq::<Seq<char>>::empty()]);
        Scope { roots }
    }

    /// Nothing at all.
    pub fn nothing() -> (r: Scope)
        ensures
            r@ == Seq::<Seq<Seq<char>>>::empty(),
    {
        let r: Scope = Scope { roots: Vec::new() };
        assert(r@ =~= Seq::<Seq<Seq<char>>>::empty());
        r
    }

    /// Whether a path is allowed.
    pub fn allows(&self, path: &Path) -> (r: bool)
        ensures
            r == covers(self@, path@),
    {
        any_prefix_of(&self.roots, path)
    }

    /// The roots that lie under one of the prefixes, or the prefixes that lie under a root.
    /// `None` if there are none.
    pub fn select(&self, prefixes: &Vec<Path>) -> (r: Option<Scope>)
        ensures
            ({
                let all = selected(self@, path_models(prefixes@));
                match r {
                    Some(scope) => scope@ == all && all.len() > 0,
                    None => all.len() == 0,
                }
            }),
    {
        let ghost wanted = path_models(prefixes@);
        let mut roots: Vec<Path> = Vec::new();
        let mut i: usize = 0;
        assert(self@.take(0) =~= seq![]);
        assert(path_models(roots@) =~= seq![]);
        while i < self.roots.len()
            invariant
                i <= self.roots@.len(),
                wanted == path_models(prefixes@),
                path_models(roots@) == selected(self@.take(i as int), wanted),
            decreases self.roots@.len() - i,
        {
            let root: &Path = &self.roots[i];
            let ghost before = path_models(roots@);
            assert(self@[i as int] == root@);
            assert(self@.take(i + 1).drop_last() =~= self@.take(i as int));
            let mut j: usize = 0;
            assert(wanted.take(0) =~= seq![]);
            assert(path_models(roots@) =~= before + seq![]);
            while j < prefixes.len()
                invariant
                    j <= prefixes@.len(),
                    wanted == path_models(prefixes@),
                    path_models(roots@) == before + select_from(root@, wanted.take(j as int)),
                decreases prefixes@.len() - j,
            {
                let prefix: &Path = &prefixes[j];
                let ghost was = path_models(roots@);
                assert(wanted[j as int] == prefix@);
                assert(wanted.take(j + 1).drop_last() =~= wanted.take(j as int));
                if root.has_prefix(prefix) {
                    // Keep the existing root if we're allowed to access it.
                    roots.push(root.clone());
                    assert(path_models(roots@) =~= was.push(root@));
                } else if prefix.has_prefix(root) {
                    // If the requested prefix is larger than the allowed prefix, then we
                    // further scope it.
                    roots.push(prefix.clone());
                    assert(path_models(roots@) =~= was.push(prefix@));
                }
                j += 1;
                assert(path_models(roots@) =~= before + select_from(root@, wanted.take(j as int)));
            }
            assert(wanted.take(j as int) =~= wanted);
            i += 1;
        }
        assert(self@.take(i as int) =~= self@);
        if roots.len() == 0 {
            None
        } else {
            Some(Scope { roots })
        }
    }

    /// The roots as seen from below `new_root`. `None` if nothing is allowed there.
    pub fn root(&self, new_root: &Path) -> (r: Option<Scope>)
        ensures
            if new_root@.len() == 0 {
                r matches Some(scope) && scope@ == self@
            } else {
                let all = rooted(self@, new_root@);
                match r {
                    Some(scope) => scope@ == all && all.len() > 0,
                    None => all.len() == 0,
                }
            },
    {
        if new_root.is_empty() {
            return Some(self.clone());
        }
        let mut roots: Vec<Path> = Vec::new();
        let mut i: usize = 0;
        assert(self@.take(0) =~= seq![]);
        assert(path_models(roots@) =~= seq![]);
        while i < self.roots.len()
            invariant
                i <= self.roots@.len(),
                path_models(roots@) == rooted(self@.take(i as int), new_root@),
            decreases self.roots@.len() - i,
        {
            let root: &Path = &self.roots[i];
            let ghost before = path_models(roots@);
            assert(self@[i as int] == root@);
            assert(self@.take(i + 1).drop_last() =~= self@.take(i as int));
            match root.strip_prefix(new_root) {
                Some(suffix) => {
                    let ghost added = suffix@;
                    roots.push(suffix);
                    assert(path_models(roots@) =~= before.push(added));
                },
                None => {
                    if new_root.has_prefix(root) {
                        roots.push(Path::empty());
                        assert(path_models(roots@) =~= before.push(seq![]));
                    }
                },
            }
            i += 1;
        }
        assert(self@.take(i as int) =~= self@);
        if roots.len() == 0 {
            None
        } else {
            Some(Scope { roots })
        }
    }
}

/// Of two prefixes of one path, one is a prefix of the other.
proof fn prefixes_nest(a: Seq<Seq<char>>, b: Seq<Seq<char>>, path: Seq<Seq<char>>)
    requires
        a.is_prefix_of(path),
        b.is_prefix_of(path),
        a.len() <= b.len(),
    ensures
        a.is_prefix_of(b),
{
    assert(a =~= b.take(a.len() as int)) by {
        assert(a =~= path.take(a.len() as int));
        assert(b =~= path.take(b.len() as int));
    }
}

/// A prefix of a prefix is a prefix.
proof fn prefix_of_prefix(a: Seq<Seq<char>>, b: Seq<Seq<char>>, path: Seq<Seq<char>>)
    requires
        a.is_prefix_of(b),
        b.is_prefix_of(path),
    ensures
        a.is_prefix_of(path),
{
    assert(a =~= path.take(a.len() as int)) by {
        assert(a =~= b.take(a.len() as int));
        assert(b =~= path.take(b.len() as int));
    }
}

proof fn select_from_covers(
    root: Seq<Seq<char>>,
    prefixes: Seq<Seq<Seq<char>>>,
    path: Seq<Seq<char>>,
)
    ensures
        covers(select_from(root, prefixes), path) == (root.is_prefix_of(path) && covers(
            prefixes,
            path,
        )),
    decreases prefixes.len(),
{
    if prefixes.len() > 0 {
        let rest = prefixes.drop_last();
        let prefix = prefixes.last();
        let before = select_from(root, rest);
        select_from_covers(root, rest, path);
        covers_last(prefixes, path);
        if prefix.is_prefix_of(root) {
            covers_push(before, root, path);
            if root.is_prefix_of(path) {
                prefix_of_prefix(prefix, root, path);
            }
        } else if root.is_prefix_of(prefix) {
            covers_push(before, prefix, path);
            if prefix.is_prefix_of(path) {
                prefix_of_prefix(root, prefix, path);
            }
        } else if root.is_prefix_of(path) && prefix.is_prefix_of(path) {
            if root.len() <= prefix.len() {
                prefixes_nest(root, prefix, path);
            } else {
                prefixes_nest(prefix, root, path);
            }
        }
    }
}

proof fn covers_push(
    prefixes: Seq<Seq<Seq<char>>>,
    prefix: Seq<Seq<char>>,
    path: Seq<Seq<char>>,
)
    ensures
        covers(prefixes.push(prefix), path) == (covers(prefixes, path) || prefix.is_prefix_of(
            path,
        )),
{
    let all = prefixes.push(prefix);
    if covers(prefixes, path) {
        let i = choose|i: int|
            0 <= i < prefixes.len() && (#[trigger] prefixes[i]).is_prefix_of(path);
        assert(all[i].is_prefix_of(path));
    }
    if prefix.is_prefix_of(path) {
        assert(all[prefixes.len() as int].is_prefix_of(path));
    }
    if covers(all, path) {
        let i = choose|i: int| 0 <= i < all.len() && (#[trigger] all[i]).is_prefix_of(path);
        if i < prefixes.len() {
            assert(prefixes[i].is_prefix_of(path));
        }
    }
}

proof fn covers_last(prefixes: Seq<Seq<Seq<char>>>, path: Seq<Seq<char>>)
    requires
        prefixes.len() > 0,
    ensures
        covers(prefixes, path) == (covers(prefixes.drop_last(), path)
            || prefixes.last().is_prefix_of(path)),
{
    assert(prefixes =~= prefixes.drop_last().push(prefixes.last()));
    covers_push(prefixes.drop_last(), prefixes.last(), path);
}

proof fn covers_append(
    a: Seq<Seq<Seq<char>>>,
    b: Seq<Seq<Seq<char>>>,
    path: Seq<Seq<char>>,
)
    ensures
        covers(a + b, path) == (covers(a, path) || covers(b, path)),
    decreases b.len(),
{
    if b.len() == 0 {
        assert(a + b =~= a);
    } else {
        assert((a + b).drop_last() =~= a + b.drop_last());
        covers_last(a + b, path);
        covers_last(b, path);
        covers_append(a, b.drop_last(), path);
    }
}

/// Restricting a scope allows exactly what both the scope and the prefixes allow.
pub proof fn selecting_intersects(
    roots: Seq<Seq<Seq<char>>>,
    prefixes: Seq<Seq<Seq<char>>>,
    path: Seq<Seq<char>>,
)
    ensures
        covers(selected(roots, prefixes), path) == (covers(roots, path) && covers(prefixes, path)),
    decreases roots.len(),
{
    if roots.len() > 0 {
        selecting_intersects(roots.drop_last(), prefixes, path);
        select_from_covers(roots.last(), prefixes, path);
        covers_append(
            selected(roots.drop_last(), prefixes),
            select_from(roots.last(), prefixes),
            path,
        );
        covers_last(roots, path);
    }
}

/// Re-rooting a scope allows a path exactly where the scope allows it below the new root.
pub proof fn rooting_shifts(
    roots: Seq<Seq<Seq<char>>>,
    new_root: Seq<Seq<char>>,
    path: Seq<Seq<char>>,
)
    ensures
        covers(rooted(roots, new_root), path) == covers(roots, new_root + path),
    decreases roots.len(),
{
    if roots.len() > 0 {
        let rest = roots.drop_last();
        let root = roots.last();
        let before = rooted(rest, new_root);
        rooting_shifts(rest, new_root, path);
        covers_last(roots, new_root + path);
        let full = new_root + path;
        assert(new_root.is_prefix_of(full)) by {
            assert(new_root =~= full.take(new_root.len() as int));
        }
        if new_root.is_prefix_of(root) {
            let suffix = root.skip(new_root.len() as int);
            covers_push(before, suffix, path);
            assert(root =~= new_root + suffix) by {
                assert(new_root =~= root.take(new_root.len() as int));
            }
            if suffix.is_prefix_of(path) {
                assert(root =~= full.take(root.len() as int)) by {
                    assert(suffix =~= path.take(suffix.len() as int));
                }
            }
            if root.is_prefix_of(full) {
                assert(suffix =~= path.take(suffix.len() as int)) by {
                    assert(root =~= full.take(root.len() as int));
                    assert forall|i: int| 0 <= i < suffix.len() implies suffix[i] == path[i] by {
                        assert(root[i + new_root.len()] == full[i + new_root.len()]);
                    }
                }
            }
        } else if root.is_prefix_of(new_root) {
            covers_push(before, seq![], path);
            prefix_of_prefix(root, new_root, full);
            assert(Seq::<Seq<char>>::empty() =~= path.take(0));
        } else if root.is_prefix_of(full) {
            if root.len() <= new_root.len() {
                prefixes_nest(root, new_root, full);
            } else {
                prefixes_nest(new_root, root, full);
            }
        }
    }
}

proof fn outside_covers(kept: Seq<Seq<Seq<char>>>, prefix: Seq<Seq<char>>, path: Seq<Seq<char>>)
    ensures
        covers(outside(kept, prefix), path) ==> covers(kept, path),
        covers(kept, path) ==> covers(outside(kept, prefix), path) || prefix.is_prefix_of(path),
    decreases kept.len(),
{
    reveal(Seq::filter);
    if kept.len() > 0 {
        outside_covers(kept.drop_last(), prefix, path);
        covers_last(kept, path);
        let before = outside(kept.drop_last(), prefix);
        if !prefix.is_prefix_of(kept.last()) {
            covers_push(before, kept.last(), path);
        } else if kept.last().is_prefix_of(path) {
            prefix_of_prefix(prefix, kept.last(), path);
        }
    }
}

/// Dropping duplicate and overlapping prefixes allows the same paths.
pub proof fn minimal_covers_the_same(prefixes: Seq<Seq<Seq<char>>>, path: Seq<Seq<char>>)
    ensures
        covers(minimal(prefixes), path) == covers(prefixes, path),
    decreases prefixes.len(),
{
    if prefixes.len() > 0 {
        let kept = minimal(prefixes.drop_last());
        let prefix = prefixes.last();
        minimal_covers_the_same(prefixes.drop_last(), path);
        covers_last(prefixes, path);
        if redundant(kept, prefix) {
            if prefix.is_prefix_of(path) {
                let i = choose|i: int|
                    0 <= i < kept.len() && (#[trigger] kept[i]).is_prefix_of(prefix);
                prefix_of_prefix(kept[i], prefix, path);
                assert(kept[i].is_prefix_of(path));
            }
        } else {
            outside_covers(kept, prefix, path);
            covers_push(outside(kept, prefix), prefix, path);
        }
    }
}

/// Whether no two paths overlap.
pub open spec fn apart(paths: Seq<Seq<Seq<char>>>) -> bool {
    forall|i: int, j: int|
        0 <= i < paths.len() && 0 <= j < paths.len() && i != j
            ==> !(#[trigger] paths[i]).is_prefix_of(#[trigger] paths[j])
}

/// Every minimal prefix is one of the prefixes.
pub proof fn minimal_from(prefixes: Seq<Seq<Seq<char>>>, k: int)
    requires
        0 <= k < minimal(prefixes).len(),
    ensures
        exists|m: int| 0 <= m < prefixes.len() && #[trigger] prefixes[m] == minimal(prefixes)[k],
    decreases prefixes.len(),
{
    let rest = prefixes.drop_last();
    let kept = minimal(rest);
    let prefix = prefixes.last();
    if redundant(kept, prefix) {
        minimal_from(rest, k);
        let m = choose|m: int| 0 <= m < rest.len() && #[trigger] rest[m] == kept[k];
        assert(prefixes[m] == minimal(prefixes)[k]);
    } else {
        let left = outside(kept, prefix);
        if k < left.len() {
            outside_from(kept, prefix, k);
            let j = choose|j: int| 0 <= j < kept.len() && #[trigger] kept[j] == left[k];
            minimal_from(rest, j);
            let m = choose|m: int| 0 <= m < rest.len() && #[trigger] rest[m] == kept[j];
            assert(prefixes[m] == minimal(prefixes)[k]);
        } else {
            assert(prefixes[prefixes.len() - 1] == minimal(prefixes)[k]);
        }
    }
}

proof fn outside_from(kept: Seq<Seq<Seq<char>>>, prefix: Seq<Seq<char>>, k: int)
    requires
        0 <= k < outside(kept, prefix).len(),
    ensures
        exists|j: int| 0 <= j < kept.len() && #[trigger] kept[j] == outside(kept, prefix)[k],
        !prefix.is_prefix_of(outside(kept, prefix)[k]),
    decreases kept.len(),
{
    reveal(Seq::filter);
    let rest = kept.drop_last();
    let left = outside(rest, prefix);
    if k < left.len() {
        outside_from(rest, prefix, k);
        let j = choose|j: int| 0 <= j < rest.len() && #[trigger] rest[j] == left[k];
        assert(kept[j] == outside(kept, prefix)[k]);
    } else {
        assert(kept[kept.len() - 1] == outside(kept, prefix)[k]);
    }
}

proof fn outside_apart(kept: Seq<Seq<Seq<char>>>, prefix: Seq<Seq<char>>)
    requires
        apart(kept),
    ensures
        apart(outside(kept, prefix)),
    decreases kept.len(),
{
    reveal(Seq::filter);
    if kept.len() > 0 {
        let rest = kept.drop_last();
        assert(apart(rest)) by {
            assert forall|i: int, j: int|
                0 <= i < rest.len() && 0 <= j < rest.len() && i != j implies !(
            #[trigger] rest[i]).is_prefix_of(#[trigger] rest[j]) by {
                assert(!kept[i].is_prefix_of(kept[j]));
            }
        }
        outside_apart(rest, prefix);
        let left = outside(rest, prefix);
        let all = outside(kept, prefix);
        assert forall|i: int, j: int|
            0 <= i < all.len() && 0 <= j < all.len() && i != j implies !(
        #[trigger] all[i]).is_prefix_of(#[trigger] all[j]) by {
            if i < left.len() && j < left.len() {
                assert(!left[i].is_prefix_of(left[j]));
            } else if i < left.len() {
                outside_from(rest, prefix, i);
                let a = choose|a: int| 0 <= a < rest.len() && #[trigger] rest[a] == left[i];
                assert(!kept[a].is_prefix_of(kept[kept.len() - 1]));
            } else {
                outside_from(rest, prefix, j);
                let a = choose|a: int| 0 <= a < rest.len() && #[trigger] rest[a] == left[j];
                assert(!kept[kept.len() - 1].is_prefix_of(kept[a]));
            }
        }
    }
}

/// Minimal prefixes do not overlap.
pub proof fn minimal_apart(prefixes: Seq<Seq<Seq<char>>>)
    ensures
        apart(minimal(prefixes)),
    decreases prefixes.len(),
{
    if prefixes.len() > 0 {
        let kept = minimal(prefixes.drop_last());
        let prefix = prefixes.last();
        minimal_apart(prefixes.drop_last());
        if !redundant(kept, prefix) {
            let left = outside(kept, prefix);
            outside_apart(kept, prefix);
            let all = left.push(prefix);
            assert forall|i: int, j: int|
                0 <= i < all.len() && 0 <= j < all.len() && i != j implies !(
            #[trigger] all[i]).is_prefix_of(#[trigger] all[j]) by {
                if i < left.len() && j < left.len() {
                    assert(!left[i].is_prefix_of(left[j]));
                } else if i < left.len() {
                    outside_from(kept, prefix, i);
                    let a = choose|a: int| 0 <= a < kept.len() && #[trigger] kept[a] == left[i];
                    assert(!kept[a].is_prefix_of(prefix));
                } else {
                    outside_from(kept, prefix, j);
                }
            }
        }
    }
}

/// A scope covers what lies below one of its prefixes, the prefix itself included, and nothing
/// else.
pub proof fn scope_covers_what_is_below(
    prefixes: Seq<Seq<Seq<char>>>,
    i: int,
    rest: Seq<Seq<char>>,
    path: Seq<Seq<char>>,
)
    ensures
        0 <= i < prefixes.len() ==> covers(prefixes, prefixes[i] + rest),
        covers(prefixes, path) ==> exists|k: int|
            0 <= k < prefixes.len() && (#[trigger] prefixes[k]).len() <= path.len() && path.take(
                prefixes[k].len() as int,
            ) == prefixes[k],
        prefixes.len() == 0 ==> !covers(prefixes, path),
{
    if 0 <= i < prefixes.len() {
        assert(prefixes[i] =~= (prefixes[i] + rest).subrange(0, prefixes[i].len() as int));
        assert(prefixes[i].is_prefix_of(prefixes[i] + rest));
    }
    if covers(prefixes, path) {
        let k = choose|k: int|
            0 <= k < prefixes.len() && (#[trigger] prefixes[k]).is_prefix_of(path);
        assert(path.take(prefixes[k].len() as int) =~= prefixes[k]);
    }
}

} // verus!
