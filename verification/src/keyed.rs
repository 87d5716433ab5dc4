//! A map keyed by text, paths or numbers.

use vstd::prelude::*;

use crate::path::Path;

verus! {

/// A value that can key a [`KeyMap`].
pub trait Key: Sized {
    /// What makes two keys the same.
    type Id;

    /// What makes two keys the same.
    spec fn id(&self) -> Self::Id;

    /// Whether two keys are the same.
    fn same_key(&self, other: &Self) -> (r: bool)
        ensures
            r == (self.id() == other.id()),
    ;

    /// Another copy of the key.
    fn copy_key(&self) -> (r: Self)
        ensures
            r.id() == self.id(),
    ;
}

impl Key for u64 {
    type Id = u64;

    open spec fn id(&self) -> u64 {
        *self
    }

    fn same_key(&self, other: &u64) -> (r: bool) {
        *self == *other
    }

    fn copy_key(&self) -> (r: u64) {
        *self
    }
}

impl Key for String {
    type Id = Seq<char>;

    open spec fn id(&self) -> Seq<char> {
        self@
    }

    fn same_key(&self, other: &String) -> (r: bool) {
        *self == *other
    }

    fn copy_key(&self) -> (r: String) {
        self.clone()
    }
}

impl Key for Path {
    type Id = Seq<Seq<char>>;

    open spec fn id(&self) -> Seq<Seq<char>> {
        self@
    }

    fn same_key(&self, other: &Path) -> (r: bool) {
        self.same(other)
    }

    fn copy_key(&self) -> (r: Path) {
        self.clone()
    }
}

/// A map from keys to values.
pub struct KeyMap<K: Key, V> {
    slots: Vec<(K, V)>,
}

impl<K: Key, V> View for KeyMap<K, V> {
    type V = Map<K::Id, V>;

    closed spec fn view(&self) -> Map<K::Id, V> {
        map_of(self.ids(), self.values())
    }
}

spec fn map_of<I, V>(ids: Seq<I>, values: Seq<V>) -> Map<I, V> {
    Map::new(|id: I| ids.contains(id), |id: I| values[ids.index_of(id)])
}

impl<K: Key, V> KeyMap<K, V> {
    spec fn ids(&self) -> Seq<K::Id> {
        self.slots@.map_values(|slot: (K, V)| slot.0.id())
    }

    spec fn values(&self) -> Seq<V> {
        self.slots@.map_values(|slot: (K, V)| slot.1)
    }

    #[verifier::type_invariant]
    spec fn well_formed(&self) -> bool {
        self.ids().no_duplicates()
    }

    /// The empty map.
    pub fn new() -> (r: KeyMap<K, V>)
        ensures
            r@ == Map::<K::Id, V>::empty(),
    {
        let r: KeyMap<K, V> = KeyMap { slots: Vec::new() };
        assert(r@ =~= Map::<K::Id, V>::empty());
        r
    }

    /// The position of a key.
    fn find(&self, key: &K) -> (r: Option<usize>)
        ensures
            match r {
                Some(i) => i < self.slots@.len() && self.slots@[i as int].0.id() == key.id()
                    && self@.contains_key(key.id()) && self@[key.id()] == self.slots@[i as int].1
                    && self.ids().index_of(key.id()) == i,
                None => !self@.contains_key(key.id()),
            },
    {
        proof {
            use_type_invariant(self);
        }
        let mut i: usize = 0;
        while i < self.slots.len()
            invariant
                i <= self.slots.len(),
                self.ids().no_duplicates(),
                forall|j: int| 0 <= j < i ==> self.ids()[j] != key.id(),
            decreases self.slots.len() - i,
        {
            assert(self.ids()[i as int] == self.slots@[i as int].0.id());
            if self.slots[i].0.same_key(key) {
                proof {
                    let ids = self.ids();
                    assert(ids.contains(key.id()));
                    let at = ids.index_of(key.id());
                    assert(ids[at] == ids[i as int]);
                }
                return Some(i);
            }
            i += 1;
        }
        None
    }

    /// The keys, in some order.
    pub closed spec fn order(&self) -> Seq<K::Id> {
        self.ids()
    }

    /// The number of entries. Each key stands once in [`Self::order`].
    pub fn len(&self) -> (r: usize)
        ensures
            r == self@.dom().len(),
            self@.dom().finite(),
            r == self.order().len(),
            self.order().no_duplicates(),
            self.order().to_set() == self@.dom(),
    {
        proof {
            use_type_invariant(self);
            let ids = self.ids();
            assert(self@.dom() =~= ids.to_set());
            ids.unique_seq_to_set();
        }
        self.slots.len()
    }

    /// The entry at position `i` of [`Self::order`].
    pub fn nth(&self, i: usize) -> (r: (&K, &V))
        requires
            i < self.order().len(),
        ensures
            r.0.id() == self.order()[i as int],
            self@.contains_key(r.0.id()),
            *r.1 == self@[r.0.id()],
    {
        proof {
            use_type_invariant(self);
            let ids = self.ids();
            assert(ids[i as int] == self.slots@[i as int].0.id());
            assert(ids.contains(ids[i as int]));
            assert(ids.index_of(ids[i as int]) == i);
            assert(self.values()[i as int] == self.slots@[i as int].1);
        }
        let slot: &(K, V) = &self.slots[i];
        (&slot.0, &slot.1)
    }

    /// Whether there are no entries.
    pub fn is_empty(&self) -> (r: bool)
        ensures
            r == (self@ == Map::<K::Id, V>::empty()),
    {
        let r: bool = self.slots.len() == 0;
        proof {
            if r {
                assert(self@ =~= Map::<K::Id, V>::empty());
            } else {
                assert(self.ids().contains(self.ids()[0]));
                assert(self@.contains_key(self.ids()[0]));
            }
        }
        r
    }

    /// Whether the key has an entry.
    pub fn contains(&self, key: &K) -> (r: bool)
        ensures
            r == self@.contains_key(key.id()),
    {
        self.find(key).is_some()
    }

    /// The value of a key.
    pub fn get(&self, key: &K) -> (r: Option<&V>)
        ensures
            match r {
                Some(value) => self@.contains_key(key.id()) && self@[key.id()] == *value,
                None => !self@.contains_key(key.id()),
            },
    {
        match self.find(key) {
            Some(i) => Some(&self.slots[i].1),
            None => None,
        }
    }

    /// Set the value of a key, returning the value it had.
    pub fn insert(&mut self, key: K, value: V) -> (r: Option<V>)
        ensures
            final(self)@ == old(self)@.insert(key.id(), value),
            match r {
                Some(before) => old(self)@.contains_key(key.id()) && old(self)@[key.id()] == before,
                None => !old(self)@.contains_key(key.id()),
            },
    {
        let r: Option<V> = self.remove(&key);
        proof {
            use_type_invariant(&*self);
        }
        let ghost middle = self@;
        let ghost ids = self.ids();
        let ghost values = self.values();
        let ghost id = key.id();
        let ghost added = value;
        let mut slots: Vec<(K, V)> = Vec::new();
        std::mem::swap(&mut slots, &mut self.slots);
        slots.push((key, value));
        proof {
            let after = slots@.map_values(|slot: (K, V)| slot.0.id());
            assert(after =~= ids.push(id));
            assert(!middle.contains_key(id));
            assert(middle.contains_key(id) == ids.contains(id));
            assert forall|a: int, b: int|
                0 <= a < after.len() && 0 <= b < after.len() && a != b implies after[a]
                != after[b] by {
                if a == ids.len() {
                    assert(ids.contains(ids[b]));
                } else if b == ids.len() {
                    assert(ids.contains(ids[a]));
                }
            }
        }
        self.slots = slots;
        proof {
            assert(self.ids() =~= ids.push(id));
            assert(self.values() =~= values.push(added));
            map_of_push(ids, values, id, added);
            assert(self@ =~= middle.insert(id, added));
            assert(middle.insert(id, added) =~= old(self)@.insert(id, added));
        }
        r
    }

    /// Drop the entry of a key, returning its value.
    pub fn remove(&mut self, key: &K) -> (r: Option<V>)
        ensures
            final(self)@ == old(self)@.remove(key.id()),
            match r {
                Some(before) => old(self)@.contains_key(key.id()) && old(self)@[key.id()] == before,
                None => !old(self)@.contains_key(key.id()),
            },
    {
        proof {
            use_type_invariant(&*self);
        }
        let ghost ids = self.ids();
        let ghost values = self.values();
        match self.find(key) {
            None => {
                assert(self@ =~= old(self)@.remove(key.id()));
                None
            },
            Some(i) => {
                let mut slots: Vec<(K, V)> = Vec::new();
                std::mem::swap(&mut slots, &mut self.slots);
                let (_, value): (K, V) = slots.remove(i);
                proof {
                    let after = slots@.map_values(|slot: (K, V)| slot.0.id());
                    assert(after =~= ids.remove(i as int));
                }
                self.slots = slots;
                proof {
                    assert(self.ids() =~= ids.remove(i as int));
                    assert(self.values() =~= values.remove(i as int));
                    map_of_remove(ids, values, i as int);
                    assert(self@ =~= old(self)@.remove(key.id()));
                }
                Some(value)
            },
        }
    }
}

proof fn map_of_push<I, V>(ids: Seq<I>, values: Seq<V>, id: I, value: V)
    requires
        ids.no_duplicates(),
        ids.len() == values.len(),
        !ids.contains(id),
    ensures
        map_of(ids.push(id), values.push(value)) == map_of(ids, values).insert(id, value),
{
    let left = map_of(ids.push(id), values.push(value));
    let right = map_of(ids, values).insert(id, value);
    assert forall|k: I| left.contains_key(k) == right.contains_key(k) by {
        if ids.contains(k) {
            let i = ids.index_of(k);
            assert(ids.push(id)[i] == k);
        }
        if ids.push(id).contains(k) && k != id {
            let i = ids.push(id).index_of(k);
            assert(ids[i] == k);
        }
        assert(ids.push(id)[ids.len() as int] == id);
    }
    assert forall|k: I| left.contains_key(k) implies left[k] == right[k] by {
        let i = ids.push(id).index_of(k);
        assert(ids.push(id)[i] == k);
        if k != id {
            assert(ids[i] == k);
            let j = ids.index_of(k);
            assert(ids[j] == k);
            assert(i == j);
        } else {
            if i < ids.len() {
                assert(ids[i] == id);
                assert(ids.contains(id));
            }
        }
    }
    assert(left =~= right);
}

proof fn map_of_remove<I, V>(ids: Seq<I>, values: Seq<V>, at: int)
    requires
        ids.no_duplicates(),
        ids.len() == values.len(),
        0 <= at < ids.len(),
    ensures
        ids.remove(at).no_duplicates(),
        map_of(ids.remove(at), values.remove(at)) == map_of(ids, values).remove(ids[at]),
{
    let less = ids.remove(at);
    let left = map_of(less, values.remove(at));
    let right = map_of(ids, values).remove(ids[at]);
    assert forall|k: I| left.contains_key(k) == right.contains_key(k) by {
        if less.contains(k) {
            let i = less.index_of(k);
            assert(less[i] == k);
            if i < at {
                assert(ids[i] == k);
            } else {
                assert(ids[i + 1] == k);
            }
        }
        if ids.contains(k) && k != ids[at] {
            let i = ids.index_of(k);
            if i < at {
                assert(less[i] == k);
            } else {
                assert(less[i - 1] == k);
            }
        }
    }
    assert forall|k: I| left.contains_key(k) implies left[k] == right[k] by {
        let i = less.index_of(k);
        assert(less[i] == k);
        let j = ids.index_of(k);
        assert(ids[j] == k);
        if i < at {
            assert(ids[i] == k);
            assert(i == j);
        } else {
            assert(ids[i + 1] == k);
            assert(i + 1 == j);
        }
    }
    assert(left =~= right);
}

} // verus!
