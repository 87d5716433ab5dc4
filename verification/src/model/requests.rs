//! Requests that wait for a handler.

use vstd::prelude::*;

use crate::keyed::Key;

verus! {

/// Pending requests keyed by name, coalescing concurrent requests for one key and waiting
/// for a handler to take them, oldest first.
pub struct Requests<K: Key, V> {
    queue: Vec<(K, V)>,
    handlers: usize,
}

impl<K: Key, V> Requests<K, V> {
    /// The keys that are waited for, oldest first.
    pub closed spec fn ids(&self) -> Seq<K::Id> {
        self.queue@.map_values(|entry: (K, V)| entry.0.id())
    }

    /// The requests, oldest first.
    pub closed spec fn values(&self) -> Seq<V> {
        self.queue@.map_values(|entry: (K, V)| entry.1)
    }

    /// The number of live handlers.
    pub closed spec fn spec_handlers(&self) -> usize {
        self.handlers
    }

    /// No request, and nobody to serve one.
    pub fn new() -> (r: Requests<K, V>)
        ensures
            r.ids() == Seq::<K::Id>::empty(),
            r.values() == Seq::<V>::empty(),
            r.handlers() == 0,
    {
        let r: Requests<K, V> = Requests { queue: Vec::new(), handlers: 0 };
        assert(r.ids() =~= Seq::<K::Id>::empty());
        assert(r.values() =~= Seq::<V>::empty());
        r
    }

    /// The number of live handlers.
    #[verifier::when_used_as_spec(spec_handlers)]
    pub fn handlers(&self) -> (r: usize)
        ensures
            r == self.handlers(),
    {
        self.handlers
    }

    /// Count one more handler.
    pub fn add_handler(&mut self)
        requires
            old(self).handlers() < usize::MAX,
        ensures
            final(self).handlers() == old(self).handlers() + 1,
            final(self).ids() == old(self).ids(),
            final(self).values() == old(self).values(),
    {
        self.handlers = self.handlers + 1;
    }

    /// Count one handler less, and tell whether it was the last.
    pub fn remove_handler(&mut self) -> (r: bool)
        requires
            old(self).handlers() > 0,
        ensures
            final(self).handlers() == old(self).handlers() - 1,
            final(self).ids() == old(self).ids(),
            final(self).values() == old(self).values(),
            r == (final(self).handlers() == 0),
    {
        self.handlers = self.handlers - 1;
        self.handlers == 0
    }

    /// The number of requests that wait.
    pub fn len(&self) -> (r: usize)
        ensures
            r == self.ids().len(),
            r == self.values().len(),
    {
        self.queue.len()
    }

    /// Whether nothing waits.
    pub fn is_empty(&self) -> (r: bool)
        ensures
            r == (self.ids().len() == 0),
            r == (self.values().len() == 0),
    {
        self.queue.len() == 0
    }

    /// The place of the oldest request for `key`.
    pub fn find(&self, key: &K) -> (r: Option<usize>)
        ensures
            match r {
                Some(i) => i < self.ids().len() && self.values().len() == self.ids().len()
                    && self.ids()[i as int] == key.id() && !self.ids().take(i as int).contains(
                    key.id(),
                ),
                None => !self.ids().contains(key.id()),
            },
    {
        let mut i: usize = 0;
        while i < self.queue.len()
            invariant
                i <= self.queue@.len(),
                forall|j: int| 0 <= j < i ==> #[trigger] self.ids()[j] != key.id(),
            decreases self.queue@.len() - i,
        {
            assert(self.ids()[i as int] == self.queue@[i as int].0.id());
            if self.queue[i].0.same_key(key) {
                return Some(i);
            }
            i += 1;
        }
        None
    }

    /// The request at place `i`.
    pub fn at(&mut self, i: usize) -> (r: &mut V)
        requires
            i < old(self).values().len(),
        ensures
            *r == old(self).values()[i as int],
            final(self).values() == old(self).values().update(i as int, *final(r)),
            final(self).ids() == old(self).ids(),
            final(self).handlers() == old(self).handlers(),
    {
        proof {
            let queue = self.queue@;
            assert forall|value: V| ({
                let after = #[trigger] queue.update(i as int, (queue[i as int].0, value));
                &&& after.map_values(|entry: (K, V)| entry.1) == self.values().update(
                    i as int,
                    value,
                )
                &&& after.map_values(|entry: (K, V)| entry.0.id()) == self.ids()
            }) by {
                let after = queue.update(i as int, (queue[i as int].0, value));
                assert(after.map_values(|entry: (K, V)| entry.1) =~= self.values().update(
                    i as int,
                    value,
                ));
                assert(after.map_values(|entry: (K, V)| entry.0.id()) =~= self.ids());
            }
        }
        &mut self.queue[i].1
    }

    /// Add a request, or hand it back if there is no handler to serve it.
    pub fn insert(&mut self, key: K, value: V) -> (r: Result<(), V>)
        ensures
            final(self).handlers() == old(self).handlers(),
            match r {
                Ok(()) => old(self).handlers() > 0 && final(self).ids() == old(self).ids().push(
                    key.id(),
                ) && final(self).values() == old(self).values().push(value),
                Err(back) => old(self).handlers() == 0 && back == value && final(self).ids() == old(
                    self,
                ).ids() && final(self).values() == old(self).values(),
            },
    {
        if self.handlers == 0 {
            return Err(value);
        }
        let ghost id = key.id();
        let ghost added = value;
        self.queue.push((key, value));
        assert(self.ids() =~= old(self).ids().push(id));
        assert(self.values() =~= old(self).values().push(added));
        Ok(())
    }

    /// Take the oldest request.
    pub fn pop(&mut self) -> (r: Option<(K, V)>)
        ensures
            final(self).handlers() == old(self).handlers(),
            match r {
                Some((key, value)) => {
                    &&& old(self).ids().len() > 0
                    &&& old(self).values().len() == old(self).ids().len()
                    &&& key.id() == old(self).ids()[0]
                    &&& value == old(self).values()[0]
                    &&& final(self).ids() == old(self).ids().skip(1)
                    &&& final(self).values() == old(self).values().skip(1)
                },
                None => {
                    &&& old(self).ids().len() == 0
                    &&& final(self).ids() == old(self).ids()
                    &&& final(self).values() == old(self).values()
                },
            },
    {
        if self.queue.len() == 0 {
            return None;
        }
        let ghost before = self.queue@;
        let (key, value): (K, V) = self.queue.remove(0);
        proof {
            assert(old(self).ids()[0] == before[0].0.id());
            assert(old(self).values()[0] == before[0].1);
            assert(self.ids() =~= old(self).ids().skip(1));
            assert(self.values() =~= old(self).values().skip(1));
        }
        Some((key, value))
    }
}

} // verus!
