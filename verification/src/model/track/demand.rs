//! What readers ask of a track: live subscriptions, and fetches of old groups.

use vstd::prelude::*;

use crate::error::Error;
use crate::model::subscription::{combine, Subscription};
use crate::model::track::model::{GroupRequested, TrackModel};
use crate::model::track::state::TrackState;
use crate::poll::Poll;

verus! {

impl TrackState {
    /// Add a subscriber, returning its number.
    pub fn subscribe(&mut self, subscription: Subscription) -> (id: u64)
        requires
            old(self).well_formed(),
            old(self).next_subscription < u64::MAX,
        ensures
            final(self).well_formed(),
            id == old(self)@.next_subscription,
            final(self)@ == old(self)@.subscribed(subscription),
    {
        let id: u64 = self.next_subscription;
        self.subscription_ids.push(id);
        self.subscriptions.push(subscription);
        self.next_subscription = id + 1;
        id
    }

    /// Where subscriber `id` stands among the live ones.
    fn find_subscription(&self, id: u64) -> (r: Option<usize>)
        requires
            self.well_formed(),
        ensures
            r is Some <==> self.subscription_ids@.contains(id),
            r matches Some(i) ==> i < self.subscription_ids@.len() && i
                == self.subscription_ids@.index_of(id) && self.subscription_ids@[i as int] == id,
    {
        let mut i: usize = 0;
        while i < self.subscription_ids.len()
            invariant
                self.well_formed(),
                forall|j: int| 0 <= j < i ==> self.subscription_ids@[j] != id,
            decreases self.subscription_ids@.len() - i,
        {
            if self.subscription_ids[i] == id {
                return Some(i);
            }
            i += 1;
        }
        None
    }

    /// What subscriber `id` asks for.
    pub fn subscription_of(&self, id: u64) -> (r: Option<Subscription>)
        requires
            self.well_formed(),
        ensures
            r == if self@.subscription_ids.contains(id) {
                Some(self@.subscriptions[self@.subscription_ids.index_of(id)])
            } else {
                None
            },
    {
        match self.find_subscription(id) {
            Some(i) => Some(self.subscriptions[i]),
            None => None,
        }
    }

    /// Replace what subscriber `id` asks for.
    pub fn resubscribe(&mut self, id: u64, subscription: Subscription)
        requires
            old(self).well_formed(),
        ensures
            final(self).well_formed(),
            final(self)@ == old(self)@.resubscribed(id, subscription),
    {
        match self.find_subscription(id) {
            Some(i) => {
                self.subscriptions.set(i, subscription);
            },
            None => {},
        }
    }

    /// Remove a subscriber.
    pub fn unsubscribe(&mut self, id: u64)
        requires
            old(self).well_formed(),
        ensures
            final(self).well_formed(),
            final(self)@ == old(self)@.unsubscribed(id),
    {
        match self.find_subscription(id) {
            Some(i) => {
                let _ = self.subscription_ids.remove(i);
                let _ = self.subscriptions.remove(i);
                assert(self.subscription_ids@ == old(self).subscription_ids@.remove(i as int));
            },
            None => {},
        }
    }

    /// What all live subscribers together ask for, or `None` without any.
    pub fn subscription(&self) -> (r: Option<Subscription>)
        ensures
            r == self@.demand(),
    {
        combine(&self.subscriptions)
    }

    /// The aggregate of all live subscriptions, if it differs from `seen`.
    pub fn poll_subscription_changed(&self, seen: &Option<Subscription>) -> (r: Poll<
        Result<Option<Subscription>, Error>,
    >)
        ensures
            r == if self@.closed {
                Poll::Ready(Err(self@.close_error()))
            } else if self@.demand() != *seen {
                Poll::Ready(Ok(self@.demand()))
            } else {
                Poll::Pending
            },
    {
        if self.closed {
            return Poll::Ready(Err(self.close_error()));
        }
        let next: Option<Subscription> = self.subscription();
        let same: bool = match (&next, seen) {
            (Some(a), Some(b)) => *a == *b,
            (None, None) => true,
            _ => false,
        };
        if same {
            Poll::Pending
        } else {
            Poll::Ready(Ok(next))
        }
    }

    /// Ask for a single past group, returning the request's number if it was queued for a
    /// handler.
    ///
    /// A cached group, an unservable sequence or a closed track resolve without a queue
    /// entry.
    pub fn request_group(&mut self, sequence: u64, priority: u8) -> (r: Option<u64>)
        requires
            old(self).well_formed(),
        ensures
            final(self).well_formed(),
            if !old(self)@.closed && old(self)@.fetch(sequence, None) is Pending {
                &&& r == Some(old(self)@.next_fetch)
                &&& final(self)@ == old(self)@.requested(sequence, priority)
            } else {
                &&& r is None
                &&& *final(self) == *old(self)
            },
    {
        if self.closed {
            return None;
        }
        match self.poll_fetch(sequence, None) {
            Poll::Ready(_) => None,
            Poll::Pending => {
                let id: u64 = self.next_fetch;
                self.next_fetch = if id == u64::MAX {
                    0
                } else {
                    id + 1
                };
                self.fetches.push_back(GroupRequested { id, sequence, priority });
                Some(id)
            },
        }
    }

    /// Pop the next queued group fetch.
    pub fn poll_requested_group(&mut self) -> (r: Poll<Result<GroupRequested, Error>>)
        requires
            old(self).well_formed(),
        ensures
            final(self).well_formed(),
            if old(self)@.closed {
                &&& r == Poll::Ready(Err::<GroupRequested, Error>(old(self)@.close_error()))
                &&& final(self)@ == old(self)@
            } else if old(self)@.fetches.len() > 0 {
                &&& r == Poll::Ready(Ok::<GroupRequested, Error>(old(self)@.fetches[0]))
                &&& final(self)@ == (TrackModel {
                    fetches: old(self)@.fetches.skip(1),
                    ..old(self)@
                })
            } else {
                &&& r == match old(self)@.abort {
                    Some(err) => Poll::Ready(Err::<GroupRequested, Error>(err)),
                    None => Poll::Pending,
                }
                &&& final(self)@ == old(self)@
            },
    {
        if self.closed {
            return Poll::Ready(Err(self.close_error()));
        }
        match self.fetches.pop_front() {
            Some(request) => {
                assert(self.fetches@ =~= old(self).fetches@.skip(1));
                Poll::Ready(Ok(request))
            },
            // Nothing is queued: only an abort is worth telling.
            None => match &self.abort {
                Some(err) => Poll::Ready(Err(err.clone())),
                None => Poll::Pending,
            },
        }
    }

    /// Note that a fetch was rejected. The first reason stays.
    pub fn reject_group_request(&mut self, id: u64, err: Error)
        requires
            old(self).well_formed(),
        ensures
            final(self).well_formed(),
            final(self)@ == old(self)@.rejected(id, err),
    {
        if self.closed {
            return;
        }
        if !self.fetch_rejections.contains(&id) {
            let _ = self.fetch_rejections.insert(id, err);
        }
    }

    /// Forget a rejection once it was seen.
    pub fn clear_group_request_rejection(&mut self, id: u64)
        requires
            old(self).well_formed(),
        ensures
            final(self).well_formed(),
            final(self)@ == if old(self)@.closed {
                old(self)@
            } else {
                (TrackModel {
                    fetch_rejections: old(self)@.fetch_rejections.remove(id),
                    ..old(self)@
                })
            },
    {
        if self.closed {
            return;
        }
        let _ = self.fetch_rejections.remove(&id);
    }

    /// Count one more handler of fetches.
    pub fn add_dynamic(&mut self)
        requires
            old(self).well_formed(),
            old(self).dynamic < usize::MAX,
        ensures
            final(self).well_formed(),
            final(self)@ == if old(self)@.closed {
                old(self)@
            } else {
                (TrackModel { dynamic: old(self)@.dynamic + 1, ..old(self)@ })
            },
    {
        if !self.closed {
            self.dynamic = self.dynamic + 1;
        }
    }

    /// Count one handler of fetches less. Unlike a broadcast's, the last one going away
    /// doesn't end the track: a live producer may still be serving the subscription.
    pub fn remove_dynamic(&mut self)
        requires
            old(self).well_formed(),
        ensures
            final(self).well_formed(),
            final(self)@ == if old(self)@.closed || old(self)@.dynamic == 0 {
                old(self)@
            } else {
                (TrackModel { dynamic: (old(self)@.dynamic - 1) as nat, ..old(self)@ })
            },
    {
        if !self.closed && self.dynamic > 0 {
            self.dynamic = self.dynamic - 1;
        }
    }

    /// Count one more reader.
    pub fn add_consumer(&mut self)
        requires
            old(self).well_formed(),
            old(self).consumers < usize::MAX,
        ensures
            final(self).well_formed(),
            final(self)@ == (TrackModel { consumers: old(self)@.consumers + 1, ..old(self)@ }),
    {
        self.consumers = self.consumers + 1;
    }

    /// Count one reader less.
    pub fn remove_consumer(&mut self)
        requires
            old(self).well_formed(),
            old(self).consumers > 0,
        ensures
            final(self).well_formed(),
            final(self)@ == (TrackModel {
                consumers: (old(self)@.consumers - 1) as nat,
                ..old(self)@
            }),
    {
        self.consumers = self.consumers - 1;
    }

    /// Whether there is at least one reader.
    pub fn poll_used(&self) -> (r: Poll<Result<(), Error>>)
        ensures
            r == if self@.closed {
                Poll::Ready(Err(self@.close_error()))
            } else if self@.consumers > 0 {
                Poll::Ready(Ok(()))
            } else {
                Poll::Pending
            },
    {
        if self.closed {
            return Poll::Ready(Err(self.close_error()));
        }
        if self.consumers > 0 {
            Poll::Ready(Ok(()))
        } else {
            Poll::Pending
        }
    }

    /// Whether there is no reader left.
    pub fn poll_unused(&self) -> (r: Poll<Result<(), Error>>)
        ensures
            r == if self@.closed {
                Poll::Ready(Err(self@.close_error()))
            } else if self@.consumers == 0 {
                Poll::Ready(Ok(()))
            } else {
                Poll::Pending
            },
    {
        if self.closed {
            return Poll::Ready(Err(self.close_error()));
        }
        if self.consumers == 0 {
            Poll::Ready(Ok(()))
        } else {
            Poll::Pending
        }
    }
}

} // verus!
