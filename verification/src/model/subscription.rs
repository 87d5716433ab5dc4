//! Subscriber-side preferences, and the aggregate that a publisher sees.

use vstd::prelude::*;

use crate::model::time::Duration;
use crate::poll::Poll;

verus! {

/// Subscriber-side preferences for receiving a track.
///
/// Each subscriber holds its own [`Subscription`]; the publisher observes an
/// aggregate across all live subscribers. A subscriber can change its preferences
/// after the fact.
#[derive(Clone, Copy, Debug, PartialEq, Eq, Structural)]
#[non_exhaustive]
pub struct Subscription {
    /// Delivery priority. Higher values preempt lower ones when bandwidth is constrained.
    pub priority: u8,
    /// Whether groups are prioritized in sequence order. Groups may always arrive
    /// out-of-order (or not at all) over the network. Defaults to `false`; the
    /// aggregate is ordered only when every live subscriber asks for it.
    pub ordered: bool,
    /// How long to wait for a group before skipping it once a newer group has
    /// arrived. Zero skips immediately (e.g. group 8 arriving means group 7 is skipped);
    /// a larger value tolerates that much reordering before giving up on the older group.
    pub stale: Duration,
    /// First group to deliver, or `None` to start at the latest group.
    pub group_start: Option<u64>,
    /// Last group to deliver (inclusive), or `None` for no end.
    pub group_end: Option<u64>,
}

impl Default for Subscription {
    fn default() -> (r: Subscription)
        ensures
            r == Subscription::spec_default(),
            r.priority == 0,
            !r.ordered,
            r.stale.nanos == 0,
            r.group_start is None,
            r.group_end is None,
    {
        Subscription {
            priority: 0,
            ordered: false,
            stale: Duration::zero(),
            group_start: None,
            group_end: None,
        }
    }
}

impl Subscription {
    /// The preferences of a subscriber that states none.
    pub open spec fn spec_default() -> Subscription {
        Subscription {
            priority: 0,
            ordered: false,
            stale: Duration { nanos: 0 },
            group_start: None,
            group_end: None,
        }
    }

    /// Set the delivery priority, returning `self` for chaining.
    pub fn with_priority(self, priority: u8) -> (r: Subscription)
        ensures
            r == (Subscription { priority, ..self }),
    {
        Subscription { priority, ..self }
    }

    /// Set whether groups are prioritized in sequence order, returning `self` for
    /// chaining. Groups may always arrive out-of-order (or not at all) over the network.
    pub fn with_ordered(self, ordered: bool) -> (r: Subscription)
        ensures
            r == (Subscription { ordered, ..self }),
    {
        Subscription { ordered, ..self }
    }

    /// Set how long to wait for a group before skipping it, returning `self` for chaining.
    pub fn with_stale(self, stale: Duration) -> (r: Subscription)
        ensures
            r == (Subscription { stale, ..self }),
    {
        Subscription { stale, ..self }
    }

    /// Set the first group to deliver, returning `self` for chaining.
    pub fn with_group_start(self, group_start: Option<u64>) -> (r: Subscription)
        ensures
            r == (Subscription { group_start, ..self }),
    {
        Subscription { group_start, ..self }
    }

    /// Set the last group to deliver (inclusive), returning `self` for chaining.
    pub fn with_group_end(self, group_end: Option<u64>) -> (r: Subscription)
        ensures
            r == (Subscription { group_end, ..self }),
    {
        Subscription { group_end, ..self }
    }

    /// The least demanding subscription that covers both.
    pub open spec fn merged(self, other: Subscription) -> Subscription {
        Subscription {
            priority: if self.priority >= other.priority {
                self.priority
            } else {
                other.priority
            },
            ordered: self.ordered && other.ordered,
            stale: if self.stale.nanos >= other.stale.nanos {
                self.stale
            } else {
                other.stale
            },
            group_start: earliest(self.group_start, other.group_start),
            group_end: latest_end(self.group_end, other.group_end),
        }
    }

    /// Fold this subscription into the running aggregate: Ready with the merged
    /// result when it demands more than `combined`, Pending when it's a subset
    /// (so callers can skip a redundant broadcast of the same aggregate).
    pub fn poll_combined(&self, combined: &Option<Subscription>) -> (r: Poll<Subscription>)
        ensures
            r == match *combined {
                None => Poll::Ready(*self),
                Some(combined) => if self.merged(combined) == combined {
                    Poll::Pending
                } else {
                    Poll::Ready(self.merged(combined))
                },
            },
            r is Pending <==> (*combined matches Some(combined) && covers(combined, *self)),
            r matches Poll::Ready(all) ==> covers(all, *self) && (*combined matches Some(combined)
                ==> covers(all, combined)),
    {
        match combined {
            None => Poll::Ready(*self),
            Some(combined) => {
                let merged: Subscription = Subscription {
                    priority: if self.priority >= combined.priority {
                        self.priority
                    } else {
                        combined.priority
                    },
                    ordered: self.ordered && combined.ordered,
                    stale: if self.stale.nanos >= combined.stale.nanos {
                        self.stale
                    } else {
                        combined.stale
                    },
                    group_start: min_some(self.group_start, combined.group_start),
                    group_end: max_unbounded(self.group_end, combined.group_end),
                };
                if merged != *combined {
                    Poll::Ready(merged)
                } else {
                    Poll::Pending
                }
            },
        }
    }
}

/// The earlier of two explicit starts; a start where only one is explicit.
pub open spec fn earliest(a: Option<u64>, b: Option<u64>) -> Option<u64> {
    match (a, b) {
        (Some(a), Some(b)) => Some(
            if a <= b {
                a
            } else {
                b
            },
        ),
        (Some(a), None) => Some(a),
        (None, b) => b,
    }
}

/// The later of two ends; none where either is unbounded.
pub open spec fn latest_end(a: Option<u64>, b: Option<u64>) -> Option<u64> {
    match (a, b) {
        (Some(a), Some(b)) => Some(
            if a >= b {
                a
            } else {
                b
            },
        ),
        _ => None,
    }
}

/// The earlier of two explicit starts; a start where only one is explicit.
pub fn min_some(a: Option<u64>, b: Option<u64>) -> (r: Option<u64>)
    ensures
        r == earliest(a, b),
{
    match (a, b) {
        (Some(a), Some(b)) => Some(
            if a <= b {
                a
            } else {
                b
            },
        ),
        (Some(a), None) => Some(a),
        (None, b) => b,
    }
}

/// The later of two ends; none where either is unbounded.
pub fn max_unbounded(a: Option<u64>, b: Option<u64>) -> (r: Option<u64>)
    ensures
        r == latest_end(a, b),
{
    match (a, b) {
        (Some(a), Some(b)) => Some(
            if a >= b {
                a
            } else {
                b
            },
        ),
        _ => None,
    }
}

/// The aggregate of all subscriptions: the least demanding one that covers each.
pub open spec fn aggregate(subscriptions: Seq<Subscription>) -> Option<Subscription>
    decreases subscriptions.len(),
{
    if subscriptions.len() == 0 {
        None
    } else {
        match aggregate(subscriptions.drop_last()) {
            None => Some(subscriptions.last()),
            Some(combined) => Some(subscriptions.last().merged(combined)),
        }
    }
}

/// Aggregate subscriptions into the most demanding request.
pub fn combine(subscriptions: &Vec<Subscription>) -> (r: Option<Subscription>)
    ensures
        r == aggregate(subscriptions@),
{
    let mut combined: Option<Subscription> = None;
    let mut i: usize = 0;
    assert(subscriptions@.take(0) =~= seq![]);
    while i < subscriptions.len()
        invariant
            i <= subscriptions.len(),
            combined == aggregate(subscriptions@.take(i as int)),
        decreases subscriptions.len() - i,
    {
        assert(subscriptions@.take(i + 1).drop_last() =~= subscriptions@.take(i as int));
        match subscriptions[i].poll_combined(&combined) {
            Poll::Ready(merged) => {
                combined = Some(merged);
            },
            Poll::Pending => {},
        }
        i += 1;
    }
    assert(subscriptions@.take(i as int) =~= subscriptions@);
    combined
}

/// Whether the aggregate `all` gives a subscriber what it asked for.
pub open spec fn covers(all: Subscription, one: Subscription) -> bool {
    &&& all.priority >= one.priority
    &&& all.ordered ==> one.ordered
    &&& all.stale.nanos >= one.stale.nanos
    &&& one.group_start matches Some(start) ==> all.group_start matches Some(first) && first
        <= start
    &&& all.group_end matches Some(last) ==> one.group_end matches Some(end) && end <= last
}

/// The aggregate covers every subscriber, and exists exactly if there is one.
pub proof fn aggregate_covers_all(subscriptions: Seq<Subscription>)
    ensures
        aggregate(subscriptions) is Some <==> subscriptions.len() > 0,
        forall|i: int|
            0 <= i < subscriptions.len() ==> covers(
                aggregate(subscriptions)->Some_0,
                #[trigger] subscriptions[i],
            ),
    decreases subscriptions.len(),
{
    if subscriptions.len() > 0 {
        let less = subscriptions.drop_last();
        aggregate_covers_all(less);
        assert forall|i: int| 0 <= i < subscriptions.len() implies covers(
            aggregate(subscriptions)->Some_0,
            #[trigger] subscriptions[i],
        ) by {
            if i < less.len() {
                assert(covers(aggregate(less)->Some_0, less[i]));
                assert(less[i] == subscriptions[i]);
            }
        }
    }
}

/// The order of subscribers does not matter to the merge of two, and merging is
/// associative and idempotent.
pub proof fn merge_laws(a: Subscription, b: Subscription, c: Subscription)
    ensures
        a.merged(b) == b.merged(a),
        a.merged(b.merged(c)) == a.merged(b).merged(c),
        a.merged(a) == a,
{
}

/// The aggregate asks for no more than it has to: whatever covers every subscriber covers it.
pub proof fn aggregate_is_least(subscriptions: Seq<Subscription>, other: Subscription)
    requires
        subscriptions.len() > 0,
        forall|i: int|
            0 <= i < subscriptions.len() ==> covers(other, #[trigger] subscriptions[i]),
    ensures
        covers(other, aggregate(subscriptions)->Some_0),
    decreases subscriptions.len(),
{
    let less = subscriptions.drop_last();
    aggregate_covers_all(less);
    assert(covers(other, subscriptions[subscriptions.len() - 1]));
    if less.len() > 0 {
        assert forall|i: int| 0 <= i < less.len() implies covers(other, #[trigger] less[i]) by {
            assert(less[i] == subscriptions[i]);
        }
        aggregate_is_least(less, other);
    }
}

/// Each preference of the aggregate is that of some subscriber, and it is ordered only where
/// all of them are.
pub proof fn aggregate_is_attained(subscriptions: Seq<Subscription>)
    requires
        subscriptions.len() > 0,
    ensures
        ({
            let all = aggregate(subscriptions)->Some_0;
            &&& exists|i: int|
                0 <= i < subscriptions.len() && (#[trigger] subscriptions[i]).priority
                    == all.priority
            &&& exists|i: int|
                0 <= i < subscriptions.len() && (#[trigger] subscriptions[i]).stale == all.stale
            &&& exists|i: int|
                0 <= i < subscriptions.len() && (#[trigger] subscriptions[i]).group_start
                    == all.group_start
            &&& exists|i: int|
                0 <= i < subscriptions.len() && (#[trigger] subscriptions[i]).group_end
                    == all.group_end
            &&& all.ordered <==> forall|i: int|
                0 <= i < subscriptions.len() ==> (#[trigger] subscriptions[i]).ordered
        }),
    decreases subscriptions.len(),
{
    let less = subscriptions.drop_last();
    let n = subscriptions.len() - 1;
    let all = aggregate(subscriptions)->Some_0;
    let last = subscriptions[n];
    aggregate_covers_all(less);
    if less.len() > 0 {
        aggregate_is_attained(less);
        let before = aggregate(less)->Some_0;
        let p = choose|i: int|
            0 <= i < less.len() && (#[trigger] less[i]).priority == before.priority;
        let q = choose|i: int| 0 <= i < less.len() && (#[trigger] less[i]).stale == before.stale;
        let s = choose|i: int|
            0 <= i < less.len() && (#[trigger] less[i]).group_start == before.group_start;
        let e = choose|i: int|
            0 <= i < less.len() && (#[trigger] less[i]).group_end == before.group_end;
        assert(subscriptions[p] == less[p]);
        assert(subscriptions[q] == less[q]);
        assert(subscriptions[s] == less[s]);
        assert(subscriptions[e] == less[e]);
        assert(all.priority == last.priority || all.priority == before.priority);
        if all.ordered {
            assert forall|i: int| 0 <= i < subscriptions.len() implies (
            #[trigger] subscriptions[i]).ordered by {
                if i < n {
                    assert(less[i] == subscriptions[i]);
                }
            }
        }
        if forall|i: int| 0 <= i < subscriptions.len() ==> (#[trigger] subscriptions[i]).ordered {
            assert forall|i: int| 0 <= i < less.len() implies (#[trigger] less[i]).ordered by {
                assert(less[i] == subscriptions[i]);
            }
        }
    } else {
        assert(subscriptions[n] == all);
    }
}

/// The order in which subscribers came does not matter: the aggregate of the same ones is the
/// same.
pub proof fn aggregate_ignores_order(a: Seq<Subscription>, b: Seq<Subscription>)
    requires
        a.len() > 0,
        a.to_set() == b.to_set(),
    ensures
        aggregate(a) == aggregate(b),
{
    assert(a.to_set().contains(a[0]));
    assert(b.to_set().contains(a[0]));
    aggregate_covers_all(a);
    aggregate_covers_all(b);
    assert forall|i: int| 0 <= i < b.len() implies covers(
        aggregate(a)->Some_0,
        #[trigger] b[i],
    ) by {
        assert(b.to_set().contains(b[i]));
        assert(a.to_set().contains(b[i]));
        let j = a.index_of(b[i]);
        assert(a[j] == b[i]);
    }
    assert forall|i: int| 0 <= i < a.len() implies covers(
        aggregate(b)->Some_0,
        #[trigger] a[i],
    ) by {
        assert(a.to_set().contains(a[i]));
        assert(b.to_set().contains(a[i]));
        let j = b.index_of(a[i]);
        assert(b[j] == a[i]);
    }
    aggregate_is_least(a, aggregate(b)->Some_0);
    aggregate_is_least(b, aggregate(a)->Some_0);
}

} // verus!
