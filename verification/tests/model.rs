use moq_net::coding::Decode;
use moq_net::error::Error;
use moq_net::lite::Version;
use moq_net::model::bandwidth;
use moq_net::model::channels::Channels;
use moq_net::model::compression::Compression;
use moq_net::model::origin::{Origin, OriginList, TooManyOrigins, MAX_HOPS};
use moq_net::model::subscription::{combine, Subscription};
use moq_net::model::weak_cache::{WeakCache, GC_PROBE};
use moq_net::poll::Poll;

#[test]
fn none_roundtrip() {
    let data = b"the quick brown fox";
    let c = Compression::Verbatim;
    let packed = c.compress(data);
    assert_eq!(&packed, data);
    assert_eq!(c.decompress(&packed).unwrap(), data);
}

#[test]
fn deflate_roundtrip() {
    // Highly compressible input so we can assert the codec actually shrinks it.
    let data = vec![b'a'; 4096];
    let c = Compression::Deflate;
    let packed = c.compress(&data);
    assert!(packed.len() < data.len(), "deflate should shrink repetitive data");
    assert_eq!(c.decompress(&packed).unwrap(), data);
}

#[test]
fn deflate_empty() {
    let c = Compression::Deflate;
    let packed = c.compress(&[]);
    assert_eq!(c.decompress(&packed).unwrap(), Vec::<u8>::new());
}

#[test]
fn decompress_rejects_garbage() {
    let c = Compression::Deflate;
    assert!(matches!(c.decompress(b"not a deflate stream"), Err(Error::Decompress)));
}

#[test]
fn code_roundtrip() {
    for c in [Compression::Verbatim, Compression::Deflate] {
        assert_eq!(Compression::from_code(c.to_code()).unwrap(), c);
    }
    assert!(Compression::from_code(99).is_err());
}

#[test]
fn origin_rejects_reserved_ids() {
    assert!(Origin::new(0).is_err());
    assert!(Origin::new(1u64 << 62).is_err());
    assert_eq!(Origin::new(1).unwrap().id(), 1);

    let mut zero = [0u8].as_slice();
    assert_eq!(Origin::decode(&mut zero, Version::Lite05).unwrap(), Origin::unknown());
}

#[test]
fn origin_list_push_fails_at_limit() {
    let mut list = OriginList::new();
    for _ in 0..MAX_HOPS {
        list.push(Origin::random()).unwrap();
    }
    assert_eq!(list.len(), MAX_HOPS);
    assert!(matches!(list.push(Origin::random()), Err(TooManyOrigins { .. })));
}

#[test]
fn origin_list_replace_first() {
    let mut list = OriginList::new();
    for _ in 0..3 {
        list.push(Origin::unknown()).unwrap();
    }

    // Rewrites only the first placeholder, keeping the length the same.
    assert!(list.replace_first(Origin::unknown(), Origin::new(7).unwrap()));
    assert_eq!(
        list.as_slice(),
        &[Origin::new(7).unwrap(), Origin::unknown(), Origin::unknown()]
    );

    // No match leaves the list untouched.
    assert!(!list.replace_first(Origin::new(99).unwrap(), Origin::new(8).unwrap()));
    assert_eq!(list.len(), 3);
}

#[test]
fn origin_list_try_from_vec_enforces_limit() {
    let under: Vec<Origin> = (0..MAX_HOPS).map(|_| Origin::random()).collect();
    assert!(OriginList::try_from_vec(under).is_ok());

    let over: Vec<Origin> = (0..MAX_HOPS + 1).map(|_| Origin::random()).collect();
    assert!(matches!(OriginList::try_from_vec(over), Err(TooManyOrigins { .. })));
}

#[test]
fn random_origins_are_valid_and_differ() {
    let a = Origin::random();
    let b = Origin::random();
    assert!(a.id() > 0 && a.id() < 1u64 << 53);
    assert_ne!(a, b);
}

#[test]
fn combined_ordered_stays_ordered_for_multiple_ordered_viewers() {
    let subscription = Subscription::default().with_ordered(true);

    let combined = combine(&vec![subscription.clone(), subscription.clone(), subscription]).unwrap();

    assert!(combined.ordered);
}

#[test]
fn combined_any_unordered_viewer_disables_ordered() {
    let unordered = Subscription::default().with_ordered(false);
    let ordered = Subscription::default().with_ordered(true);

    let combined = combine(&vec![unordered, ordered]).unwrap();

    assert!(!combined.ordered);
}

#[test]
fn combined_group_start_uses_earliest_explicit_start() {
    let live = Subscription::default().with_group_start(None);
    let catchup = Subscription::default().with_group_start(Some(10));
    let older_catchup = Subscription::default().with_group_start(Some(5));

    let combined = combine(&vec![live, catchup, older_catchup]).unwrap();

    assert_eq!(combined.group_start, Some(5));
}

#[test]
fn combined_group_end_keeps_live_subscription_unbounded() {
    let live = Subscription::default().with_group_end(None);
    let bounded = Subscription::default().with_group_end(Some(10));

    let combined = combine(&vec![live, bounded]).unwrap();

    assert_eq!(combined.group_end, None);
}

#[test]
fn combined_group_end_uses_latest_bounded_end() {
    let early = Subscription::default().with_group_end(Some(10));
    let late = Subscription::default().with_group_end(Some(20));

    let combined = combine(&vec![early, late]).unwrap();

    assert_eq!(combined.group_end, Some(20));
}

#[test]
fn get_drops_closed() {
    let mut closed = Channels::new();
    let mut cache: WeakCache<String> = WeakCache::new();
    let a = "a".to_string();
    cache.insert(a.clone(), 1, &closed);
    assert!(cache.get(&a, &closed).is_some());

    closed.insert(1);
    assert!(cache.get(&a, &closed).is_none(), "a closed entry must not resolve");
    assert_eq!(cache.len(), 0, "the closed entry is dropped on lookup");
}

#[test]
fn remove_prunes_ring() {
    // An explicit remove must free the handle from the ring too, not just the map, so a batch of
    // removes with no follow-up insert doesn't pin the handles until GC runs.
    let closed = Channels::new();
    let mut cache: WeakCache<String> = WeakCache::new();
    cache.insert("a".to_string(), 1, &closed);
    cache.insert("b".to_string(), 2, &closed);
    assert_eq!(cache.ring_len(), 2);

    assert!(cache.remove(&"a".to_string()).is_some());
    assert_eq!(cache.len(), 1);
    assert_eq!(cache.ring_len(), 1, "remove must prune the ring, not just the map");
    assert!(cache.remove(&"a".to_string()).is_none(), "already removed");
}

#[test]
fn distinct_one_shot_paths_stay_bounded() {
    // Many distinct keys, each served once and closed, and never requested again. Amortized GC
    // must keep the map bounded rather than growing per key.
    let mut closed = Channels::new();
    let mut cache: WeakCache<u64> = WeakCache::new();
    for i in 0..1000 {
        cache.insert(i, i, &closed);
        closed.insert(i);
    }
    assert!(cache.len() <= GC_PROBE + 1, "map grew unbounded: {}", cache.len());
    assert!(
        cache.ring_len() <= GC_PROBE + 1,
        "ring grew unbounded: {}",
        cache.ring_len()
    );
}

#[test]
fn same_key_churn_does_not_leak() {
    // Re-serving the same key with a fresh handle after the old one closed leaves a stale twin in
    // the ring. GC must discard it; a key-only ring would keep rotating the twin forever (it
    // points at a now-live key) and grow without bound.
    let mut closed = Channels::new();
    let mut cache: WeakCache<String> = WeakCache::new();
    for i in 0..1000 {
        cache.insert("hot".to_string(), i, &closed);
        closed.insert(i);
    }
    assert_eq!(cache.len(), 1, "one key must map to at most one entry");
    assert!(
        cache.ring_len() <= 2,
        "superseded twins must not accumulate: {}",
        cache.ring_len()
    );
}

#[test]
fn insert_dedups_live_replaces_closed() {
    let mut closed = Channels::new();
    let mut cache: WeakCache<String> = WeakCache::new();
    let a = "a".to_string();
    assert!(
        cache.insert(a.clone(), 1, &closed).is_none(),
        "first insert takes the slot"
    );

    // A live entry is kept: the racing insert gets it back and is not applied.
    let existing = cache.insert(a.clone(), 2, &closed).expect("live entry returned");
    assert_eq!(existing, 1, "the existing live entry wins");
    assert_eq!(cache.get(&a, &closed).expect("still present"), 1);

    // Once the live entry closes, the name is free and a fresh insert replaces it.
    closed.insert(1);
    assert!(cache.insert(a.clone(), 3, &closed).is_none(), "closed entry is replaced");
    assert_eq!(cache.get(&a, &closed).expect("present"), 3);
}

/// An unavailable estimate and a dead producer must not look alike: a caller holds its rate for
/// the former and stops watching for the latter.
#[test]
fn closed_is_distinct_from_unavailable() {
    let mut producer = bandwidth::Producer::new();
    let mut consumer = producer.consume();

    producer.set(Some(1_000_000)).unwrap();
    assert_eq!(consumer.poll_changed(&producer), Poll::Ready(Ok(Some(1_000_000))));

    // Live, but the estimate went away (e.g. disconnected): still watchable.
    producer.set(None).unwrap();
    assert_eq!(consumer.poll_changed(&producer), Poll::Ready(Ok(None)));

    // Gone for good.
    producer.abort(Error::Cancel).unwrap();
    assert!(matches!(consumer.poll_changed(&producer), Poll::Ready(Err(Error::Cancel))));
    // And it stays terminal rather than flapping back to a value.
    assert!(matches!(consumer.poll_changed(&producer), Poll::Ready(Err(Error::Cancel))));
}
