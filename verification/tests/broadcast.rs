use moq_net::error::Error;
use moq_net::model::broadcast::{Consumer, Dynamic, Info, Producer};
use moq_net::model::channels::Channels;
use moq_net::model::route::Route;
use moq_net::model::time::Instant;
use moq_net::model::track;
use moq_net::poll::Poll;

fn now() -> Instant {
    Instant { nanos: 0 }
}

fn ready<T>(poll: Poll<T>) -> T {
    match poll {
        Poll::Ready(value) => value,
        Poll::Pending => panic!("would have blocked"),
    }
}

fn create_track(producer: &mut Producer, name: &str, closed: &Channels) -> track::Producer {
    producer.create_track(name.to_string(), None, closed).unwrap()
}

fn lookup(
    producer: &mut Producer,
    consumer: &Consumer,
    name: &str,
    closed: &Channels,
) -> Result<track::Consumer, Error> {
    consumer.track(&mut producer.state, &name.to_string(), closed)
}

/// Look up a track that is live, and subscribe to it.
fn subscribe_live(
    producer: &mut Producer,
    consumer: &Consumer,
    track: &mut track::Producer,
    closed: &Channels,
) -> track::Subscriber {
    let name = track.name().clone();
    let reader = lookup(producer, consumer, &name, closed).unwrap();
    assert_eq!(reader.channel, track.channel);
    track.state.add_consumer();
    let mut pending = reader.subscribe(&mut track.state, None);
    let subscriber = ready(pending.poll_ok(&mut track.state)).unwrap();
    pending.close(&mut track.state);
    reader.release(&mut track.state);
    subscriber
}

/// Look up a track that nobody publishes.
fn subscribe_pending(
    producer: &mut Producer,
    consumer: &Consumer,
    name: &str,
    closed: &Channels,
) -> track::Consumer {
    let reader = lookup(producer, consumer, name, closed).unwrap();
    let key = name.to_string();
    let place = producer.state.requests.find(&key).expect("the request is queued");
    let request = producer.state.requests.at(place);
    assert_eq!(request.channel, reader.channel);
    assert!(request.state.info.is_none(), "should stay pending until the request is accepted");
    reader
}

fn assert_request(
    producer: &mut Producer,
    dynamic: &Dynamic,
    closed: &Channels,
) -> track::Request {
    ready(dynamic.poll_requested_track(&mut producer.state, closed)).unwrap()
}

fn assert_no_request(producer: &mut Producer, dynamic: &Dynamic, closed: &Channels) {
    assert!(dynamic.poll_requested_track(&mut producer.state, closed).is_pending());
}

fn subscribed(reader: &track::Consumer, track: &mut track::Producer) -> track::Subscriber {
    assert_eq!(reader.channel, track.channel);
    let mut pending = reader.subscribe(&mut track.state, None);
    let subscriber = ready(pending.poll_ok(&mut track.state)).unwrap();
    pending.close(&mut track.state);
    subscriber
}

fn assert_group(subscriber: &mut track::Subscriber, track: &track::Producer) {
    assert!(ready(subscriber.poll_recv_group(&track.state)).unwrap().is_some());
}

/// Demand on an ordinary broadcast tracks subscriber interest, not production: a live track
/// producer alone is unused, and a consumed track is used.
#[test]
fn demand_ordinary() {
    let closed = Channels::new();
    let mut used = Channels::new();
    let mut producer = Info::new().produce(0);
    let consumer = producer.consume();
    let demand = producer.demand();

    // No demand yet; `unused` resolves immediately.
    assert!(!demand.is_used(&producer.state, &used));
    ready(demand.poll_unused(&producer.state, &used)).unwrap();
    assert!(demand.poll_used(&producer.state, &used).is_pending());

    // Producing alone is not demand.
    let mut track = create_track(&mut producer, "a", &closed);
    assert!(!demand.is_used(&producer.state, &used));

    // A consumer appearing wakes a parked `used`.
    let handle = lookup(&mut producer, &consumer, "a", &closed).unwrap();
    track.state.add_consumer();
    used.insert(handle.channel);
    ready(demand.poll_used(&producer.state, &used)).unwrap();
    assert!(demand.is_used(&producer.state, &used));

    // The last consumer dropping wakes a parked `unused`.
    assert!(demand.poll_unused(&producer.state, &used).is_pending());
    used.remove(handle.channel);
    handle.release(&mut track.state);
    assert!(track.poll_unused().is_ready());
    ready(demand.poll_unused(&producer.state, &used)).unwrap();
    assert!(!demand.is_used(&producer.state, &used));

    // Every producer gone: both edges report the closure.
    producer.finish();
    assert!(matches!(ready(demand.poll_used(&producer.state, &used)), Err(Error::Dropped)));
    assert!(matches!(ready(demand.poll_unused(&producer.state, &used)), Err(Error::Dropped)));
}

/// Demand on a spliced (route-fed) broadcast follows the logical tracks' consumers, which is
/// what flips a relay's advertised cost.
#[test]
fn demand_spliced() {
    let closed = Channels::new();
    let mut used = Channels::new();
    let mut producer = Producer::new_spliced(Info::new(), 0);
    let consumer = producer.consume();
    let demand = producer.demand();

    assert!(!demand.is_used(&producer.state, &used));
    let track = lookup(&mut producer, &consumer, "video", &closed).unwrap();
    used.insert(track.channel);
    assert!(demand.is_used(&producer.state, &used));

    // Dropping the only consumer wakes a parked `unused`, even though the logical track itself
    // stays cached in the broadcast.
    assert!(demand.poll_unused(&producer.state, &used).is_pending());
    used.remove(track.channel);
    ready(demand.poll_unused(&producer.state, &used)).unwrap();
    assert!(!demand.is_used(&producer.state, &used));

    // A repeat consumer for the cached track counts again.
    let again = lookup(&mut producer, &consumer, "video", &closed).unwrap();
    assert_eq!(again.channel, track.channel);
    used.insert(again.channel);
    assert!(demand.is_used(&producer.state, &used));

    // The route is asked once to start serving it.
    let (name, channel) = ready(producer.poll_spliced_assigned());
    assert_eq!(name, "video");
    assert_eq!(channel, track.channel);
    assert!(producer.poll_spliced_assigned().is_pending());
    assert_eq!(producer.abort_spliced(), vec![track.channel]);
}

#[test]
fn insert() {
    let closed = Channels::new();
    let mut producer = Info::new().produce(0);

    // Create the track before any consumer exists.
    let mut track1 = create_track(&mut producer, "track1", &closed);
    track1.append_group(now()).unwrap();

    let consumer = producer.consume();

    // The track already exists, so subscribe resolves immediately.
    let mut track1_sub = subscribe_live(&mut producer, &consumer, &mut track1, &closed);
    assert_group(&mut track1_sub, &track1);

    let mut track2 = create_track(&mut producer, "track2", &closed);

    let consumer2 = producer.consume();
    let mut track2_consumer = subscribe_live(&mut producer, &consumer2, &mut track2, &closed);
    assert!(track2_consumer.poll_recv_group(&track2.state).is_pending());

    track2.append_group(now()).unwrap();

    assert_group(&mut track2_consumer, &track2);
}

#[test]
fn closed() {
    let closed = Channels::new();
    let mut producer = Info::new().produce(0);
    let dynamic = producer.dynamic();

    let consumer = producer.consume();
    assert!(consumer.poll_closed(&producer.state).is_pending());

    // Create a new track and insert it into the broadcast (resolves immediately).
    let mut track1 = create_track(&mut producer, "track1", &closed);
    let track1c = subscribe_live(&mut producer, &consumer, &mut track1, &closed);

    // A track nobody publishes stays pending until accepted.
    let track2 = subscribe_pending(&mut producer, &consumer, "track2", &closed);

    // Dropping the last dynamic handler rejects pending requests, but must NOT cascade to
    // externally-owned tracks.
    let mut rejected = dynamic.release(&mut producer.state);

    // track2 was a pending dynamic request, so its subscribe surfaces the rejection.
    assert_eq!(rejected.len(), 1);
    let mut pending = track2.subscribe(&mut rejected[0], None);
    assert!(ready(pending.poll_ok(&mut rejected[0])).is_err());

    // track1's producer is held outside the broadcast, so it survives.
    assert!(!track1.is_closed());
    assert!(track1c.poll_closed(&track1.state).is_pending());
}

#[test]
fn requests() {
    let closed = Channels::new();
    let mut producer = Info::new().produce(0);
    let dynamic = producer.dynamic();
    // Only the handler stays.
    producer.release();

    let consumer = dynamic.consume();
    let consumer2 = consumer.clone();

    // Two subscribers to the same name coalesce into one request.
    let reader1 = subscribe_pending(&mut producer, &consumer, "track1", &closed);
    let reader2 = subscribe_pending(&mut producer, &consumer2, "track1", &closed);

    // There should be exactly one request to serve.
    let request = assert_request(&mut producer, &dynamic, &closed);
    assert_no_request(&mut producer, &dynamic, &closed);
    assert_eq!(request.name(), "track1");

    // Accept it, which resolves both waiting subscribers.
    let mut track3 = request.accept(None);
    let mut track1 = subscribed(&reader1, &mut track3);
    let mut track2 = subscribed(&reader2, &mut track3);

    assert!(track1.poll_closed(&track3.state).is_pending());
    assert!(track1.is_clone(&track2));
    assert!(track3.subscribe(None).is_clone(&track1));

    // Append a group and make sure they all get it.
    track3.append_group(now()).unwrap();
    assert_group(&mut track1, &track3);
    assert_group(&mut track2, &track3);

    // A pending request is cancelled when the dynamic producer is dropped.
    let track4 = subscribe_pending(&mut producer, &consumer, "track2", &closed);
    let mut rejected = dynamic.release(&mut producer.state);
    let mut pending = track4.subscribe(&mut rejected[0], None);
    assert!(ready(pending.poll_ok(&mut rejected[0])).is_err());

    // With no dynamic producer left, requesting the handle fails outright.
    let track5 = lookup(&mut producer, &consumer2, "track3", &closed);
    assert!(track5.is_err(), "should have errored");
}

#[test]
fn stale_producer() {
    let mut closed = Channels::new();
    let mut broadcast = Info::new().produce(0);
    let dynamic = broadcast.dynamic();
    broadcast.release();
    let consumer = dynamic.consume();

    // Subscribe to a track and serve it.
    let reader1 = subscribe_pending(&mut broadcast, &consumer, "track1", &closed);
    let mut producer1 = assert_request(&mut broadcast, &dynamic, &closed).accept(None);
    let track1 = subscribed(&reader1, &mut producer1);

    // Close the producer (simulating publisher disconnect).
    producer1.append_group(now()).unwrap();
    producer1.finish().unwrap();
    producer1.close();
    closed.insert(producer1.channel);

    // The consumer should see the track as closed.
    assert!(track1.poll_closed(&producer1.state).is_ready());

    // Subscribe again to the same track: should get a NEW producer, not the stale one.
    let reader2 = subscribe_pending(&mut broadcast, &consumer, "track1", &closed);
    let mut producer2 = assert_request(&mut broadcast, &dynamic, &closed).accept(None);
    let mut track2 = subscribed(&reader2, &mut producer2);
    assert!(track2.poll_closed(&producer2.state).is_pending());
    assert!(!track2.is_clone(&track1));

    // The new consumer should receive the new group.
    producer2.append_group(now()).unwrap();
    assert_group(&mut track2, &producer2);
}

#[test]
fn requested_unused() {
    let mut closed = Channels::new();
    let mut broadcast = Info::new().produce(0);
    let dynamic = broadcast.dynamic();
    broadcast.release();
    let bc = dynamic.consume();

    // Subscribe to a track that doesn't exist yet, and serve it.
    let reader1 = subscribe_pending(&mut broadcast, &bc, "unknown_track", &closed);
    let mut producer1 = assert_request(&mut broadcast, &dynamic, &closed).accept(None);
    let consumer1 = subscribed(&reader1, &mut producer1);
    reader1.release(&mut producer1.state);

    // The producer should NOT be unused yet because there's a consumer.
    assert!(producer1.poll_unused().is_pending(), "track producer should be used");

    // A second subscriber reuses the live producer (fast path / dedup).
    let consumer2 = subscribe_live(&mut broadcast, &bc, &mut producer1, &closed);
    assert!(consumer2.is_clone(&consumer1));

    consumer1.close(&mut producer1.state);
    assert!(producer1.poll_unused().is_pending(), "track producer should be used");

    consumer2.close(&mut producer1.state);
    assert!(
        producer1.poll_unused().is_ready(),
        "track producer should be unused after all consumers are dropped"
    );

    // While the producer is still alive, re-subscribing to the same name reuses it (no new
    // request). This is what lets the relay linger upstream subscriptions across transient
    // consumer churn.
    let consumer3 = subscribe_live(&mut broadcast, &bc, &mut producer1, &closed);
    let direct = producer1.subscribe(None);
    assert!(consumer3.is_clone(&direct));
    direct.close(&mut producer1.state);
    assert_no_request(&mut broadcast, &dynamic, &closed);
    consumer3.close(&mut producer1.state);

    // Aborting the producer closes its lookup entry; the next subscribe sees the stale entry,
    // evicts it, and creates a fresh request.
    producer1.abort(Error::Cancel).unwrap();
    closed.insert(producer1.channel);

    let reader4 = subscribe_pending(&mut broadcast, &bc, "unknown_track", &closed);
    let mut producer2 = assert_request(&mut broadcast, &dynamic, &closed).accept(None);
    let consumer4 = subscribed(&reader4, &mut producer2);
    reader4.release(&mut producer2.state);
    consumer4.close(&mut producer2.state);
    assert!(
        producer2.poll_unused().is_ready(),
        "new track producer should be unused after its consumer is dropped"
    );
}

// Cloning a `Consumer` resets its route cursor: a clone that inherited the original's
// `route_seen` would skip the initial-value delivery that a change of the route promises.
#[test]
fn route_clone_observes_current_route() {
    let mut producer = Info::new().produce(0);
    let mut consumer = producer.consume();

    // Drain the initial route, and a change.
    ready(consumer.poll_route_changed(&producer.state)).unwrap();
    let route = Route::new().with_cost(7);
    producer.set_route(route.clone()).unwrap();
    assert!(ready(consumer.poll_route_changed(&producer.state)).unwrap().same(&route));

    // The original is fully drained: no update pending.
    assert!(consumer.poll_route_changed(&producer.state).is_pending());

    // A clone starts fresh, yielding the current route immediately.
    let mut clone = consumer.clone();
    let seen = ready(clone.poll_route_changed(&producer.state)).unwrap();
    assert!(seen.same(&route));
    assert_eq!(clone.route(&producer.state).cost, 7);

    // No producer is left to change it.
    producer.release();
    assert!(matches!(
        ready(consumer.poll_route_changed(&producer.state)),
        Err(Error::Dropped)
    ));
}

// Cloning a `Dynamic` and dropping the clone must not flip the handler count to zero.
#[test]
fn broadcast_dynamic_clone_keeps_alive() {
    let closed = Channels::new();
    let mut broadcast = Info::new().produce(0);
    let dynamic = broadcast.dynamic();
    broadcast.release();
    let consumer = dynamic.consume();

    let clone = dynamic.share(&mut broadcast.state);
    assert!(clone.is_clone(&dynamic));
    assert!(clone.release(&mut broadcast.state).is_empty());

    // Original handle is still live, so the request registers (stays pending) instead of
    // failing with NotFound.
    subscribe_pending(&mut broadcast, &consumer, "track1", &closed);
    assert!(dynamic.poll_closed(&broadcast.state).is_pending());
}

#[test]
fn without_a_handler_an_unknown_track_is_not_found() {
    let closed = Channels::new();
    let mut producer = Info::new().produce(0);
    let consumer = producer.consume();
    assert!(matches!(
        lookup(&mut producer, &consumer, "a", &closed),
        Err(Error::NotFound)
    ));
    producer.finish();
    assert!(consumer.is_closed(&producer.state));
    assert!(consumer.is_closing(&producer.state));
    assert!(matches!(
        lookup(&mut producer, &consumer, "a", &closed),
        Err(Error::Dropped)
    ));
}

#[test]
fn a_name_is_taken_while_its_track_lives() {
    let mut closed = Channels::new();
    let mut producer = Info::new().produce(0);
    let track = create_track(&mut producer, "a", &closed);
    assert!(matches!(
        producer.create_track("a".to_string(), None, &closed),
        Err(Error::Duplicate)
    ));
    closed.insert(track.channel);
    assert!(producer.create_track("a".to_string(), None, &closed).is_ok());
    producer.remove_track(&"a".to_string()).unwrap();
    assert!(matches!(
        producer.remove_track(&"a".to_string()),
        Err(Error::NotFound)
    ));
}

#[test]
fn unique_names_skip_the_taken_ones() {
    let closed = Channels::new();
    let mut producer = Info::new().produce(0);
    assert_eq!(producer.unique_name(".mp4"), "0.mp4");
    let first = producer.unique_track(".mp4", None, &closed).unwrap();
    assert_eq!(first.name(), "0.mp4");
    let second = producer.unique_track(".mp4", None, &closed).unwrap();
    assert_eq!(second.name(), "1.mp4");
    let reserved = producer.reserve_track("2.mp4".to_string(), &closed).unwrap();
    assert_eq!(reserved.name(), "2.mp4");
    assert_eq!(producer.unique_name(".mp4"), "3.mp4");
}
