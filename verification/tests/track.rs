use moq_net::coding::Decode;
use moq_net::error::Error;
use moq_net::lite;
use moq_net::model::broadcast;
use moq_net::model::datagram::{Datagram, MAX_DATAGRAM_PAYLOAD};
use moq_net::model::group;
use moq_net::model::subscription::Subscription;
use moq_net::model::time::{Clock, Duration, Instant, Timescale, Timestamp};
use moq_net::model::track::model::MAX_DATAGRAM_AGE_NANOS;
use moq_net::model::track::{Fetch, Info, Producer, Request, Subscriber, TrackState};
use moq_net::poll::Poll;

const SEC: u128 = 1_000_000_000;

/// More than the default cache window.
const PAST_CACHE: u128 = 6 * SEC;

fn at(nanos: u128) -> Instant {
    Instant { nanos }
}

fn now() -> Instant {
    at(0)
}

fn track_producer(info: Option<Info>) -> Producer {
    Producer::new(broadcast::Info::default(), "test".to_string(), info, 0)
}

fn live_groups(producer: &Producer) -> usize {
    producer.state.groups.iter().flatten().count()
}

fn first_live_sequence(producer: &Producer) -> u64 {
    producer.state.groups.iter().flatten().next().unwrap().0.info.sequence
}

fn ready<T>(poll: Poll<T>) -> T {
    match poll {
        Poll::Ready(value) => value,
        Poll::Pending => panic!("would have blocked"),
    }
}

fn recv_datagram(dg: &mut Subscriber, producer: &Producer) -> Datagram {
    ready(dg.poll_recv_datagram(&producer.state)).unwrap().expect("track was closed")
}

fn recv_group(consumer: &mut Subscriber, producer: &Producer) -> u64 {
    let group = ready(consumer.poll_recv_group(&producer.state)).unwrap();
    group.expect("track was closed").info.sequence
}

fn next_group(consumer: &mut Subscriber, producer: &Producer) -> u64 {
    let group = ready(consumer.poll_next_group(&producer.state)).unwrap();
    group.expect("track was closed").info.sequence
}

fn next_group_blocks(consumer: &mut Subscriber, producer: &Producer) -> bool {
    consumer.poll_next_group(&producer.state).is_pending()
}

fn create(producer: &mut Producer, sequence: u64) {
    producer.create_group(group::Info { sequence }, now()).unwrap();
}

fn write_group_frame(producer: &mut Producer, sequence: u64, data: &[u8]) {
    let group = producer.group_mut(sequence).unwrap();
    group.write_frame_now(&Clock::start(), data.to_vec()).unwrap();
}

fn finish_group(producer: &mut Producer, sequence: u64) {
    producer.group_mut(sequence).unwrap().finish().unwrap();
}

fn write_now(producer: &mut Producer, data: &[u8]) {
    producer.write_frame_now(&Clock::start(), data.to_vec(), now()).unwrap();
}

fn read_frame(consumer: &mut Subscriber, producer: &Producer) -> Option<Vec<u8>> {
    ready(consumer.poll_read_frame(&producer.state)).unwrap()
}

#[test]
fn append_datagram_shares_group_sequence() {
    let mut producer = track_producer(None);
    let ts = Timestamp::from_millis(10).unwrap();

    // Interleave groups and datagrams: they draw from one monotonic counter.
    assert_eq!(producer.append_group(now()).unwrap(), 0);
    assert_eq!(producer.append_datagram(ts, b"a".to_vec(), now()).unwrap(), 1);
    assert_eq!(producer.append_group(now()).unwrap(), 2);
    assert_eq!(producer.append_datagram(ts, b"b".to_vec(), now()).unwrap(), 3);
    assert_eq!(producer.latest(), Some(3));
}

#[test]
fn append_datagram_roundtrip() {
    let mut producer = track_producer(None);
    let mut dg = producer.subscribe(None);

    let ts = Timestamp::from_millis(42).unwrap();
    let seq = producer.append_datagram(ts, b"hello".to_vec(), now()).unwrap();

    let got = recv_datagram(&mut dg, &producer);
    assert_eq!(got.sequence, seq);
    assert_eq!(got.timestamp, ts);
    assert_eq!(&got.payload[..], b"hello");
}

#[test]
fn write_datagram_preserves_sequence() {
    let mut producer = track_producer(None);
    let mut dg = producer.subscribe(None);

    let ts = Timestamp::from_millis(5).unwrap();
    // A relay forwarding an upstream datagram keeps its sequence number.
    producer
        .write_datagram(Datagram { sequence: 100, timestamp: ts, payload: b"x".to_vec() }, now())
        .unwrap();

    assert_eq!(recv_datagram(&mut dg, &producer).sequence, 100);
    // The newest advanced, so the next appended group/datagram continues past it.
    assert_eq!(producer.append_group(now()).unwrap(), 101);
}

#[test]
fn recv_datagram_advances_ordered_group_cursor() {
    let mut producer = track_producer(None);
    let mut subscriber = producer.subscribe(None);
    let ts = Timestamp::from_millis(5).unwrap();

    producer
        .write_datagram(Datagram { sequence: 5, timestamp: ts, payload: b"x".to_vec() }, now())
        .unwrap();
    assert_eq!(recv_datagram(&mut subscriber, &producer).sequence, 5);

    create(&mut producer, 3);
    create(&mut producer, 6);

    assert_eq!(next_group(&mut subscriber, &producer), 6);
}

#[test]
fn datagram_normalized_to_track_timescale() {
    let info = Info::default().with_timescale(Timescale::micro());
    let mut producer = track_producer(Some(info));
    let mut dg = producer.subscribe(None);

    // Supplied at millis; stored/emitted at the track's micro timescale.
    producer
        .append_datagram(Timestamp::from_millis(2).unwrap(), b"z".to_vec(), now())
        .unwrap();
    let got = recv_datagram(&mut dg, &producer);
    assert_eq!(got.timestamp.scale(), Timescale::micro());
    assert_eq!(got.timestamp.value(), 2_000);
}

#[test]
fn datagram_rejects_oversized() {
    let mut producer = track_producer(None);
    let big = vec![0u8; MAX_DATAGRAM_PAYLOAD + 1];
    let ts = Timestamp::from_millis(0).unwrap();
    assert!(matches!(
        producer.append_datagram(ts, big.clone(), now()),
        Err(Error::WrongSize)
    ));
    assert!(matches!(
        producer.write_datagram(Datagram { sequence: 0, timestamp: ts, payload: big }, now()),
        Err(Error::WrongSize)
    ));
}

#[test]
fn datagram_fanout_to_subscribers() {
    let mut producer = track_producer(None);
    // Two independent subscribers, each with its own datagram cursor.
    let mut a = producer.subscribe(None);
    let mut b = producer.subscribe(None);
    let ts = Timestamp::from_millis(1).unwrap();

    producer.append_datagram(ts, b"first".to_vec(), now()).unwrap();
    producer.append_datagram(ts, b"second".to_vec(), now()).unwrap();

    // Both receive every datagram in order, independently.
    assert_eq!(&recv_datagram(&mut a, &producer).payload[..], b"first");
    assert_eq!(&recv_datagram(&mut a, &producer).payload[..], b"second");
    assert_eq!(&recv_datagram(&mut b, &producer).payload[..], b"first");
    assert_eq!(&recv_datagram(&mut b, &producer).payload[..], b"second");
}

#[test]
fn datagram_evicts_stale() {
    let mut producer = track_producer(None);
    let mut dg = producer.subscribe(None);
    let ts = Timestamp::from_millis(0).unwrap();

    producer.append_datagram(ts, b"old".to_vec(), now()).unwrap(); // sequence 0

    // Age past the send-buffer window, and push a fresh datagram: the stale one is evicted.
    let later = at(MAX_DATAGRAM_AGE_NANOS + 10_000_000);
    producer.append_datagram(ts, b"new".to_vec(), later).unwrap(); // sequence 1

    // A lagging consumer resumes at the oldest still-buffered datagram (the fresh one).
    let got = recv_datagram(&mut dg, &producer);
    assert_eq!(got.sequence, 1);
    assert_eq!(&got.payload[..], b"new");
}

#[test]
fn datagram_recv_pends_until_written() {
    let mut producer = track_producer(None);
    let mut dg = producer.subscribe(None);

    assert!(
        dg.poll_recv_datagram(&producer.state).is_pending(),
        "should block with no datagrams"
    );

    producer
        .append_datagram(Timestamp::from_millis(0).unwrap(), b"go".to_vec(), now())
        .unwrap();
    assert_eq!(&recv_datagram(&mut dg, &producer).payload[..], b"go");
}

/// Exercises the full producer -> publisher-encode -> subscriber-decode -> producer seam
/// (everything but the QUIC datagram send/recv), catching any field-order mismatch between the
/// wire codec and the model.
#[test]
fn datagram_wire_roundtrip_between_tracks() {
    let version = lite::Version::Lite05;

    // Origin publishes a datagram; the publisher reads it and encodes the wire body.
    let mut origin = track_producer(None);
    let mut origin_dg = origin.subscribe(None);
    let ts = Timestamp::from_millis(7).unwrap();
    let seq = origin.append_datagram(ts, b"payload".to_vec(), now()).unwrap();

    let d = recv_datagram(&mut origin_dg, &origin);
    let body = lite::Datagram {
        subscribe: 5,
        sequence: d.sequence,
        timestamp: d.timestamp.value(),
        payload: d.payload.clone(),
    }
    .encode_bytes(version)
    .unwrap();

    // Subscriber decodes the body and writes it downstream, preserving the sequence.
    let mut slice = &body[..];
    let wire = lite::Datagram::decode(&mut slice, version).unwrap();
    let mut downstream = track_producer(None);
    let mut downstream_dg = downstream.subscribe(None);
    downstream
        .write_datagram(
            Datagram {
                sequence: wire.sequence,
                timestamp: Timestamp::new(wire.timestamp, Timescale::milli()).unwrap(),
                payload: wire.payload,
            },
            now(),
        )
        .unwrap();

    let got = recv_datagram(&mut downstream_dg, &downstream);
    assert_eq!(got.sequence, seq);
    assert_eq!(got.timestamp, ts);
    assert_eq!(&got.payload[..], b"payload");
}

#[test]
fn evict_expired_groups() {
    let mut producer = track_producer(None);

    // Create 3 groups at time 0.
    producer.append_group(now()).unwrap(); // seq 0
    producer.append_group(now()).unwrap(); // seq 1
    producer.append_group(now()).unwrap(); // seq 2

    assert_eq!(live_groups(&producer), 3);
    assert_eq!(producer.state.offset, 0);

    // Past the eviction threshold, append a new group to trigger eviction.
    producer.append_group(at(PAST_CACHE)).unwrap(); // seq 3

    // Groups 0, 1, 2 are expired but seq 3 (the newest) is kept.
    // Leading tombstones are trimmed, so only seq 3 remains.
    assert_eq!(live_groups(&producer), 1);
    assert_eq!(first_live_sequence(&producer), 3);
    assert_eq!(producer.state.offset, 3);
    assert!(!producer.state.duplicates.contains(&0));
    assert!(!producer.state.duplicates.contains(&1));
    assert!(!producer.state.duplicates.contains(&2));
    assert!(producer.state.duplicates.contains(&3));
}

#[test]
fn evict_keeps_max_sequence() {
    let mut producer = track_producer(None);
    producer.append_group(now()).unwrap(); // seq 0

    // Append another group; seq 0 is expired and evicted.
    producer.append_group(at(PAST_CACHE)).unwrap(); // seq 1

    assert_eq!(live_groups(&producer), 1);
    assert_eq!(first_live_sequence(&producer), 1);
    assert_eq!(producer.state.offset, 1);
}

#[test]
fn an_evicted_group_tells_its_readers() {
    let mut producer = track_producer(None);
    producer.append_group(now()).unwrap(); // seq 0
    let mut reader = producer.state.cached_group(0).unwrap();
    producer.append_group(at(PAST_CACHE)).unwrap(); // seq 1
    assert_eq!(producer.state.retired.len(), 1);
    let retired = &producer.state.retired[0];
    assert!(matches!(
        ready(reader.poll_read_frame(&retired.state)),
        Err(Error::Old)
    ));
}

#[test]
fn no_eviction_when_fresh() {
    let mut producer = track_producer(None);
    producer.append_group(now()).unwrap(); // seq 0
    producer.append_group(now()).unwrap(); // seq 1
    producer.append_group(now()).unwrap(); // seq 2

    assert_eq!(live_groups(&producer), 3);
    assert_eq!(producer.state.offset, 0);
}

#[test]
fn consumer_skips_evicted_groups() {
    let mut producer = track_producer(None);
    producer.append_group(now()).unwrap(); // seq 0

    let mut consumer = producer.subscribe(None);

    producer.append_group(at(PAST_CACHE)).unwrap(); // seq 1

    // Group 0 was evicted. Consumer should get group 1.
    assert_eq!(recv_group(&mut consumer, &producer), 1);
}

#[test]
fn cache_age_controls_eviction() {
    // A shorter cache evicts sooner than the default.
    let mut producer = track_producer(Some(Info::default().with_cache(Duration::from_secs(1))));
    producer.append_group(now()).unwrap(); // seq 0

    // Past the custom cache but well within the default.
    producer.append_group(at(2 * SEC)).unwrap(); // seq 1

    // Seq 0 is gone because the publisher only keeps groups for 1s.
    assert_eq!(live_groups(&producer), 1);
    assert_eq!(first_live_sequence(&producer), 1);
}

#[test]
fn stale_clamped_to_cache() {
    let mut producer = track_producer(Some(Info::default().with_cache(Duration::from_secs(2))));

    // A stale window beyond the cache is capped to the cache; a group can't be waited for longer
    // than the publisher keeps it.
    let mut subscriber =
        producer.subscribe(Some(Subscription::default().with_stale(Duration::from_secs(10))));
    assert_eq!(subscriber.subscription().stale, Duration::from_secs(2));

    // A window within the cache is left alone, and zero (skip immediately) stays zero.
    subscriber.update(
        &mut producer.state,
        Subscription::default().with_stale(Duration::from_millis(500)),
    );
    assert_eq!(subscriber.subscription().stale, Duration::from_millis(500));

    subscriber.update(&mut producer.state, Subscription::default().with_stale(Duration::zero()));
    assert_eq!(subscriber.subscription().stale, Duration::zero());
}

#[test]
fn out_of_order_max_sequence_at_front() {
    let mut producer = track_producer(None);

    // Arrive out of order: seq 5 first, and 3 and 4 after it.
    create(&mut producer, 5);
    create(&mut producer, 3);
    create(&mut producer, 4);

    // The newest is 5, which is at the front.
    assert_eq!(producer.state.max_sequence, Some(5));

    // Expire all three groups, and append seq 6 (the new newest).
    producer.append_group(at(PAST_CACHE)).unwrap(); // seq 6

    // Seq 3, 4, 5 are all expired. Seq 5 was the newest but now 6 is.
    // All old groups are evicted.
    assert_eq!(live_groups(&producer), 1);
    assert_eq!(first_live_sequence(&producer), 6);
    assert!(!producer.state.duplicates.contains(&3));
    assert!(!producer.state.duplicates.contains(&4));
    assert!(!producer.state.duplicates.contains(&5));
    assert!(producer.state.duplicates.contains(&6));
}

#[test]
fn max_sequence_at_front_blocks_trim() {
    let mut producer = track_producer(None);

    // Arrive: seq 5, and seq 3 later.
    create(&mut producer, 5);

    // Seq 3 arrives late; the newest is still 5 (at front).
    producer.create_group(group::Info { sequence: 3 }, at(PAST_CACHE)).unwrap();

    // Seq 5 is the newest (protected). Seq 3 is not expired (just created).
    // Nothing should be evicted.
    assert_eq!(live_groups(&producer), 2);
    assert_eq!(producer.state.offset, 0);

    // Expire seq 3 as well. Seq 2 arrives late, triggering eviction.
    producer.create_group(group::Info { sequence: 2 }, at(2 * PAST_CACHE)).unwrap();

    // Seq 5 is still the newest (protected, at front, blocks trim).
    // Seq 3 is expired, so it is a tombstone. Seq 2 is fresh, so it is kept.
    assert_eq!(live_groups(&producer), 2);
    assert_eq!(producer.state.offset, 0);
    assert!(producer.state.duplicates.contains(&5));
    assert!(!producer.state.duplicates.contains(&3));
    assert!(producer.state.duplicates.contains(&2));

    // Consumer should still be able to read through the hole: it starts at the first group that
    // is not a tombstone, seq 5.
    let mut consumer = producer.subscribe(None);
    assert_eq!(recv_group(&mut consumer, &producer), 5);
}

#[test]
fn abort_clears_cached_groups() {
    let mut producer = track_producer(None);
    producer.append_group(now()).unwrap();
    producer.append_group(now()).unwrap();

    // A stale consumer that never drains must not pin the cached groups.
    let mut consumer = producer.subscribe(None);
    assert_eq!(live_groups(&producer), 2);

    producer.abort(Error::Cancel).unwrap();

    assert!(producer.state.groups.is_empty(), "cached groups should be dropped on abort");
    assert!(producer.state.duplicates.is_empty());

    // The consumer now surfaces the abort error rather than the leftover cache.
    let result = ready(consumer.poll_recv_group(&producer.state));
    assert!(matches!(result, Err(Error::Cancel)));
}

#[test]
fn drop_unfinished_clears_cached_groups() {
    let mut producer = track_producer(None);
    producer.append_group(now()).unwrap();

    // A stale consumer keeps the channel (and thus the cache) alive.
    let mut consumer = producer.subscribe(None);
    assert_eq!(live_groups(&producer), 1);

    // Every producer is gone without finishing: the cache is released.
    producer.close();

    let result = ready(consumer.poll_recv_group(&producer.state));
    assert!(matches!(result, Err(Error::Dropped)));
}

#[test]
fn drop_finished_keeps_cached_groups() {
    let mut producer = track_producer(None);
    producer.append_group(now()).unwrap();
    producer.finish().unwrap();

    let mut consumer = producer.subscribe(None);
    producer.close();

    // A cleanly finished track keeps its cache so the consumer can still drain.
    assert_eq!(recv_group(&mut consumer, &producer), 0);
    let done = ready(consumer.poll_recv_group(&producer.state)).unwrap();
    assert!(done.is_none(), "consumer should drain and see a clean finish");
}

#[test]
fn append_finish_cannot_be_rewritten() {
    let mut producer = track_producer(None);

    // Finishing an empty track is valid (fin = 0, total groups = 0).
    assert!(producer.finish().is_ok());
    assert!(producer.finish().is_err());
    assert!(producer.append_group(now()).is_err());
}

#[test]
fn finish_after_groups() {
    let mut producer = track_producer(None);

    producer.append_group(now()).unwrap();
    assert!(producer.finish().is_ok());
    assert!(producer.finish().is_err());
    assert!(producer.append_group(now()).is_err());
}

#[test]
fn insert_finish_validates_sequence_and_freezes_to_max() {
    let mut producer = track_producer(None);
    create(&mut producer, 5);

    assert!(producer.finish_at(4).is_err());
    assert!(producer.finish_at(10).is_err());
    assert!(producer.finish_at(5).is_ok());

    assert_eq!(producer.state.final_sequence, Some(6));

    assert!(producer.finish_at(5).is_err());
    assert!(producer.create_group(group::Info { sequence: 4 }, now()).is_ok());
    assert!(producer.create_group(group::Info { sequence: 5 }, now()).is_err());
}

#[test]
fn recv_group_finishes_without_waiting_for_gaps() {
    let mut producer = track_producer(None);
    create(&mut producer, 1);
    producer.finish_at(1).unwrap();

    let mut consumer = producer.subscribe(None);
    assert_eq!(recv_group(&mut consumer, &producer), 1);

    let done = ready(consumer.poll_recv_group(&producer.state)).unwrap();
    assert!(done.is_none(), "track should finish without waiting for gaps");
}

#[test]
fn next_group_skips_late_arrivals() {
    let mut producer = track_producer(None);
    let mut consumer = producer.subscribe(None);

    // Seq 5 arrives first.
    create(&mut producer, 5);
    assert_eq!(next_group(&mut consumer, &producer), 5);

    // Seq 3 arrives late: skipped because 3 <= 5.
    create(&mut producer, 3);
    // Seq 4 arrives late: also skipped.
    create(&mut producer, 4);
    // Seq 7 arrives: returned.
    create(&mut producer, 7);

    assert_eq!(next_group(&mut consumer, &producer), 7);

    // No more groups: would block.
    assert!(
        next_group_blocks(&mut consumer, &producer),
        "should block waiting for a higher sequence"
    );
}

#[test]
fn next_group_returns_arrivals_in_order() {
    let mut producer = track_producer(None);
    let mut consumer = producer.subscribe(None);

    // Seq 3 arrives first, and seq 5 after it: both should be returned in arrival order.
    create(&mut producer, 3);
    create(&mut producer, 5);

    assert_eq!(next_group(&mut consumer, &producer), 3);
    assert_eq!(next_group(&mut consumer, &producer), 5);
}

#[test]
fn next_group_and_recv_group_use_independent_cursors() {
    let mut producer = track_producer(None);
    let mut consumer = producer.subscribe(None);

    // Out-of-order arrivals: seq 5 first, and seq 3 after it.
    create(&mut producer, 5);
    create(&mut producer, 3);

    // Sequence order returns the smallest sequence first, regardless of arrival order.
    assert_eq!(next_group(&mut consumer, &producer), 3);

    // Arrival order uses an independent cursor, so it still starts at the first arrival.
    assert_eq!(recv_group(&mut consumer, &producer), 5);
}

#[test]
fn end_at_caps_next_group() {
    let mut producer = track_producer(None);
    let mut consumer = producer.subscribe(None);

    for s in 0..6 {
        create(&mut producer, s);
    }

    consumer.end_at(Some(2));

    // Groups 0, 1, 2 are within the cap.
    assert_eq!(next_group(&mut consumer, &producer), 0);
    assert_eq!(next_group(&mut consumer, &producer), 1);
    assert_eq!(next_group(&mut consumer, &producer), 2);

    // Group 3 is beyond the cap: the read parks even though cached groups exist.
    assert!(
        next_group_blocks(&mut consumer, &producer),
        "capped consumer must block instead of returning out-of-range groups"
    );
}

#[test]
fn end_at_release_drains_cached_groups() {
    let mut producer = track_producer(None);
    let mut consumer = producer.subscribe(None);

    for s in 0..6 {
        create(&mut producer, s);
    }

    consumer.end_at(Some(1));
    assert_eq!(next_group(&mut consumer, &producer), 0);
    assert_eq!(next_group(&mut consumer, &producer), 1);
    assert!(next_group_blocks(&mut consumer, &producer), "capped at 1");

    // Raise the cap; previously-blocked cached groups become available again.
    consumer.end_at(Some(4));
    assert_eq!(next_group(&mut consumer, &producer), 2);
    assert_eq!(next_group(&mut consumer, &producer), 3);
    assert_eq!(next_group(&mut consumer, &producer), 4);
    assert!(next_group_blocks(&mut consumer, &producer), "capped at 4");

    // Remove the cap; everything remaining flows.
    consumer.end_at(None);
    assert_eq!(next_group(&mut consumer, &producer), 5);
    assert!(next_group_blocks(&mut consumer, &producer), "no more groups");
}

#[test]
fn end_at_lower_than_cursor_parks_consumer() {
    let mut producer = track_producer(None);
    let mut consumer = producer.subscribe(None);

    for s in 0..3 {
        create(&mut producer, s);
    }

    // Drain everything with no cap.
    assert_eq!(next_group(&mut consumer, &producer), 0);
    assert_eq!(next_group(&mut consumer, &producer), 1);
    assert_eq!(next_group(&mut consumer, &producer), 2);

    // Lower the cap below the cursor. New groups beyond the cap are blocked.
    consumer.end_at(Some(1));
    create(&mut producer, 3);
    create(&mut producer, 4);
    assert!(
        next_group_blocks(&mut consumer, &producer),
        "cap is below cursor; nothing returnable until cap rises"
    );

    // Restoring the cap to no-limit (or any value >= cursor) releases them.
    consumer.end_at(None);
    assert_eq!(next_group(&mut consumer, &producer), 3);
    assert_eq!(next_group(&mut consumer, &producer), 4);
}

#[test]
fn end_at_toggling_around_late_arrivals() {
    let mut producer = track_producer(None);
    let mut consumer = producer.subscribe(None);

    consumer.end_at(Some(5));

    // Out-of-order arrivals all within the cap.
    create(&mut producer, 2);
    create(&mut producer, 5);
    create(&mut producer, 3);
    // One beyond the cap; should be held even though it arrived in the middle.
    create(&mut producer, 8);
    create(&mut producer, 4);

    // The read walks in sequence order through everything <= cap.
    assert_eq!(next_group(&mut consumer, &producer), 2);
    assert_eq!(next_group(&mut consumer, &producer), 3);
    assert_eq!(next_group(&mut consumer, &producer), 4);
    assert_eq!(next_group(&mut consumer, &producer), 5);
    // Now blocked: 8 is still beyond the cap.
    assert!(next_group_blocks(&mut consumer, &producer));

    // Raise the cap; cached seq 8 is finally served.
    consumer.end_at(Some(10));
    assert_eq!(next_group(&mut consumer, &producer), 8);
}

#[test]
fn read_frame_returns_single_frame_per_group() {
    let mut producer = track_producer(None);
    let mut consumer = producer.subscribe(None);

    write_now(&mut producer, b"hello");
    write_now(&mut producer, b"world");

    assert_eq!(read_frame(&mut consumer, &producer).unwrap(), b"hello");
    assert_eq!(read_frame(&mut consumer, &producer).unwrap(), b"world");
}

#[test]
fn read_frame_skips_stalled_group_for_newer_ready_frame() {
    let mut producer = track_producer(None);
    let mut consumer = producer.subscribe(None);

    // Seq 3: group open, no frame yet (stalled).
    create(&mut producer, 3);
    // Seq 5: fully-written group with a frame.
    create(&mut producer, 5);
    write_group_frame(&mut producer, 5, b"later");
    finish_group(&mut producer, 5);

    // The read should not block on the stalled seq 3: it returns seq 5's frame.
    assert_eq!(read_frame(&mut consumer, &producer).unwrap(), b"later");
}

#[test]
fn read_frame_discards_rest_of_multi_frame_group() {
    let mut producer = track_producer(None);
    let mut consumer = producer.subscribe(None);

    // Group 0 has two frames; only the first is returned.
    create(&mut producer, 0);
    write_group_frame(&mut producer, 0, b"one");
    write_group_frame(&mut producer, 0, b"two");
    finish_group(&mut producer, 0);

    // Group 1 is a normal single-frame group.
    write_now(&mut producer, b"next");

    assert_eq!(read_frame(&mut consumer, &producer).unwrap(), b"one");

    // The second frame of group 0 is discarded; the next read jumps to group 1.
    assert_eq!(read_frame(&mut consumer, &producer).unwrap(), b"next");
}

#[test]
fn read_frame_waits_for_pending_group_after_finish() {
    // finish() sets the final sequence, but groups already created with lower sequences can still
    // produce frames. The read must not return None prematurely.
    let mut producer = track_producer(None);
    let mut consumer = producer.subscribe(None);

    create(&mut producer, 0);
    producer.finish().unwrap();

    // Track is finished but group 0 has no frame yet: must block, not return None.
    assert!(
        consumer.poll_read_frame(&producer.state).is_pending(),
        "the read must block on a pending group even after finish()"
    );

    // A late frame on the pending group is still delivered.
    write_group_frame(&mut producer, 0, b"late");
    assert_eq!(read_frame(&mut consumer, &producer).unwrap(), b"late");
}

#[test]
fn read_frame_respects_start_at() {
    // start_at sets the minimum; the read must skip groups below it.
    let mut producer = track_producer(None);
    let mut consumer = producer.subscribe(None);
    consumer.start_at(5);

    // Seq 3 has a frame but is below the minimum: must be skipped.
    create(&mut producer, 3);
    write_group_frame(&mut producer, 3, b"skip-me");
    finish_group(&mut producer, 3);

    create(&mut producer, 5);
    write_group_frame(&mut producer, 5, b"keep");
    finish_group(&mut producer, 5);

    assert_eq!(read_frame(&mut consumer, &producer).unwrap(), b"keep");
}

#[test]
fn read_frame_returns_none_when_finished() {
    let mut producer = track_producer(None);
    let mut consumer = producer.subscribe(None);

    write_now(&mut producer, b"only");
    producer.finish().unwrap();

    assert_eq!(read_frame(&mut consumer, &producer).unwrap(), b"only");
    assert!(read_frame(&mut consumer, &producer).is_none());
}

#[test]
fn get_group_finishes_without_waiting_for_gaps() {
    let mut producer = track_producer(None);
    create(&mut producer, 1);
    producer.finish_at(1).unwrap();

    let consumer = producer.subscribe(None);
    // Group 0 is below the final sequence and could still arrive.
    assert!(
        consumer.poll_get_group(&producer.state, 0).is_pending(),
        "sequence below fin should block (group could still arrive)"
    );
    assert!(
        ready(consumer.poll_get_group(&producer.state, 2)).unwrap().is_none(),
        "sequence at-or-after fin should not exist"
    );
}

#[test]
fn append_group_returns_bounds_exceeded_on_sequence_overflow() {
    let mut producer = track_producer(None);
    producer.state.max_sequence = Some(u64::MAX);

    assert!(matches!(producer.append_group(now()), Err(Error::BoundsExceeded(_))));
}

fn read_group(producer: &Producer, reader: &mut group::Consumer) -> Vec<u8> {
    let group = producer.state.group(reader.info.sequence).unwrap();
    ready(reader.poll_read_frame(&group.state)).unwrap().unwrap()
}

fn fetched(fetch: &Fetch, state: &mut TrackState) -> Result<group::Consumer, Error> {
    ready(fetch.poll(state))
}

#[test]
fn fetch_cache_hit() {
    let mut producer = track_producer(None);

    // Produce a cached group.
    producer.append_group(now()).unwrap(); // seq 0
    write_group_frame(&mut producer, 0, b"hello");
    finish_group(&mut producer, 0);

    // A cached group resolves immediately and never queues a request.
    let dynamic = producer.dynamic();
    let consumer = producer.consume();
    assert!(consumer.get_group(&producer.state, 0).is_some());
    let fetch = consumer.fetch_group(&mut producer.state, 0, group::Fetch::default());
    let mut g = fetched(&fetch, &mut producer.state).unwrap();
    assert_eq!(g.info.sequence, 0);
    assert_eq!(read_group(&producer, &mut g), b"hello");

    // Nothing was queued for the dynamic handler to serve.
    assert!(dynamic.poll_requested_group(&mut producer.state).is_pending());
}

#[test]
fn fetch_miss_signals_dynamic() {
    let mut producer = track_producer(None);
    let dynamic = producer.dynamic();
    let consumer = producer.consume();

    // A cache miss with a dynamic handler stays pending and queues a request.
    assert!(consumer.get_group(&producer.state, 5).is_none());
    let options = group::Fetch::default().with_priority(7);
    let pending = consumer.fetch_group(&mut producer.state, 5, options);
    assert!(pending.poll(&mut producer.state).is_pending());

    let req = ready(dynamic.poll_requested_group(&mut producer.state)).unwrap();
    assert_eq!(req.sequence(), 5);
    assert_eq!(req.priority(), 7);

    // Serve it by accepting the request; the fetch resolves.
    req.accept(&mut producer.state, None, now()).unwrap();
    write_group_frame(&mut producer, 5, b"hi");
    finish_group(&mut producer, 5);

    let mut g = fetched(&pending, &mut producer.state).unwrap();
    assert_eq!(g.info.sequence, 5);
    assert_eq!(read_group(&producer, &mut g), b"hi");
}

#[test]
fn fetch_miss_rejects() {
    let mut producer = track_producer(None);
    let dynamic = producer.dynamic();
    let consumer = producer.consume();

    let pending = consumer.fetch_group(&mut producer.state, 5, group::Fetch::default());
    let req = ready(dynamic.poll_requested_group(&mut producer.state)).unwrap();

    req.reject(&mut producer.state, Error::Cancel);
    assert!(matches!(fetched(&pending, &mut producer.state), Err(Error::Cancel)));
    assert!(producer.state.fetch_rejections.is_empty());
}

#[test]
fn fetch_miss_drop_rejects() {
    let mut producer = track_producer(None);
    let dynamic = producer.dynamic();
    let consumer = producer.consume();

    let pending = consumer.fetch_group(&mut producer.state, 5, group::Fetch::default());
    let req = ready(dynamic.poll_requested_group(&mut producer.state)).unwrap();

    req.abandon(&mut producer.state);
    assert!(matches!(fetched(&pending, &mut producer.state), Err(Error::Dropped)));
}

#[test]
fn fetch_reject_does_not_poison_retry() {
    let mut producer = track_producer(None);
    let dynamic = producer.dynamic();
    let consumer = producer.consume();

    let pending = consumer.fetch_group(&mut producer.state, 5, group::Fetch::default());
    let req = ready(dynamic.poll_requested_group(&mut producer.state)).unwrap();
    req.reject(&mut producer.state, Error::Cancel);
    assert!(matches!(fetched(&pending, &mut producer.state), Err(Error::Cancel)));

    let retry = consumer.fetch_group(&mut producer.state, 5, group::Fetch::default());
    let req = ready(dynamic.poll_requested_group(&mut producer.state)).unwrap();
    req.accept(&mut producer.state, None, now()).unwrap();
    write_group_frame(&mut producer, 5, b"retry");
    finish_group(&mut producer, 5);

    let mut group = fetched(&retry, &mut producer.state).unwrap();
    assert_eq!(read_group(&producer, &mut group), b"retry");
}

#[test]
fn fetch_miss_no_dynamic_not_found() {
    // A track with no handler can't serve old content, so a cache miss resolves to NotFound
    // instead of blocking forever.
    let mut producer = track_producer(None);
    producer.append_group(now()).unwrap(); // seq 0, but we miss on seq 5
    let consumer = producer.consume();
    let fetch = consumer.fetch_group(&mut producer.state, 5, group::Fetch::default());
    assert!(matches!(fetched(&fetch, &mut producer.state), Err(Error::NotFound)));
}

#[test]
fn fetch_past_final_not_found() {
    let mut producer = track_producer(None);
    producer.append_group(now()).unwrap(); // seq 0
    producer.finish().unwrap(); // final sequence 1

    // A group at or past the final sequence can never exist, even with a handler, so it resolves
    // to NotFound.
    let dynamic = producer.dynamic();
    let consumer = producer.consume();
    let fetch = consumer.fetch_group(&mut producer.state, 5, group::Fetch::default());
    assert!(matches!(fetched(&fetch, &mut producer.state), Err(Error::NotFound)));

    // And it doesn't signal the dynamic handler.
    assert!(dynamic.poll_requested_group(&mut producer.state).is_pending());
}

#[test]
fn fetch_aborts_with_track() {
    let mut producer = track_producer(None);
    let dynamic = producer.dynamic();
    let consumer = producer.consume();

    let pending = consumer.fetch_group(&mut producer.state, 3, group::Fetch::default());
    assert!(pending.poll(&mut producer.state).is_pending());

    producer.abort(Error::Cancel).unwrap();
    assert!(fetched(&pending, &mut producer.state).is_err());
    dynamic.release(&mut producer.state);
}

#[test]
fn the_aggregate_follows_its_subscribers() {
    let mut producer = track_producer(None);
    assert_eq!(producer.subscription(), None);
    assert!(producer.poll_subscription_changed().is_pending());

    let a = producer.subscribe(Some(Subscription::default().with_priority(3)));
    let mut b = producer.subscribe(Some(Subscription::default().with_priority(1)));
    let changed = ready(producer.poll_subscription_changed()).unwrap().unwrap();
    assert_eq!(changed.priority, 3);
    assert!(producer.poll_subscription_changed().is_pending());

    b.update(&mut producer.state, Subscription::default().with_priority(9));
    assert_eq!(ready(producer.poll_subscription_changed()).unwrap().unwrap().priority, 9);

    // The aggregate covers only live subscribers, and is gone with the last one.
    b.close(&mut producer.state);
    assert_eq!(ready(producer.poll_subscription_changed()).unwrap().unwrap().priority, 3);
    assert!(producer.poll_unused().is_pending());
    a.close(&mut producer.state);
    assert_eq!(ready(producer.poll_subscription_changed()).unwrap(), None);
    assert!(producer.poll_unused().is_ready());
}

#[test]
fn a_pending_subscription_resolves_with_the_track() {
    let mut request = Request::new(broadcast::Info::default(), "video".to_string(), 4);
    let consumer = request.consume();
    let mut pending = consumer.subscribe(&mut request.state, None);
    assert!(pending.poll_ok(&mut request.state).is_pending());
    let mut producer = request.accept(Some(Info::default().with_priority(5)));
    let subscriber = ready(pending.poll_ok(&mut producer.state)).unwrap();
    assert_eq!(subscriber.info().priority, 5);
    assert_eq!(subscriber.name(), "video");
    let query = consumer.info(&mut producer.state);
    let info = ready(query.poll_ok(&producer.state)).unwrap();
    assert_eq!(info.priority, 5);

    // Everyone who waits counts as a reader, and the subscription outlives the wait.
    assert_eq!(producer.state.consumers, 4);
    query.release(&mut producer.state);
    pending.close(&mut producer.state);
    assert!(producer.subscription().is_some());
    consumer.release(&mut producer.state);
    assert!(producer.poll_unused().is_pending());
    subscriber.close(&mut producer.state);
    assert_eq!(producer.subscription(), None);
    assert!(producer.poll_unused().is_ready());
}

#[test]
fn a_rejected_request_fails_its_subscribers() {
    let mut request = Request::new(broadcast::Info::default(), "video".to_string(), 4);
    let consumer = request.consume();
    let mut pending = consumer.subscribe(&mut request.state, None);
    let mut state = request.reject(Error::NotFound);
    assert!(matches!(ready(pending.poll_ok(&mut state)), Err(Error::NotFound)));
}

#[test]
fn a_finished_track_counts_its_groups() {
    let mut producer = track_producer(None);
    let subscriber = producer.subscribe(None);
    assert!(subscriber.poll_finished(&producer.state).is_pending());
    assert!(subscriber.poll_closed(&producer.state).is_pending());
    producer.append_group(now()).unwrap();
    producer.append_group(now()).unwrap();
    producer.finish().unwrap();
    assert_eq!(ready(subscriber.poll_finished(&producer.state)).unwrap(), 2);
    assert!(ready(subscriber.poll_closed(&producer.state)).is_ok());
}

#[test]
fn a_sequence_is_cached_once() {
    let mut producer = track_producer(None);
    create(&mut producer, 4);
    assert!(matches!(
        producer.create_group(group::Info { sequence: 4 }, now()),
        Err(Error::Duplicate)
    ));
}

#[test]
fn closing_is_seen_from_the_writers_side() {
    let mut producer = track_producer(None);
    assert!(producer.poll_used().is_pending());
    let subscriber = producer.subscribe(None);
    assert!(ready(producer.poll_used()).is_ok());
    subscriber.close(&mut producer.state);
    assert!(producer.poll_used().is_pending());

    create(&mut producer, 0);
    let group = producer.group_mut(0).unwrap();
    assert!(group.poll_closed().is_pending());
    group.abort(Error::Old).unwrap();
    assert!(matches!(ready(group.poll_closed()), Error::Old));

    assert!(producer.poll_closed().is_pending());
    producer.abort(Error::App(3)).unwrap();
    assert!(matches!(ready(producer.poll_closed()), Error::App(3)));
    assert!(matches!(ready(producer.poll_used()), Err(Error::App(3))));
}

#[test]
fn a_retired_group_can_be_forgotten() {
    let mut producer = track_producer(None);
    producer.append_group(now()).unwrap(); // seq 0
    producer.append_group(now()).unwrap(); // seq 1
    producer.append_group(at(PAST_CACHE)).unwrap(); // seq 2
    assert_eq!(producer.state.retired.len(), 2);
    producer.state.forget_retired(2);
    assert_eq!(producer.state.retired.len(), 2);
    producer.state.forget_retired(0);
    assert_eq!(producer.state.retired.len(), 1);
    assert_eq!(producer.state.retired[0].info.sequence, 1);
    assert!(producer.state.group(2).is_some());
    producer.state.forget_retired(1);
    assert!(producer.state.retired.is_empty());
}

#[test]
fn giving_a_subscription_up_withdraws_it() {
    let mut request = Request::new(broadcast::Info::default(), "video".to_string(), 4);
    let consumer = request.consume();
    let pending = consumer.subscribe(&mut request.state, None);
    consumer.release(&mut request.state);
    assert!(request.poll_unused().is_pending());
    assert!(request.subscription().is_some());
    pending.close(&mut request.state);
    assert!(request.poll_unused().is_ready());
    assert_eq!(request.subscription(), None);
}

#[test]
fn a_waiting_fetch_is_a_reader() {
    let mut producer = track_producer(None);
    let _dynamic = producer.dynamic();
    let consumer = producer.consume();
    let fetch = consumer.fetch_group(&mut producer.state, 5, group::Fetch::default());
    consumer.release(&mut producer.state);
    assert!(producer.poll_unused().is_pending());
    fetch.release(&mut producer.state);
    assert!(producer.poll_unused().is_ready());
}
