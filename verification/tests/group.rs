use moq_net::error::Error;
use moq_net::model::frame::{self, Frame, FrameBuf};
use moq_net::model::group::{Consumer, Info, Producer, MAX_GROUP_CACHE, PREFETCH_CAP};
use moq_net::model::time::{Clock, Timescale, Timestamp};
use moq_net::model::track;
use moq_net::poll::Poll;

fn clock() -> Clock {
    Clock::start()
}

fn write_now(producer: &mut Producer, data: &[u8]) {
    producer.write_frame_now(&clock(), data.to_vec()).unwrap();
}

fn ready<T>(poll: Poll<T>) -> T {
    match poll {
        Poll::Ready(value) => value,
        Poll::Pending => panic!("would have blocked"),
    }
}

fn next(consumer: &mut Consumer, producer: &Producer) -> Option<frame::Consumer> {
    ready(consumer.poll_next_frame(&producer.state)).unwrap()
}

fn read(consumer: &mut Consumer, producer: &Producer) -> Option<Vec<u8>> {
    ready(consumer.poll_read_frame(&producer.state)).unwrap()
}

#[test]
fn basic_frame_reading() {
    let mut producer = Info { sequence: 0 }.produce();
    write_now(&mut producer, b"frame0");
    write_now(&mut producer, b"frame1");
    producer.finish().unwrap();

    let mut consumer = producer.consume();
    let f0 = next(&mut consumer, &producer).unwrap();
    assert_eq!(f0.info.size, 6);
    let f1 = next(&mut consumer, &producer).unwrap();
    assert_eq!(f1.info.size, 6);
    assert!(next(&mut consumer, &producer).is_none());
}

#[test]
fn read_frame_all_at_once() {
    let mut producer = Info { sequence: 0 }.produce();
    write_now(&mut producer, b"hello");
    producer.finish().unwrap();

    let mut consumer = producer.consume();
    assert_eq!(read(&mut consumer, &producer).unwrap(), b"hello");
}

#[test]
fn chunked_frame_reads_whole() {
    let mut producer = Info { sequence: 0 }.produce();
    {
        let mut frame = producer.create_frame_now(&clock(), 10).unwrap();
        frame.write(b"hello").unwrap();
        frame.write(b"world").unwrap();
        frame.finish(&mut producer).unwrap();
    }
    producer.finish().unwrap();

    // Frame data is held in a single per-frame buffer; a whole-frame read returns the full
    // contents in one slice.
    let mut consumer = producer.consume();
    assert_eq!(read(&mut consumer, &producer).unwrap(), b"helloworld");
}

#[test]
fn chunked_frame_streams_partial() {
    let mut producer = Info { sequence: 0 }.produce();
    let mut consumer = producer.consume();

    let mut frame = producer.create_frame_now(&clock(), 6).unwrap();
    frame.write(b"foo").unwrap();

    // A consumer can stream the in-flight tail before it's finished.
    let mut f = next(&mut consumer, &producer).unwrap();
    let c1 = ready(f.poll_read_chunk(&producer.state, &frame.buf)).unwrap();
    assert_eq!(c1.as_deref(), Some(&b"foo"[..]));
    assert!(f.poll_read_chunk(&producer.state, &frame.buf).is_pending());

    frame.write(b"bar").unwrap();
    frame.finish(&mut producer).unwrap();

    let c2 = ready(f.poll_read_chunk(&producer.state, &frame.buf)).unwrap();
    assert_eq!(c2.as_deref(), Some(&b"bar"[..]));
    let c3 = ready(f.poll_read_chunk(&producer.state, &frame.buf)).unwrap();
    assert_eq!(c3, None);
}

#[test]
fn group_finish_returns_none() {
    let mut producer = Info { sequence: 0 }.produce();
    producer.finish().unwrap();

    let mut consumer = producer.consume();
    assert!(next(&mut consumer, &producer).is_none());
}

#[test]
fn abort_propagates() {
    let mut producer = Info { sequence: 0 }.produce();
    let mut consumer = producer.consume();
    producer.abort(Error::Cancel).unwrap();

    let result = ready(consumer.poll_next_frame(&producer.state));
    assert!(matches!(result, Err(Error::Cancel)));
}

#[test]
fn abort_clears_cached_frames() {
    let mut producer = Info { sequence: 0 }.produce();
    write_now(&mut producer, b"data");

    // A stale consumer that never reads must not pin the cached frames.
    let _consumer = producer.consume();
    assert_eq!(producer.state.frames.len(), 1);

    producer.abort(Error::Cancel).unwrap();

    assert!(producer.state.frames.is_empty(), "cached frames should be dropped on abort");
    assert_eq!(producer.state.cache, 0);
}

#[test]
fn drop_unfinished_clears_cached_frames() {
    let mut producer = Info { sequence: 0 }.produce();
    write_now(&mut producer, b"data");

    // A stale consumer keeps the channel (and thus the cache) alive.
    let mut consumer = producer.consume();
    assert_eq!(producer.state.frames.len(), 1);

    // Every producer is gone without finishing: the cache is released.
    producer.close();
    assert!(producer.state.frames.is_empty());

    let result = ready(consumer.poll_next_frame(&producer.state));
    assert!(matches!(result, Err(Error::Dropped)));
}

#[test]
fn drop_finished_keeps_cached_frames() {
    let mut producer = Info { sequence: 0 }.produce();
    write_now(&mut producer, b"data");
    producer.finish().unwrap();

    let mut consumer = producer.consume();
    producer.close();

    // A cleanly finished group keeps its cache so the consumer can still drain.
    assert_eq!(read(&mut consumer, &producer).unwrap(), b"data");
}

#[test]
fn pending_then_ready() {
    let mut producer = Info { sequence: 0 }.produce();
    let mut consumer = producer.consume();

    // Consumer blocks because no frames yet.
    assert!(consumer.poll_next_frame(&producer.state).is_pending());

    write_now(&mut producer, b"data");
    producer.finish().unwrap();

    assert_eq!(next(&mut consumer, &producer).unwrap().info.size, 4);
}

#[test]
fn eviction_drops_old_frames() {
    let mut producer = Info { sequence: 0 }.produce();

    // Write frames that total more than MAX_GROUP_CACHE.
    let big = vec![0u8; MAX_GROUP_CACHE as usize];
    write_now(&mut producer, &big);
    write_now(&mut producer, &big);

    // The first frame should have been evicted (tombstoned via offset).
    let state = &producer.state;
    assert_eq!(state.offset, 1);
    assert_eq!(state.frames.len(), 1);
    assert_eq!(state.frames[0].payload.len(), MAX_GROUP_CACHE as usize);
}

#[test]
fn next_frame_returns_cache_full_on_tombstone() {
    let mut producer = Info { sequence: 0 }.produce();

    let big = vec![0u8; MAX_GROUP_CACHE as usize];
    write_now(&mut producer, &big);
    write_now(&mut producer, &big);

    let mut consumer = producer.consume();
    // First frame was evicted: the reader fell behind.
    let result = ready(consumer.poll_next_frame(&producer.state));
    assert!(matches!(result, Err(Error::Lagged)));
}

#[test]
fn no_eviction_under_budget() {
    let mut producer = Info { sequence: 0 }.produce();
    let clock = clock();
    // Many small frames stay cached: there is no frame-count cap, only a byte budget.
    for _ in 0..100_000 {
        producer.write_frame_now(&clock, b"x".to_vec()).unwrap();
    }
    producer.finish().unwrap();

    assert_eq!(producer.state.offset, 0);
    assert_eq!(producer.state.frames.len(), 100_000);
}

#[test]
fn clone_consumer_independent() {
    let mut producer = Info { sequence: 0 }.produce();
    write_now(&mut producer, b"a");

    let mut c1 = producer.consume();
    // Read one frame from c1
    let _ = next(&mut c1, &producer).unwrap();

    // Clone c1, which inherits its index (past first frame)
    let mut c2 = c1.clone();

    write_now(&mut producer, b"b");
    producer.finish().unwrap();

    // c2 should get the second frame (inherited index)
    let f = next(&mut c2, &producer).unwrap();
    assert_eq!(f.info.size, 1); // "b"

    assert!(next(&mut c2, &producer).is_none());
}

/// Reading more than one prefetch batch drains every frame in order across the batch boundary
/// (the refill starts exactly where the previous batch ended).
#[test]
fn read_frame_crosses_prefetch_batches() {
    let n = PREFETCH_CAP * 3 + 5;
    let mut producer = Info { sequence: 0 }.produce();
    for i in 0..n {
        write_now(&mut producer, &[i as u8; 4]);
    }
    producer.finish().unwrap();

    let mut consumer = producer.consume();
    for i in 0..n {
        assert_eq!(read(&mut consumer, &producer).unwrap(), vec![i as u8; 4]);
    }
    assert!(read(&mut consumer, &producer).is_none());
}

/// A chunked read drains frames a prior whole-frame read prefetched, preserving order.
#[test]
fn interleave_read_and_next_frame() {
    let mut producer = Info { sequence: 0 }.produce();
    for i in 0..5u8 {
        write_now(&mut producer, &[i]);
    }
    producer.finish().unwrap();

    let mut consumer = producer.consume();
    // The first whole-frame read prefetches all five frames into the batch.
    assert_eq!(read(&mut consumer, &producer).unwrap(), vec![0u8; 1]);

    // It must continue from the batch, not skip ahead or repeat.
    let buf = FrameBuf::new(0);
    for i in 1..5u8 {
        let mut f = next(&mut consumer, &producer).unwrap();
        let data = ready(f.poll_read_all(&producer.state, &buf)).unwrap();
        assert_eq!(data, vec![i; 1]);
    }
    assert!(next(&mut consumer, &producer).is_none());
}

/// A read whose index sits past the buffered frames (cleared by an abort, or an eviction gap)
/// must surface the error, not panic on an out-of-range slice.
#[test]
fn read_frame_past_cleared_frames_does_not_panic() {
    let mut producer = Info { sequence: 0 }.produce();
    write_now(&mut producer, b"a");
    write_now(&mut producer, b"b");

    let mut consumer = producer.consume();
    read(&mut consumer, &producer).unwrap();
    read(&mut consumer, &producer).unwrap();

    // Abort clears the cached frames but leaves the consumer's index (2) past them.
    producer.abort(Error::Cancel).unwrap();

    let result = ready(consumer.poll_read_frame(&producer.state));
    assert!(matches!(result, Err(Error::Cancel)), "expected Cancel, got {result:?}");
}

/// Dropping a consumer mid-batch must drop the buffered-but-untaken frames.
#[test]
fn drop_with_partial_batch() {
    let mut producer = Info { sequence: 0 }.produce();
    for _ in 0..PREFETCH_CAP {
        write_now(&mut producer, b"x");
    }
    producer.finish().unwrap();

    let mut consumer = producer.consume();
    // Take one frame so the batch is filled but only partially drained.
    let _ = read(&mut consumer, &producer).unwrap();
    drop(consumer);
}

/// A frame whose timestamp is at a different scale is converted to the group's scale.
#[test]
fn create_frame_converts_mismatched_scale() {
    let mut producer = Producer::new(
        Info { sequence: 0 },
        track::Info::default().with_timescale(Timescale::micro()),
    );
    let frame = frame::Info {
        size: 3,
        timestamp: Timestamp::from_millis(1).unwrap(), // 1ms -> 1000us
    };
    let writer = producer.create_frame(frame).unwrap();
    assert_eq!(writer.info.timestamp.scale(), Timescale::micro());
    assert_eq!(writer.info.timestamp.value(), 1000);
}

/// The wall clock is stamped at the group's scale.
#[test]
fn create_frame_now_stamps_wall_clock() {
    let mut producer = Producer::new(
        Info { sequence: 0 },
        track::Info::default().with_timescale(Timescale::micro()),
    );
    let writer = producer.create_frame_now(&clock(), 3).unwrap();
    assert_eq!(writer.info.timestamp.scale(), Timescale::micro());
    assert!(!writer.info.timestamp.is_zero(), "wall clock should be non-zero");
}

/// The per-frame size cap (the group byte budget) is enforced before allocating.
#[test]
fn create_frame_rejects_oversized() {
    let mut producer = Info { sequence: 0 }.produce();
    let result = producer.create_frame_now(&clock(), MAX_GROUP_CACHE + 1);
    assert!(matches!(result, Err(Error::FrameTooLarge)));
}

#[test]
fn a_frame_that_is_not_filled_fails_its_group() {
    let mut producer = Info { sequence: 0 }.produce();
    let mut consumer = producer.consume();
    let mut frame = producer.create_frame_now(&clock(), 4).unwrap();
    assert!(matches!(frame.write(b"too long"), Err(Error::WrongSize)));
    frame.write(b"abc").unwrap();
    assert_eq!(frame.remaining(), 1);
    assert!(matches!(frame.finish(&mut producer), Err(Error::WrongSize)));
    assert!(matches!(
        ready(consumer.poll_next_frame(&producer.state)),
        Err(Error::Dropped)
    ));
}

#[test]
fn nothing_is_written_after_the_end() {
    let mut producer = Info { sequence: 0 }.produce();
    producer.finish().unwrap();
    let late = producer.write_frame_now(&clock(), b"late".to_vec());
    assert!(matches!(late, Err(Error::Closed)));
    producer.evict();
    assert!(producer.is_aborted());
    assert!(matches!(producer.finish(), Err(Error::Evicted)));
}

#[test]
fn a_finished_group_counts_its_frames() {
    let mut producer = Info { sequence: 0 }.produce();
    let consumer = producer.consume();
    write_now(&mut producer, b"a");
    assert!(consumer.poll_finished(&producer.state).is_pending());
    let _frame = producer.create_frame_now(&clock(), 1).unwrap();
    assert_eq!(producer.frame_count(), 2);
    producer.frame_commit(Frame { timestamp: Timestamp::zero(), payload: vec![7] }).unwrap();
    producer.finish().unwrap();
    assert_eq!(ready(consumer.poll_finished(&producer.state)).unwrap(), 2);
}

#[test]
fn frame_storage_takes_a_whole_write_once() {
    let mut buf = FrameBuf::new(3);
    assert_eq!(buf.try_set_bytes(vec![1]), Err(vec![1]));
    assert!(buf.try_set_bytes(vec![1, 2, 3]).is_ok());
    assert_eq!(buf.written(), 3);
    assert_eq!(buf.capacity(), 3);
    assert_eq!(buf.slice(1, 3), vec![2, 3]);
    assert_eq!(buf.freeze(), vec![1, 2, 3]);
}
