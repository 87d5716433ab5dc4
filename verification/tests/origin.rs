use moq_net::error::Error;
use moq_net::model::announce::Announced;
use moq_net::model::broadcast;
use moq_net::model::channels::Channels;
use moq_net::model::dynamic::{Request, Requested};
use moq_net::model::handles::{
    AnnounceConsumer, AnnouncedBroadcast, Consumer, Dynamic, OriginState, Producer, Publish,
};
use moq_net::model::origin::{Info, Origin, OriginList};
use moq_net::model::time::Instant;
use moq_net::model::tree::Source;
use moq_net::path::Path;
use moq_net::poll::Poll;

/// An origin's state with the broadcasts that were published to it.
struct World {
    state: OriginState,
    closed: Channels,
    publishes: Vec<Publish>,
    next: u64,
}

fn paths(texts: &[&str]) -> Vec<Path> {
    texts.iter().map(|text| Path::new(text)).collect()
}

fn hops(ids: &[u64]) -> OriginList {
    OriginList::try_from_vec(ids.iter().map(|id| Origin::new(*id).unwrap()).collect()).unwrap()
}

impl World {
    fn new() -> World {
        World {
            state: OriginState::new(),
            closed: Channels::new(),
            publishes: Vec::new(),
            next: 0,
        }
    }

    fn origin(&self) -> Producer {
        Producer::new(Info::new(Origin::random()))
    }

    fn broadcast(&mut self) -> u64 {
        self.next += 1;
        self.next
    }

    fn publish(&mut self, origin: &Producer, path: &str, channel: u64) -> bool {
        self.publish_route(origin, path, channel, &[])
    }

    fn publish_route(&mut self, origin: &Producer, path: &str, channel: u64, ids: &[u64]) -> bool {
        let source = Source { channel, hops: hops(ids) };
        match origin.publish_broadcast(&mut self.state, &Path::new(path), source) {
            Ok(publish) => {
                self.publishes.push(publish);
                true
            }
            Err(_) => false,
        }
    }

    fn create(&mut self, origin: &Producer, path: &str) -> u64 {
        let channel = self.broadcast();
        let made = origin.create_broadcast(&mut self.state, &Path::new(path), channel).unwrap();
        assert_eq!(made.producer.channel, channel);
        self.publishes.push(made.publish);
        channel
    }

    /// Close a broadcast, which ends its announcements.
    fn close(&mut self, channel: u64) {
        self.closed.insert(channel);
        let mut kept = Vec::new();
        for publish in std::mem::take(&mut self.publishes) {
            if publish.channel == channel {
                publish.unannounce(&mut self.state);
            } else {
                kept.push(publish);
            }
        }
        self.publishes = kept;
    }

    fn announced(&mut self, consumer: &Consumer) -> AnnounceConsumer {
        consumer.announced(&mut self.state)
    }

    fn next(&mut self, announced: &AnnounceConsumer) -> (String, Announced) {
        match announced.poll_next(&mut self.state) {
            Poll::Ready(Some((path, event))) => (path.to_text(), event),
            Poll::Ready(None) => panic!("no next"),
            Poll::Pending => panic!("next blocked"),
        }
    }

    fn assert_next(&mut self, announced: &AnnounceConsumer, expected: &str, broadcast: u64) {
        let (path, event) = self.next(announced);
        assert_eq!(path, expected, "wrong path");
        match event {
            Announced::Active(source) => assert_eq!(source.channel, broadcast),
            _ => panic!("should be an active announce"),
        }
    }

    fn assert_next_restart(&mut self, announced: &AnnounceConsumer, expected: &str, b: u64) {
        let (path, event) = self.next(announced);
        assert_eq!(path, expected, "wrong path");
        match event {
            Announced::Restart(source) => assert_eq!(source.channel, b),
            _ => panic!("should be a restart"),
        }
    }

    fn assert_try_next(&mut self, announced: &AnnounceConsumer, expected: &str, broadcast: u64) {
        let (path, event) = announced.try_next(&mut self.state).expect("no next");
        assert_eq!(path.to_text(), expected, "wrong path");
        assert_eq!(event.broadcast().unwrap().channel, broadcast);
    }

    fn assert_next_none(&mut self, announced: &AnnounceConsumer, expected: &str) {
        let (path, event) = self.next(announced);
        assert_eq!(path, expected, "wrong path");
        assert!(event.broadcast().is_none(), "should be unannounced");
    }

    fn assert_next_wait(&mut self, announced: &AnnounceConsumer) {
        assert!(announced.poll_next(&mut self.state).is_pending(), "next should block");
    }

    /// Wait for a broadcast at exactly `path`.
    fn announced_broadcast(&mut self, consumer: &Consumer, path: &str) -> Option<AnnouncedBroadcast> {
        consumer.announced_broadcast(&mut self.state, &Path::new(path))
    }

    fn resolve(&mut self, wait: &AnnouncedBroadcast) -> Option<u64> {
        match wait.poll_ok(&mut self.state) {
            Poll::Ready(source) => Some(source.expect("the cursor is closed").channel),
            Poll::Pending => None,
        }
    }

    fn request(&mut self, consumer: &Consumer, path: &str) -> Requested {
        consumer.request_broadcast(&mut self.state, &Path::new(path), &self.closed)
    }

    fn request_now(&mut self, consumer: &Consumer, path: &str) -> Result<u64, Error> {
        let requested = self.request(consumer, path);
        self.resolved(&requested)
    }

    fn requested(&mut self, dynamic: &Dynamic) -> Request {
        match dynamic.poll_requested_broadcast(&mut self.state) {
            Poll::Ready(Ok(request)) => request,
            _ => panic!("nothing was requested"),
        }
    }

    fn nothing_requested(&mut self, dynamic: &Dynamic) -> bool {
        dynamic.poll_requested_broadcast(&mut self.state).is_pending()
    }

    fn accept(&mut self, request: Request, channel: u64) {
        request.accept(&mut self.state.requests, Source { channel, hops: OriginList::new() });
    }

    fn resolved(&self, requested: &Requested) -> Result<u64, Error> {
        match requested.poll_ok(&self.state.requests) {
            Poll::Ready(Ok(source)) => Ok(source.channel),
            Poll::Ready(Err(err)) => Err(err),
            Poll::Pending => panic!("the request is still waiting"),
        }
    }
}

#[test]
fn test_announce() {
    let mut world = World::new();
    let origin = world.origin();
    let broadcast1 = world.broadcast();
    let broadcast2 = world.broadcast();

    let consumer1 = world.announced(&origin.consume());
    // Make a new consumer that should get it.
    world.assert_next_wait(&consumer1);

    // Publish the first broadcast.
    world.publish(&origin, "test1", broadcast1);

    world.assert_next(&consumer1, "test1", broadcast1);
    world.assert_next_wait(&consumer1);

    // Make a new consumer that should get the existing broadcast.
    // But we don't consume it yet.
    let consumer2 = world.announced(&origin.consume());

    // Publish the second broadcast.
    world.publish(&origin, "test2", broadcast2);

    world.assert_next(&consumer1, "test2", broadcast2);
    world.assert_next_wait(&consumer1);

    world.assert_next(&consumer2, "test1", broadcast1);
    world.assert_next(&consumer2, "test2", broadcast2);
    world.assert_next_wait(&consumer2);

    // Close the first broadcast.
    world.close(broadcast1);


    // All consumers should get a None now.
    world.assert_next_none(&consumer1, "test1");
    world.assert_next_none(&consumer2, "test1");
    world.assert_next_wait(&consumer1);
    world.assert_next_wait(&consumer2);

    // And a new consumer only gets the last broadcast.
    let consumer3 = world.announced(&origin.consume());
    world.assert_next(&consumer3, "test2", broadcast2);
    world.assert_next_wait(&consumer3);

    // Close the other producer and make sure it cleans up
    world.close(broadcast2);


    world.assert_next_none(&consumer1, "test2");
    world.assert_next_none(&consumer2, "test2");
    world.assert_next_none(&consumer3, "test2");

    /* TODO close the origin consumer when the producer is dropped
    consumer1.assert_next_closed();
    consumer2.assert_next_closed();
    consumer3.assert_next_closed();
    */
}

#[test]
fn test_duplicate() {
    let mut world = World::new();
    let origin = world.origin();

    let broadcast1 = world.broadcast();
    let broadcast2 = world.broadcast();
    let broadcast3 = world.broadcast();


    let consumer = origin.consume();
    let announced = world.announced(&consumer);

    world.publish(&origin, "test", broadcast1);
    world.publish(&origin, "test", broadcast2);
    world.publish(&origin, "test", broadcast3);
    assert!(consumer.get_broadcast(&world.state, &Path::new("test")).is_some());

    // Identical (empty) hop chains tie on the deterministic key, so the first publish
    // stays active and the rest queue as backups. No churn, no restart.
    world.assert_next(&announced, "test", broadcast1);
    world.assert_next_wait(&announced);

    // Drop a backup, nothing should change.
    world.close(broadcast2);


    assert!(consumer.get_broadcast(&world.state, &Path::new("test")).is_some());
    world.assert_next_wait(&announced);

    // Drop the active, we should restart with the remaining backup.
    world.close(broadcast1);


    assert!(consumer.get_broadcast(&world.state, &Path::new("test")).is_some());
    world.assert_next_restart(&announced, "test", broadcast3);

    // Drop the final broadcast, we should unannounce.
    world.close(broadcast3);

    assert!(consumer.get_broadcast(&world.state, &Path::new("test")).is_none());

    world.assert_next_none(&announced, "test");
    world.assert_next_wait(&announced);
}

#[test]
fn test_restart_after_drain() {
    // A strictly-better route (shorter hop chain) replacing the active broadcast
    // after the consumer has drained the original announce is delivered as a
    // single atomic restart.
    let mut world = World::new();
    let origin = world.origin();
    // `a` carries one hop; `b` has none, so `b` wins the route and replaces it.
    let a = world.broadcast();
    let b = world.broadcast();

    let announced = world.announced(&origin.consume());
    world.publish_route(&origin, "test", a, &[1]);
    world.assert_next(&announced, "test", a);

    world.publish(&origin, "test", b);
    world.assert_next_restart(&announced, "test", b);
    world.assert_next_wait(&announced);
}

#[test]
fn test_restart_undrained_stays_active() {
    // If the consumer hasn't observed the original announce yet, a winning route
    // just swaps in the newer broadcast and is still delivered as a fresh Active.
    let mut world = World::new();
    let origin = world.origin();
    // `a` carries one hop; `b` has none, so `b` wins the route and replaces it.
    let a = world.broadcast();
    let b = world.broadcast();

    let announced = world.announced(&origin.consume());
    world.publish_route(&origin, "test", a, &[1]);
    world.publish(&origin, "test", b);

    world.assert_next(&announced, "test", b);
    world.assert_next_wait(&announced);
}

#[test]
fn test_duplicate_reverse() {
    let mut world = World::new();
    let origin = world.origin();
    let broadcast1 = world.broadcast();
    let broadcast2 = world.broadcast();

    world.publish(&origin, "test", broadcast1);
    world.publish(&origin, "test", broadcast2);
    assert!(origin.consume().get_broadcast(&world.state, &Path::new("test")).is_some());

    // This is harder, dropping the new broadcast first.
    world.close(broadcast2);

    assert!(origin.consume().get_broadcast(&world.state, &Path::new("test")).is_some());

    world.close(broadcast1);

    assert!(origin.consume().get_broadcast(&world.state, &Path::new("test")).is_none());
}

#[test]
fn test_deterministic_tiebreak() {
    // Resolve the active route for "test" after publishing both routes in the given order.
    fn winner(first: &[u64], second: &[u64]) -> Vec<u64> {
        let mut world = World::new();
        let origin = world.origin();
        let a = world.broadcast();
        let b = world.broadcast();
        world.publish_route(&origin, "test", a, first);
        world.publish_route(&origin, "test", b, second);
        let active = origin.consume().get_broadcast(&world.state, &Path::new("test")).unwrap();
        active.hops.iter().map(|origin| origin.id()).collect()
    }

    // Two routes with equal hop counts but distinct chains. The winner is decided by
    // the deterministic key, not arrival order, so both publish orders converge.
    let forward = winner(&[10, 20], &[30, 40]);
    let reverse = winner(&[30, 40], &[10, 20]);
    assert_eq!(forward, reverse, "tie-break must not depend on publish order");

    // A strictly shorter chain always wins regardless of the hash.
    assert_eq!(winner(&[10, 20], &[30]).len(), 1);
    assert_eq!(winner(&[30], &[10, 20]).len(), 1);
}

#[test]
fn test_double_publish() {
    let mut world = World::new();
    let origin = world.origin();
    let broadcast = world.broadcast();

    // Ensure it doesn't crash.
    world.publish(&origin, "test", broadcast);
    world.publish(&origin, "test", broadcast);

    assert!(origin.consume().get_broadcast(&world.state, &Path::new("test")).is_some());

    world.close(broadcast);

    assert!(origin.consume().get_broadcast(&world.state, &Path::new("test")).is_none());
}
// Everything that is queued is delivered without waiting.
// Names are zero-padded so lexicographic delivery order matches the loop index.
#[test]
fn test_many_announces() {
    let mut world = World::new();
    let origin = world.origin();
    let broadcast = world.broadcast();

    let consumer = world.announced(&origin.consume());
    for i in 0..256 {
        world.publish(&origin, &format!("test{i:03}"), broadcast);
    }

    for i in 0..256 {
        world.assert_next(&consumer, &format!("test{i:03}"), broadcast);
    }
    world.assert_next_wait(&consumer);
}

#[test]
fn test_many_announces_try() {
    let mut world = World::new();
    let origin = world.origin();
    let broadcast = world.broadcast();

    let consumer = world.announced(&origin.consume());
    for i in 0..256 {
        world.publish(&origin, &format!("test{i:03}"), broadcast);
    }

    for i in 0..256 {
        world.assert_try_next(&consumer, &format!("test{i:03}"), broadcast);
    }
}

#[test]
fn test_with_root_basic() {
    let mut world = World::new();
    let origin = world.origin();
    let broadcast = world.broadcast();

    // Create a producer with root "/foo"
    let foo_producer = origin.with_root(&Path::new("foo")).expect("should create root");
    assert_eq!(foo_producer.root().to_text(), "foo");

    let consumer = world.announced(&origin.consume());

    // When publishing to "bar/baz", it should actually publish to "foo/bar/baz"
    assert!(world.publish(&foo_producer, "bar/baz", broadcast));
    // The original consumer should see the full path
    world.assert_next(&consumer, "foo/bar/baz", broadcast);

    // A consumer created from the rooted producer should see the stripped path
    let foo_consumer = world.announced(&foo_producer.consume());
    world.assert_next(&foo_consumer, "bar/baz", broadcast);
}

#[test]
fn test_with_root_nested() {
    let mut world = World::new();
    let origin = world.origin();
    let broadcast = world.broadcast();

    // Create nested roots
    let foo_producer = origin.with_root(&Path::new("foo")).expect("should create foo root");
    let foo_bar_producer = foo_producer.with_root(&Path::new("bar")).expect("should create bar root");
    assert_eq!(foo_bar_producer.root().to_text(), "foo/bar");

    let consumer = world.announced(&origin.consume());

    // Publishing to "baz" should actually publish to "foo/bar/baz"
    assert!(world.publish(&foo_bar_producer, "baz", broadcast));
    // The original consumer sees the full path
    world.assert_next(&consumer, "foo/bar/baz", broadcast);

    // Consumer from foo_bar_producer sees just "baz"
    let foo_bar_consumer = world.announced(&foo_bar_producer.consume());
    world.assert_next(&foo_bar_consumer, "baz", broadcast);
}

#[test]
fn test_publish_scope_allows() {
    let mut world = World::new();
    let origin = world.origin();
    let broadcast = world.broadcast();

    // Create a producer that can only publish to "allowed" paths
    let limited_producer = origin
        .scope(&paths(&["allowed/path1", "allowed/path2"]))
        .expect("should create limited producer");

    // Should be able to publish to allowed paths
    assert!(world.publish(&limited_producer, "allowed/path1", broadcast));
    assert!(world.publish(&limited_producer, "allowed/path1/nested", broadcast));
    assert!(world.publish(&limited_producer, "allowed/path2", broadcast));

    // Should not be able to publish to disallowed paths
    assert!(!world.publish(&limited_producer, "notallowed", broadcast));
    assert!(!world.publish(&limited_producer, "allowed", broadcast)); // Parent of allowed path
    assert!(!world.publish(&limited_producer, "other/path", broadcast));
}

#[test]
fn test_publish_max_parts() {
    let mut world = World::new();
    let origin = world.origin();
    let broadcast = world.broadcast();

    let at_limit = (0..Path::MAX_PARTS)
        .map(|i| i.to_string())
        .collect::<Vec<_>>()
        .join("/");
    assert!(world.publish(&origin, at_limit.as_str(), broadcast));

    let too_deep = format!("{at_limit}/extra");
    assert!(!world.publish(&origin, too_deep.as_str(), broadcast));

    // The root counts toward the limit; a joined path past 32 parts is rejected.
    let rooted = origin.with_root(&Path::new("root")).expect("wildcard allows any root");
    assert!(!world.publish(&rooted, at_limit.as_str(), broadcast));
}

#[test]
fn test_publish_scope_empty() {
    let world = World::new();
    let origin = world.origin();

    // Creating a producer with no allowed paths should return None
    assert!(origin.scope(&paths(&[])).is_none());
}

#[test]
fn test_consume_scope_filters() {
    let mut world = World::new();
    let origin = world.origin();
    let broadcast1 = world.broadcast();
    let broadcast2 = world.broadcast();
    let broadcast3 = world.broadcast();

    let consumer = world.announced(&origin.consume());

    // Publish to different paths
    world.publish(&origin, "allowed", broadcast1);
    world.publish(&origin, "allowed/nested", broadcast2);
    world.publish(&origin, "notallowed", broadcast3);

    // Create a consumer that only sees "allowed" paths
    let limited_consumer = world.announced(&origin
        .consume()
        .scope(&paths(&["allowed"]))
        .expect("should create limited consumer"));

    // Should only receive broadcasts under "allowed"
    world.assert_next(&limited_consumer, "allowed", broadcast1);
    world.assert_next(&limited_consumer, "allowed/nested", broadcast2);
    world.assert_next_wait(&limited_consumer); // Should not see "notallowed"

    // Unscoped consumer should see all
    world.assert_next(&consumer, "allowed", broadcast1);
    world.assert_next(&consumer, "allowed/nested", broadcast2);
    world.assert_next(&consumer, "notallowed", broadcast3);
}

#[test]
fn test_consume_scope_multiple_prefixes() {
    let mut world = World::new();
    let origin = world.origin();
    let broadcast1 = world.broadcast();
    let broadcast2 = world.broadcast();
    let broadcast3 = world.broadcast();

    world.publish(&origin, "foo/test", broadcast1);
    world.publish(&origin, "bar/test", broadcast2);
    world.publish(&origin, "baz/test", broadcast3);

    // Consumer that only sees "foo" and "bar" paths
    let limited_consumer = world.announced(&origin
        .consume()
        .scope(&paths(&["foo", "bar"]))
        .expect("should create limited consumer"));

    // Order depends on PathPrefixes canonical sort (lexicographic for same length)
    world.assert_next(&limited_consumer, "bar/test", broadcast2);
    world.assert_next(&limited_consumer, "foo/test", broadcast1);
    world.assert_next_wait(&limited_consumer); // Should not see "baz/test"
}

#[test]
fn test_with_root_and_publish_scope() {
    let mut world = World::new();
    let origin = world.origin();
    let broadcast = world.broadcast();

    // User connects to /foo root
    let foo_producer = origin.with_root(&Path::new("foo")).expect("should create foo root");

    // Limit them to publish only to "bar" and "goop/pee" within /foo
    let limited_producer = foo_producer
        .scope(&paths(&["bar", "goop/pee"]))
        .expect("should create limited producer");

    let consumer = world.announced(&origin.consume());

    // Should be able to publish to foo/bar and foo/goop/pee (but user sees as bar and goop/pee)
    assert!(world.publish(&limited_producer, "bar", broadcast));
    assert!(world.publish(&limited_producer, "bar/nested", broadcast));
    assert!(world.publish(&limited_producer, "goop/pee", broadcast));
    assert!(world.publish(&limited_producer, "goop/pee/nested", broadcast));

    // Should not be able to publish outside allowed paths
    assert!(!world.publish(&limited_producer, "baz", broadcast));
    assert!(!world.publish(&limited_producer, "goop", broadcast)); // Parent of allowed
    assert!(!world.publish(&limited_producer, "goop/other", broadcast));

    // Original consumer sees full paths
    world.assert_next(&consumer, "foo/bar", broadcast);
    world.assert_next(&consumer, "foo/bar/nested", broadcast);
    world.assert_next(&consumer, "foo/goop/pee", broadcast);
    world.assert_next(&consumer, "foo/goop/pee/nested", broadcast);
}

#[test]
fn test_with_root_and_consume_scope() {
    let mut world = World::new();
    let origin = world.origin();
    let broadcast1 = world.broadcast();
    let broadcast2 = world.broadcast();
    let broadcast3 = world.broadcast();

    // Publish broadcasts
    world.publish(&origin, "foo/bar/test", broadcast1);
    world.publish(&origin, "foo/goop/pee/test", broadcast2);
    world.publish(&origin, "foo/other/test", broadcast3);

    // User connects to /foo root
    let foo_producer = origin.with_root(&Path::new("foo")).expect("should create foo root");

    // Create consumer limited to "bar" and "goop/pee" within /foo
    let limited_consumer = world.announced(&foo_producer
        .consume()
        .scope(&paths(&["bar", "goop/pee"]))
        .expect("should create limited consumer"));

    // Should only see allowed paths (without foo prefix)
    world.assert_next(&limited_consumer, "bar/test", broadcast1);
    world.assert_next(&limited_consumer, "goop/pee/test", broadcast2);
    world.assert_next_wait(&limited_consumer); // Should not see "other/test"
}

#[test]
fn test_with_root_unauthorized() {
    let world = World::new();
    let origin = world.origin();

    // First limit the producer to specific paths
    let limited_producer = origin
        .scope(&paths(&["allowed"]))
        .expect("should create limited producer");

    // Trying to create a root outside allowed paths should fail
    assert!(limited_producer.with_root(&Path::new("notallowed")).is_none());

    // But creating a root within allowed paths should work
    let allowed_root = limited_producer
        .with_root(&Path::new("allowed"))
        .expect("should create allowed root");
    assert_eq!(allowed_root.root().to_text(), "allowed");
}

#[test]
fn test_wildcard_permission() {
    let mut world = World::new();
    let origin = world.origin();
    let broadcast = world.broadcast();

    // Producer with root access (empty string means wildcard)
    let root_producer = origin.clone();

    // Should be able to publish anywhere
    assert!(world.publish(&root_producer, "any/path", broadcast));
    assert!(world.publish(&root_producer, "other/path", broadcast));

    // Can create any root
    let foo_producer = root_producer.with_root(&Path::new("foo")).expect("should create any root");
    assert_eq!(foo_producer.root().to_text(), "foo");
}

#[test]
fn test_consume_broadcast_with_permissions() {
    let mut world = World::new();
    let origin = world.origin();
    let broadcast1 = world.broadcast();
    let broadcast2 = world.broadcast();

    world.publish(&origin, "allowed/test", broadcast1);
    world.publish(&origin, "notallowed/test", broadcast2);

    // Create limited consumer
    let limited_consumer = origin
        .consume()
        .scope(&paths(&["allowed"]))
        .expect("should create limited consumer");

    // Should be able to get allowed broadcast
    let result = limited_consumer.get_broadcast(&world.state, &Path::new("allowed/test"));
    assert!(result.is_some());
    assert_eq!(result.unwrap().channel, broadcast1);

    // Should not be able to get disallowed broadcast
    assert!(limited_consumer.get_broadcast(&world.state, &Path::new("notallowed/test")).is_none());

    // Original consumer can get both
    let consumer = origin.consume();
    assert!(consumer.get_broadcast(&world.state, &Path::new("allowed/test")).is_some());
    assert!(consumer.get_broadcast(&world.state, &Path::new("notallowed/test")).is_some());
}

#[test]
fn test_nested_paths_with_permissions() {
    let mut world = World::new();
    let origin = world.origin();
    let broadcast = world.broadcast();

    // Create producer limited to "a/b/c"
    let limited_producer = origin.scope(&paths(&["a/b/c"])).expect("should create limited producer");

    // Should be able to publish to exact path and nested paths
    assert!(world.publish(&limited_producer, "a/b/c", broadcast));
    assert!(world.publish(&limited_producer, "a/b/c/d", broadcast));
    assert!(world.publish(&limited_producer, "a/b/c/d/e", broadcast));

    // Should not be able to publish to parent or sibling paths
    assert!(!world.publish(&limited_producer, "a", broadcast));
    assert!(!world.publish(&limited_producer, "a/b", broadcast));
    assert!(!world.publish(&limited_producer, "a/b/other", broadcast));
}

#[test]
fn test_multiple_consumers_with_different_permissions() {
    let mut world = World::new();
    let origin = world.origin();
    let broadcast1 = world.broadcast();
    let broadcast2 = world.broadcast();
    let broadcast3 = world.broadcast();

    // Publish to different paths
    world.publish(&origin, "foo/test", broadcast1);
    world.publish(&origin, "bar/test", broadcast2);
    world.publish(&origin, "baz/test", broadcast3);

    // Create consumers with different permissions
    let foo_consumer = world.announced(&origin
        .consume()
        .scope(&paths(&["foo"]))
        .expect("should create foo consumer"));

    let bar_consumer = world.announced(&origin
        .consume()
        .scope(&paths(&["bar"]))
        .expect("should create bar consumer"));

    let foobar_consumer = world.announced(&origin
        .consume()
        .scope(&paths(&["foo", "bar"]))
        .expect("should create foobar consumer"));

    // Each consumer should only see their allowed paths
    world.assert_next(&foo_consumer, "foo/test", broadcast1);
    world.assert_next_wait(&foo_consumer);

    world.assert_next(&bar_consumer, "bar/test", broadcast2);
    world.assert_next_wait(&bar_consumer);

    world.assert_next(&foobar_consumer, "bar/test", broadcast2);
    world.assert_next(&foobar_consumer, "foo/test", broadcast1);
    world.assert_next_wait(&foobar_consumer);
}

#[test]
fn test_select_with_empty_prefix() {
    let mut world = World::new();
    let origin = world.origin();
    let broadcast1 = world.broadcast();
    let broadcast2 = world.broadcast();

    // User with root "demo" allowed to subscribe to "worm-node" and "foobar"
    let demo_producer = origin.with_root(&Path::new("demo")).expect("should create demo root");
    let limited_producer = demo_producer
        .scope(&paths(&["worm-node", "foobar"]))
        .expect("should create limited producer");

    // Publish some broadcasts
    assert!(world.publish(&limited_producer, "worm-node/test", broadcast1));
    assert!(world.publish(&limited_producer, "foobar/test", broadcast2));

    // scope with empty prefix should keep the exact same "worm-node" and "foobar" nodes
    let consumer = world.announced(&limited_producer
        .consume()
        .scope(&paths(&[""]))
        .expect("should create consumer with empty prefix"));

    // Should see both broadcasts (order depends on PathPrefixes sort)
    let a1 = consumer.try_next(&mut world.state).expect("expected first announcement");
    let a2 = consumer.try_next(&mut world.state).expect("expected second announcement");
    world.assert_next_wait(&consumer);

    let mut found: Vec<_> = [&a1, &a2].iter().map(|(p, _)| p.to_text()).collect();
    found.sort();
    assert_eq!(found, ["foobar/test", "worm-node/test"]);
}

#[test]
fn test_select_narrowing_scope() {
    let mut world = World::new();
    let origin = world.origin();
    let broadcast1 = world.broadcast();
    let broadcast2 = world.broadcast();
    let broadcast3 = world.broadcast();

    // User with root "demo" allowed to subscribe to "worm-node" and "foobar"
    let demo_producer = origin.with_root(&Path::new("demo")).expect("should create demo root");
    let limited_producer = demo_producer
        .scope(&paths(&["worm-node", "foobar"]))
        .expect("should create limited producer");

    // Publish broadcasts at different levels
    assert!(world.publish(&limited_producer, "worm-node", broadcast1));
    assert!(world.publish(&limited_producer, "worm-node/foo", broadcast2));
    assert!(world.publish(&limited_producer, "foobar/bar", broadcast3));

    // Test 1: scope("worm-node") should result in a single "" node with contents of "worm-node" ONLY
    let worm_consumer = world.announced(&limited_producer
        .consume()
        .scope(&paths(&["worm-node"]))
        .expect("should create worm-node consumer"));

    // Should see worm-node content with paths stripped to ""
    world.assert_next(&worm_consumer, "worm-node", broadcast1);
    world.assert_next(&worm_consumer, "worm-node/foo", broadcast2);
    world.assert_next_wait(&worm_consumer); // Should NOT see foobar content

    // Test 2: scope("worm-node/foo") should result in a "" node with contents of "worm-node/foo"
    let foo_consumer = world.announced(&limited_producer
        .consume()
        .scope(&paths(&["worm-node/foo"]))
        .expect("should create worm-node/foo consumer"));

    world.assert_next(&foo_consumer, "worm-node/foo", broadcast2);
    world.assert_next_wait(&foo_consumer); // Should NOT see other content
}

#[test]
fn test_select_multiple_roots_with_empty_prefix() {
    let mut world = World::new();
    let origin = world.origin();
    let broadcast1 = world.broadcast();
    let broadcast2 = world.broadcast();
    let broadcast3 = world.broadcast();

    // Producer with multiple allowed roots
    let limited_producer = origin
        .scope(&paths(&["app1", "app2", "shared"]))
        .expect("should create limited producer");

    // Publish to each root
    assert!(world.publish(&limited_producer, "app1/data", broadcast1));
    assert!(world.publish(&limited_producer, "app2/config", broadcast2));
    assert!(world.publish(&limited_producer, "shared/resource", broadcast3));

    // scope with empty prefix should maintain all roots
    let consumer = world.announced(&limited_producer
        .consume()
        .scope(&paths(&[""]))
        .expect("should create consumer with empty prefix"));

    // Should see all broadcasts from all roots
    world.assert_next(&consumer, "app1/data", broadcast1);
    world.assert_next(&consumer, "app2/config", broadcast2);
    world.assert_next(&consumer, "shared/resource", broadcast3);
    world.assert_next_wait(&consumer);
}

#[test]
fn test_publish_scope_with_empty_prefix() {
    let mut world = World::new();
    let origin = world.origin();
    let broadcast = world.broadcast();

    // Producer with specific allowed paths
    let limited_producer = origin
        .scope(&paths(&["services/api", "services/web"]))
        .expect("should create limited producer");

    // scope with empty prefix should keep the same restrictions
    let same_producer = limited_producer
        .scope(&paths(&[""]))
        .expect("should create producer with empty prefix");

    // Should still have the same publishing restrictions
    assert!(world.publish(&same_producer, "services/api", broadcast));
    assert!(world.publish(&same_producer, "services/web", broadcast));
    assert!(!world.publish(&same_producer, "services/db", broadcast));
    assert!(!world.publish(&same_producer, "other", broadcast));
}

#[test]
fn test_select_narrowing_to_deeper_path() {
    let mut world = World::new();
    let origin = world.origin();
    let broadcast1 = world.broadcast();
    let broadcast2 = world.broadcast();
    let broadcast3 = world.broadcast();

    // Producer with broad permission
    let limited_producer = origin.scope(&paths(&["org"])).expect("should create limited producer");

    // Publish at various depths
    assert!(world.publish(&limited_producer, "org/team1/project1", broadcast1));
    assert!(world.publish(&limited_producer, "org/team1/project2", broadcast2));
    assert!(world.publish(&limited_producer, "org/team2/project1", broadcast3));

    // Narrow down to team2 only
    let team2_consumer = world.announced(&limited_producer
        .consume()
        .scope(&paths(&["org/team2"]))
        .expect("should create team2 consumer"));

    world.assert_next(&team2_consumer, "org/team2/project1", broadcast3);
    world.assert_next_wait(&team2_consumer); // Should NOT see team1 content

    // Further narrow down to team1/project1
    let project1_consumer = world.announced(&limited_producer
        .consume()
        .scope(&paths(&["org/team1/project1"]))
        .expect("should create project1 consumer"));

    // Should only see project1 content at root
    world.assert_next(&project1_consumer, "org/team1/project1", broadcast1);
    world.assert_next_wait(&project1_consumer);
}

#[test]
fn test_select_with_non_matching_prefix() {
    let world = World::new();
    let origin = world.origin();

    // Producer with specific allowed paths
    let limited_producer = origin
        .scope(&paths(&["allowed/path"]))
        .expect("should create limited producer");

    // Trying to scope with a completely different prefix should return None
    assert!(limited_producer.consume().scope(&paths(&["different/path"])).is_none());

    // Similarly for scope
    assert!(limited_producer.scope(&paths(&["other/path"])).is_none());
}

// Regression test for https://github.com/moq-dev/moq/issues/910
// with_root panics when String has trailing slash (AsPath for String skips normalization)
#[test]
fn test_with_root_trailing_slash_consumer() {
    let mut world = World::new();
    let origin = world.origin();

    // Use an owned String so the trailing slash is NOT normalized away.
    let prefix = "some_prefix/".to_string();
    let consumer = world.announced(&origin.consume().with_root(&Path::new(&prefix)).unwrap());

    let b = world.create(&origin, "some_prefix/test");
    world.assert_next(&consumer, "test", b);
}

// Same issue but for the producer side of with_root
#[test]
fn test_with_root_trailing_slash_producer() {
    let mut world = World::new();
    let origin = world.origin();

    // Use an owned String so the trailing slash is NOT normalized away.
    let prefix = "some_prefix/".to_string();
    let rooted = origin.with_root(&Path::new(&prefix)).unwrap();

    let b = world.create(&rooted, "test");

    let consumer = world.announced(&rooted.consume());
    world.assert_next(&consumer, "test", b);
}

// Verify unannounce also doesn't panic with trailing slash
#[test]
fn test_with_root_trailing_slash_unannounce() {
    let mut world = World::new();
    let origin = world.origin();

    let prefix = "some_prefix/".to_string();
    let consumer = world.announced(&origin.consume().with_root(&Path::new(&prefix)).unwrap());

    let b = world.create(&origin, "some_prefix/test");
    world.assert_next(&consumer, "test", b);

    // Drop the broadcast producer to trigger unannounce
    world.close(b);

    // unannounce also calls strip_prefix(&self.root).unwrap()
    world.assert_next_none(&consumer, "test");
}

#[test]
fn test_select_maintains_access_with_wider_prefix() {
    let mut world = World::new();
    let origin = world.origin();
    let broadcast1 = world.broadcast();
    let broadcast2 = world.broadcast();

    // Setup: user with root "demo" allowed to subscribe to specific paths
    let demo_producer = origin.with_root(&Path::new("demo")).expect("should create demo root");
    let user_producer = demo_producer
        .scope(&paths(&["worm-node", "foobar"]))
        .expect("should create user producer");

    // Publish some data
    assert!(world.publish(&user_producer, "worm-node/data", broadcast1));
    assert!(world.publish(&user_producer, "foobar", broadcast2));

    // Key test: scope with "" should maintain access to allowed roots
    let consumer = world.announced(&user_producer
        .consume()
        .scope(&paths(&[""]))
        .expect("scope with empty prefix should not fail when user has specific permissions"));

    // Should still receive broadcasts from allowed paths (order not guaranteed)
    let a1 = consumer.try_next(&mut world.state).expect("expected first announcement");
    let a2 = consumer.try_next(&mut world.state).expect("expected second announcement");
    world.assert_next_wait(&consumer);

    let mut found: Vec<_> = [&a1, &a2].iter().map(|(p, _)| p.to_text()).collect();
    found.sort();
    assert_eq!(found, ["foobar", "worm-node/data"]);

    // Also test that we can still narrow the scope
    let narrow_consumer = world.announced(&user_producer
        .consume()
        .scope(&paths(&["worm-node"]))
        .expect("should be able to narrow scope to worm-node"));

    world.assert_next(&narrow_consumer, "worm-node/data", broadcast1);
    world.assert_next_wait(&narrow_consumer); // Should not see foobar
}

#[test]
fn test_duplicate_prefixes_deduped() {
    let mut world = World::new();
    let origin = world.origin();
    let broadcast = world.broadcast();

    // scope with duplicate prefixes should work (deduped internally)
    let producer = origin
        .scope(&paths(&["demo", "demo"]))
        .expect("should create producer");

    assert!(world.publish(&producer, "demo/stream", broadcast));

    let consumer = world.announced(&producer.consume());
    world.assert_next(&consumer, "demo/stream", broadcast);
    world.assert_next_wait(&consumer);
}

#[test]
fn test_overlapping_prefixes_deduped() {
    let mut world = World::new();
    let origin = world.origin();
    let broadcast = world.broadcast();

    // "demo" and "demo/foo". "demo/foo" is redundant, only "demo" should remain
    let producer = origin
        .scope(&paths(&["demo", "demo/foo"]))
        .expect("should create producer");

    // Can still publish under "demo/bar" since "demo" covers everything
    assert!(world.publish(&producer, "demo/bar/stream", broadcast));

    let consumer = world.announced(&producer.consume());
    world.assert_next(&consumer, "demo/bar/stream", broadcast);
    world.assert_next_wait(&consumer);
}

#[test]
fn test_overlapping_prefixes_no_duplicate_announcements() {
    let mut world = World::new();
    let origin = world.origin();
    let broadcast = world.broadcast();

    // Both "demo" and "demo/foo" are requested. Should only have one node
    let producer = origin
        .scope(&paths(&["demo", "demo/foo"]))
        .expect("should create producer");

    assert!(world.publish(&producer, "demo/foo/stream", broadcast));

    let consumer = world.announced(&producer.consume());
    // Should only get ONE announcement (not two from overlapping nodes)
    world.assert_next(&consumer, "demo/foo/stream", broadcast);
    world.assert_next_wait(&consumer);
}

#[test]
fn test_allowed_returns_deduped_prefixes() {
    let world = World::new();
    let origin = world.origin();

    let producer = origin
        .scope(&paths(&["demo", "demo/foo", "anon"]))
        .expect("should create producer");

    let allowed = producer.allowed();
    assert_eq!(allowed.len(), 2, "demo/foo should be subsumed by demo");
}

#[test]
fn test_announced_broadcast_already_announced() {
    let mut world = World::new();
    let origin = world.origin();
    let broadcast = world.broadcast();

    world.publish(&origin, "test", broadcast);

    let consumer = origin.consume();
    let wait = world.announced_broadcast(&consumer, "test").expect("should find it");
    assert_eq!(world.resolve(&wait), Some(broadcast));
}

#[test]
fn test_announced_broadcast_delayed() {
    let mut world = World::new();
    let origin = world.origin();
    let broadcast = world.broadcast();

    let consumer = origin.consume();

    // Start waiting before it's announced.
    let wait = world.announced_broadcast(&consumer, "test").unwrap();
    assert_eq!(world.resolve(&wait), None);


    world.publish(&origin, "test", broadcast);

    assert_eq!(world.resolve(&wait), Some(broadcast));
}

#[test]
fn test_announced_broadcast_ignores_unrelated_paths() {
    let mut world = World::new();
    let origin = world.origin();
    let other = world.broadcast();
    let target = world.broadcast();

    let consumer = origin.consume();

    let wait = world.announced_broadcast(&consumer, "target").unwrap();
    assert_eq!(world.resolve(&wait), None);


    // Publish an unrelated broadcast first. announced_broadcast should skip it.
    world.publish(&origin, "other", other);
    assert_eq!(world.resolve(&wait), None, "must not resolve on unrelated path");

    world.publish(&origin, "target", target);
    assert_eq!(world.resolve(&wait), Some(target));
}

#[test]
fn test_announced_broadcast_skips_nested_paths() {
    let mut world = World::new();
    let origin = world.origin();
    let nested = world.broadcast();
    let exact = world.broadcast();

    let consumer = origin.consume();

    let wait = world.announced_broadcast(&consumer, "foo").unwrap();
    assert_eq!(world.resolve(&wait), None);


    // "foo/bar" is under the prefix scope, but it's not the exact path. Skip it.
    world.publish(&origin, "foo/bar", nested);
    assert_eq!(world.resolve(&wait), None, "must not resolve on a nested path");

    world.publish(&origin, "foo", exact);
    assert_eq!(world.resolve(&wait), Some(exact));
}

#[test]
fn test_announced_broadcast_disallowed() {
    let mut world = World::new();
    let origin = world.origin();
    let limited = origin
        .consume()
        .scope(&paths(&["allowed"]))
        .expect("should create limited");

    // Path is outside allowed prefixes. Should return None immediately.
    assert!(world.announced_broadcast(&limited, "notallowed").is_none());
}

#[test]
fn test_announced_broadcast_scope_too_narrow() {
    // Consumer's scope is narrower than the requested path: asking for `foo` on a consumer
    // limited to `foo/specific` can never resolve. Must return None, not loop forever.
    let mut world = World::new();
    let origin = world.origin();
    let limited = origin
        .consume()
        .scope(&paths(&["foo/specific"]))
        .expect("should create limited");

    assert!(world.announced_broadcast(&limited, "foo").is_none());
}

// Coalescing tests: a slow cursor that doesn't drain between updates
// should observe a bounded number of deliveries.

#[test]
fn test_coalesce_announce_then_unannounce() {
    // announce + unannounce that the cursor hasn't observed yet collapses to nothing.
    let mut world = World::new();
    let origin = world.origin();
    let announced = world.announced(&origin.consume());

    let broadcast = world.broadcast();
    world.publish(&origin, "test", broadcast);
    world.close(broadcast);


    world.assert_next_wait(&announced);
}

#[test]
fn test_coalesce_announce_unannounce_announce() {
    // announce, unannounce, announce that the cursor hasn't drained collapses
    // to a single Announce of the latest broadcast.
    let mut world = World::new();
    let origin = world.origin();
    let announced = world.announced(&origin.consume());

    let broadcast1 = world.broadcast();
    let broadcast2 = world.broadcast();

    world.publish(&origin, "test", broadcast1);
    world.close(broadcast1);
    world.publish(&origin, "test", broadcast2);

    world.assert_next(&announced, "test", broadcast2);
    world.assert_next_wait(&announced);
}

#[test]
fn test_coalesce_unannounce_announce_preserved() {
    // unannounce followed by announce of a different broadcast must be preserved
    // as two deliveries so the cursor learns the origin changed.
    let mut world = World::new();
    let origin = world.origin();
    let broadcast1 = world.broadcast();
    world.publish(&origin, "test", broadcast1);

    let announced = world.announced(&origin.consume());
    world.assert_next(&announced, "test", broadcast1);

    // Drop, and after that publish a fresh broadcast at the same path.
    world.close(broadcast1);

    let broadcast2 = world.broadcast();
    world.publish(&origin, "test", broadcast2);

    // The cursor must see the unannounce before the new announce.
    world.assert_next_none(&announced, "test");
    world.assert_next(&announced, "test", broadcast2);
    world.assert_next_wait(&announced);
}

#[test]
fn test_coalesce_unannounce_announce_unannounce() {
    // unannounce + announce + unannounce collapses to a single unannounce: the
    // embedded announce was never observed.
    let mut world = World::new();
    let origin = world.origin();
    let broadcast1 = world.broadcast();
    world.publish(&origin, "test", broadcast1);

    let announced = world.announced(&origin.consume());
    world.assert_next(&announced, "test", broadcast1);

    world.close(broadcast1);

    let broadcast2 = world.broadcast();
    world.publish(&origin, "test", broadcast2);
    world.close(broadcast2);

    world.assert_next_none(&announced, "test");
    world.assert_next_wait(&announced);
}

#[test]
fn test_coalesce_churn_bounded() {
    // A churn loop on a single path should keep the pending set bounded.
    // Backup promotion during cleanup can leave the cursor with zero or one
    // pending update for "test" depending on the order tasks run; we only
    // require that churn doesn't accumulate across iterations.
    let mut world = World::new();
    let origin = world.origin();
    let announced = world.announced(&origin.consume());

    for _ in 0..1000 {
        let broadcast = world.broadcast();
        world.publish(&origin, "test", broadcast);
        world.close(broadcast);
    }

    let mut collected = Vec::new();
    while let Some(update) = announced.try_next(&mut world.state) {
        collected.push(update);
    }
    assert!(
        collected.len() <= 1,
        "expected at most one pending update, got {}",
        collected.len()
    );
    assert!(
        collected.iter().all(|(path, _)| path.to_text() == "test"),
        "unexpected path in pending updates",
    );
}

// Consumer should be cheap to clone: cloning must NOT drain any
// other cursor's announce channel. A freshly-built AnnounceConsumer
// still receives the active backlog.
#[test]
fn test_consumer_clone_is_side_effect_free() {
    let mut world = World::new();
    let origin = world.origin();
    let broadcast1 = world.broadcast();
    let broadcast2 = world.broadcast();

    world.publish(&origin, "test1", broadcast1);
    world.publish(&origin, "test2", broadcast2);

    let consumer = origin.consume();
    let announced = world.announced(&consumer);

    // Cloning the Consumer many times and looking up broadcasts
    // must not consume any events from the existing cursor.
    for _ in 0..16 {
        let cloned = consumer.clone();
        assert!(cloned.get_broadcast(&world.state, &Path::new("test1")).is_some());
        assert!(cloned.get_broadcast(&world.state, &Path::new("test2")).is_some());
    }

    // The original cursor still sees both announcements in their
    // natural order, undisturbed by the clones above.
    let a1 = announced.try_next(&mut world.state).expect("first announcement");
    let a2 = announced.try_next(&mut world.state).expect("second announcement");
    world.assert_next_wait(&announced);

    let mut found: Vec<_> = [&a1, &a2].iter().map(|(p, _)| p.to_text()).collect();
    found.sort();
    assert_eq!(found, ["test1", "test2"]);

    // A freshly-built AnnounceConsumer still receives the active backlog.
    let fresh = world.announced(&consumer);
    let b1 = fresh.try_next(&mut world.state).expect("backlog: first");
    let b2 = fresh.try_next(&mut world.state).expect("backlog: second");
    world.assert_next_wait(&fresh);

    let mut found: Vec<_> = [&b1, &b2].iter().map(|(p, _)| p.to_text()).collect();
    found.sort();
    assert_eq!(found, ["test1", "test2"]);
}

// With no Dynamic handler, an unannounced path resolves to Unroutable.
#[test]
fn dynamic_request_unroutable_without_handler() {
    let mut world = World::new();
    let origin = world.origin();
    let consumer = origin.consume();
    assert!(matches!(
        world.request_now(&consumer, "missing"),
        Err(Error::Unroutable)
    ));
}

// A dynamically served broadcast resolves the requester and serves tracks, but is
// never announced.
#[test]
fn dynamic_request_served_not_announced() {
    let mut world = World::new();
    let origin = world.origin();
    let dynamic = origin.dynamic(&mut world.state);
    let consumer = origin.consume();

    // A separate announce cursor must never observe the dynamic broadcast.
    let announced = world.announced(&origin.consume());
    world.assert_next_wait(&announced);

    // Request a path that nobody announced; the future stays pending until served.
    // Registration happens up front, so the handler sees the request immediately.
    let request_fut = world.request(&consumer, "fallback");

    // The handler serves it with a live broadcast it keeps producing into.
    let served = world.broadcast();
    let mut producer = broadcast::Info::new().produce(served);
    let served_dynamic = producer.dynamic();

    let request = world.requested(&dynamic);
    assert_eq!(request.path().to_text(), "fallback");
    world.accept(request, served);
    assert_eq!(world.resolved(&request_fut).unwrap(), served);

    // The served broadcast is live: a track subscription resolves via its handler.
    let name = "video".to_string();
    let broadcast = producer.consume();
    let consumer = broadcast.track(&mut producer.state, &name, &world.closed).unwrap();
    let mut request = match served_dynamic.poll_requested_track(&mut producer.state, &world.closed)
    {
        Poll::Ready(Ok(request)) => request,
        _ => panic!("no track was requested"),
    };
    let mut subscribe = consumer.subscribe(&mut request.state, None);
    let mut track = request.accept(None);
    let mut subscriber = match subscribe.poll_ok(&mut track.state) {
        Poll::Ready(Ok(subscriber)) => subscriber,
        _ => panic!("the subscription is still waiting"),
    };
    track.append_group(Instant { nanos: 0 }).unwrap();
    assert!(matches!(subscriber.poll_recv_group(&track.state), Poll::Ready(Ok(Some(_)))));

    // Still nothing announced.
    world.assert_next_wait(&announced);
}

// Concurrent requests for the same queued path coalesce onto one handler request.
#[test]
fn dynamic_request_coalesces() {
    let mut world = World::new();
    let origin = world.origin();
    let dynamic = origin.dynamic(&mut world.state);
    let consumer = origin.consume();

    // Both register before the handler drains either.
    let f1 = world.request(&consumer, "dup");
    let f2 = world.request(&consumer, "dup");

    // Exactly one request reaches the handler.
    let request = world.requested(&dynamic);
    assert_eq!(request.path().to_text(), "dup");
    assert!(
        world.nothing_requested(&dynamic),
        "a coalesced request must not be served twice"
    );

    // Accepting resolves both awaiting requesters with the same broadcast.
    let served = world.broadcast();
    world.accept(request, served);
    assert!(world.resolved(&f1).unwrap() == served);
    assert!(world.resolved(&f2).unwrap() == served);
}

// A repeat request for an already-served, still-live path shares the same broadcast
// instead of asking the handler again (no duplicate upstream subscription).
#[test]
fn dynamic_request_dedups_served() {
    let mut world = World::new();
    let origin = world.origin();
    let dynamic = origin.dynamic(&mut world.state);
    let consumer = origin.consume();

    let request_fut = world.request(&consumer, "fallback");
    let served = world.broadcast();
    let request = world.requested(&dynamic);
    world.accept(request, served);
    let first = world.resolved(&request_fut).unwrap();
    assert_eq!(first, served);

    // The repeat resolves immediately to the same broadcast...
    let second = world.request_now(&consumer, "fallback").unwrap();
    assert_eq!(second, served);

    // ...and the handler never sees a second request.
    assert!(
        world.nothing_requested(&dynamic),
        "a still-live served broadcast must not be re-requested from the handler"
    );
}

// Once a served broadcast closes, its cache entry is stale, so the next request re-serves.
#[test]
fn dynamic_request_reserves_after_close() {
    let mut world = World::new();
    let origin = world.origin();
    let dynamic = origin.dynamic(&mut world.state);
    let consumer = origin.consume();

    let request_fut = world.request(&consumer, "fallback");
    let served = world.broadcast();
    let request = world.requested(&dynamic);
    world.accept(request, served);
    world.resolved(&request_fut).unwrap();

    // Close the first served broadcast; the weak cache entry goes stale.
    world.close(served);

    // A fresh request must reach the handler again and resolve to the new broadcast.
    let request_fut = world.request(&consumer, "fallback");
    let served = world.broadcast();
    let request = world.requested(&dynamic);
    assert_eq!(request.path().to_text(), "fallback");
    world.accept(request, served);
    assert!(world.resolved(&request_fut).unwrap() == served);
}

// A repeat request in the window after the handler picks one up but before it accepts
// coalesces onto the in-flight request instead of queuing a duplicate.
#[test]
fn dynamic_request_coalesces_after_handoff() {
    let mut world = World::new();
    let origin = world.origin();
    let dynamic = origin.dynamic(&mut world.state);
    let consumer = origin.consume();

    let f1 = world.request(&consumer, "fallback");
    // Handler drains the request but has not accepted yet.
    let request = world.requested(&dynamic);

    // A second request in this window must not queue another handler request.
    let f2 = world.request(&consumer, "fallback");
    assert!(
        world.nothing_requested(&dynamic),
        "a repeat request during hand-off must coalesce, not re-queue"
    );

    // Accepting resolves both awaiting requesters with the same broadcast.
    let served = world.broadcast();
    world.accept(request, served);
    assert!(world.resolved(&f1).unwrap() == served);
    assert!(world.resolved(&f2).unwrap() == served);
}

// Dropping a handed-off request without accept/reject rejects every coalesced requester.
#[test]
fn dynamic_request_dropped_after_handoff() {
    let mut world = World::new();
    let origin = world.origin();
    let dynamic = origin.dynamic(&mut world.state);
    let consumer = origin.consume();

    let f1 = world.request(&consumer, "fallback");
    let request = world.requested(&dynamic);
    let f2 = world.request(&consumer, "fallback");

    // Abandon it; both requesters resolve to Unroutable instead of hanging.
    request.abandon(&mut world.state.requests);
    assert!(matches!(world.resolved(&f1), Err(Error::Unroutable)));
    assert!(matches!(world.resolved(&f2), Err(Error::Unroutable)));
}

// Rejecting a request resolves the requester with the error.
#[test]
fn dynamic_request_rejected() {
    let mut world = World::new();
    let origin = world.origin();
    let dynamic = origin.dynamic(&mut world.state);
    let consumer = origin.consume();

    let request_fut = world.request(&consumer, "fallback");

    let request = world.requested(&dynamic);
    request.reject(&mut world.state.requests, Error::Cancel);

    assert!(matches!(world.resolved(&request_fut), Err(Error::Cancel)));
}

// After a rejected hand-off, a fresh request for the same path reaches the handler again:
// the rejected `Request`'s removal + `Drop` leave `requests` and `request_order` consistent
// (a stale/clobbered entry would strand this request or panic the handler).
#[test]
fn dynamic_request_rerequest_after_reject() {
    let mut world = World::new();
    let origin = world.origin();
    let dynamic = origin.dynamic(&mut world.state);
    let consumer = origin.consume();

    let f1 = world.request(&consumer, "fallback");
    world.requested(&dynamic).reject(&mut world.state.requests, Error::Unroutable);
    assert!(matches!(world.resolved(&f1), Err(Error::Unroutable)));

    // A fresh request re-reaches the handler and can be served.
    let f2 = world.request(&consumer, "fallback");
    let request = world.requested(&dynamic);
    assert_eq!(request.path().to_text(), "fallback");
    let served = world.broadcast();
    world.accept(request, served);
    assert!(world.resolved(&f2).unwrap() == served);
}

// Dropping the last handler resolves queued requests with an error and reverts to
// resolving Unroutable.
#[test]
fn dynamic_request_handler_dropped() {
    let mut world = World::new();
    let origin = world.origin();
    let dynamic = origin.dynamic(&mut world.state);
    let consumer = origin.consume();

    let request_fut = world.request(&consumer, "fallback");
    dynamic.release(&mut world.state);
    assert!(matches!(world.resolved(&request_fut), Err(Error::Unroutable)));

    // With no handler left, a fresh request resolves Unroutable.
    assert!(matches!(
        world.request_now(&consumer, "again"),
        Err(Error::Unroutable)
    ));
}

// `accept` is decoupled from the dynamic count: once a handler has picked a request up,
// it can still serve it even if every handler (including itself) drops first, flipping the
// count to zero. The in-flight request must not be rejected as `Unroutable`.
#[test]
fn dynamic_request_accept_after_handler_dropped() {
    let mut world = World::new();
    let origin = world.origin();
    let dynamic = origin.dynamic(&mut world.state);
    let consumer = origin.consume();

    let request_fut = world.request(&consumer, "fallback");

    // The handler picks the request up, and after that every handler drops (count -> 0).
    let request = world.requested(&dynamic);
    dynamic.release(&mut world.state);

    // Accept still resolves the awaiting requester with the served broadcast.
    let served = world.broadcast();
    world.accept(request, served);
    assert!(world.resolved(&request_fut).unwrap() == served);
}

// A live announcement wins over the dynamic fallback; no request is queued.
#[test]
fn dynamic_request_prefers_announced() {
    let mut world = World::new();
    let origin = world.origin();
    let dynamic = origin.dynamic(&mut world.state);
    let consumer = origin.consume();

    let broadcast = world.broadcast();
    assert!(world.publish(&origin, "live", broadcast));

    let got = world.request_now(&consumer, "live").unwrap();
    assert_eq!(got, broadcast, "should return the announced broadcast");
    assert!(
        world.nothing_requested(&dynamic),
        "an announced path must not queue a fallback request"
    );
}

// Cloning a handler and dropping the clone must not flip the count to zero.
#[test]
fn origin_dynamic_clone_keeps_alive() {
    let mut world = World::new();
    let origin = world.origin();
    let dynamic = origin.dynamic(&mut world.state);
    let consumer = origin.consume();

    dynamic.share(&mut world.state).release(&mut world.state);

    // The original handle is still live, so the request registers (stays pending)
    // instead of resolving Unroutable.
    let request_fut = world.request(&consumer, "fallback");
    assert!(
        request_fut.poll_ok(&world.state.requests).is_pending(),
        "request should stay pending until served"
    );
}

#[test]
fn a_consumer_of_nothing_sees_nothing() {
    let mut world = World::new();
    let origin = world.origin();
    let b = world.broadcast();
    world.publish(&origin, "test", b);
    let nothing = origin.consume().empty();
    assert!(nothing.get_broadcast(&world.state, &Path::new("test")).is_none());
    let announced = world.announced(&nothing);
    world.assert_next_wait(&announced);
    assert!(!announced.is_closed(&world.state));
    let muted = Producer::empty(Origin::random());
    assert!(!world.publish(&muted, "test", b));
}

#[test]
fn a_closed_cursor_is_told_nothing_more() {
    let mut world = World::new();
    let origin = world.origin();
    let kept = world.announced(&origin.consume());
    let closed = world.announced(&origin.consume());
    closed.close(&mut world.state);
    let b = world.broadcast();
    world.publish(&origin, "test", b);
    world.assert_next(&kept, "test", b);
    assert_eq!(kept.absolute(&Path::new("a")).to_text(), "a");
}

#[test]
fn requests_are_keyed_by_absolute_path() {
    let mut world = World::new();
    let origin = world.origin();
    let dynamic = origin.dynamic(&mut world.state);
    let rooted = origin.consume().with_root(&Path::new("a")).unwrap();
    assert_eq!(rooted.absolute(&Path::new("x/y")).to_text(), "a/x/y");

    let first = world.request(&origin.consume(), "a/x");
    let second = world.request(&rooted, "x");
    let request = world.requested(&dynamic);
    assert_eq!(request.path().to_text(), "a/x");
    assert!(world.nothing_requested(&dynamic));

    let served = world.broadcast();
    world.accept(request, served);
    assert_eq!(world.resolved(&first).unwrap(), served);
    assert_eq!(world.resolved(&second).unwrap(), served);
}

#[test]
fn an_origin_produces_under_its_id() {
    let origin = Origin::new(77).unwrap();
    let producer = origin.produce();
    assert_eq!(producer.info().id, origin);
    assert!(producer.root().is_empty());
    assert_eq!(Info::new(origin).produce().consume().info, origin);
}

#[test]
fn a_result_goes_with_its_last_waiter() {
    let mut world = World::new();
    let origin = world.origin();
    let dynamic = origin.dynamic(&mut world.state);
    let consumer = origin.consume();

    let first = world.request(&consumer, "fallback");
    let second = world.request(&consumer, "fallback");
    assert_eq!(world.state.requests.results.len(), 1);
    let request = world.requested(&dynamic);

    // One who gives up takes nothing from the other, nor from the handler.
    first.release(&mut world.state.requests);
    assert!(second.poll_ok(&world.state.requests).is_pending());
    let served = world.broadcast();
    world.accept(request, served);
    assert_eq!(world.resolved(&second).unwrap(), served);
    second.release(&mut world.state.requests);
    assert_eq!(world.state.requests.results.len(), 0);

    // With nobody waiting, an answer leaves nothing behind.
    let third = world.request(&consumer, "other");
    let request = world.requested(&dynamic);
    third.release(&mut world.state.requests);
    assert_eq!(world.state.requests.results.len(), 1);
    request.reject(&mut world.state.requests, Error::Cancel);
    assert_eq!(world.state.requests.results.len(), 0);
}

#[test]
fn an_answer_leaves_a_newer_request_alone() {
    let mut world = World::new();
    let origin = world.origin();
    let dynamic = origin.dynamic(&mut world.state);
    let consumer = origin.consume();

    let first = world.request(&consumer, "fallback");
    let taken = world.requested(&dynamic);

    // Every handler leaves, another comes, and the path is asked for again.
    dynamic.release(&mut world.state);
    let dynamic = origin.dynamic(&mut world.state);
    let second = world.request(&consumer, "fallback");

    taken.reject(&mut world.state.requests, Error::Cancel);
    assert!(matches!(world.resolved(&first), Err(Error::Cancel)));
    assert!(second.poll_ok(&world.state.requests).is_pending());

    let request = world.requested(&dynamic);
    let served = world.broadcast();
    world.accept(request, served);
    assert_eq!(world.resolved(&second).unwrap(), served);
}
