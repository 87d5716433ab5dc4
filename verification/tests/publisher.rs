use std::collections::BTreeMap;

use moq_net::error::Error;
use moq_net::lite::announce_feed::{
    outgoing_cost, prepare_active_hops, Advert, AnnounceFeed, Observation, Offer, Op, Opening,
    COST_LINGER_NANOS,
};
use moq_net::lite::connecting::Connecting;
use moq_net::lite::serve::{poll_recv_next, Recv};
use moq_net::lite::{AnnounceBroadcast, Version};
use moq_net::model::broadcast;
use moq_net::model::group;
use moq_net::model::origin::{Origin, OriginList};
use moq_net::model::route::Route;
use moq_net::model::time::{Instant, Timestamp};
use moq_net::model::track;
use moq_net::path::Path;
use moq_net::poll::Poll;

const VERSION: Version = Version::Lite06Wip;

/// The cost of the route when nobody watches.
const COLD: u64 = 7;

const SEC: u128 = 1_000_000_000;

fn track_producer(name: &str) -> track::Producer {
    track::Producer::new(broadcast::Info::default(), name.to_string(), None, 0)
}

fn recv_next(
    subscriber: &mut track::Subscriber,
    producer: &track::Producer,
    datagrams: bool,
    emit_boundary: bool,
) -> Recv {
    match poll_recv_next(subscriber, &producer.state, datagrams, emit_boundary) {
        Poll::Ready(recv) => recv.unwrap(),
        Poll::Pending => panic!("would have blocked"),
    }
}

#[test]
fn recv_next_drains_datagram_before_finished() {
    let mut producer = track_producer("test");
    let mut subscriber = producer.subscribe(None);

    producer
        .append_datagram(
            Timestamp::from_millis(1).unwrap(),
            b"last".to_vec(),
            Instant { nanos: 0 },
        )
        .unwrap();
    producer.finish().unwrap();

    match recv_next(&mut subscriber, &producer, true, false) {
        Recv::Datagram(datagram) => assert_eq!(&datagram.payload[..], b"last"),
        _ => panic!("expected datagram before finished"),
    }

    match recv_next(&mut subscriber, &producer, true, false) {
        Recv::Finished => {}
        _ => panic!("expected finished after datagram"),
    }
}

#[test]
fn recv_next_reports_future_boundary_before_finished() {
    let now = Instant { nanos: 0 };
    let mut producer = track_producer("test");
    let mut subscriber = producer.subscribe(None);

    // The last group is 6 (exclusive 7), but only group 5 has been produced so far.
    producer.create_group(group::Info { sequence: 5 }, now).unwrap();
    producer.state.final_sequence = Some(7);

    // Group 5 is delivered first.
    match recv_next(&mut subscriber, &producer, false, true) {
        Recv::Group(group) => assert_eq!(group.info.sequence, 5),
        _ => panic!("expected group 5"),
    }

    // With no more groups ready yet, the declared boundary surfaces even though the track isn't
    // finished (group 6 is still outstanding).
    match recv_next(&mut subscriber, &producer, false, true) {
        Recv::Boundary(group) => assert_eq!(group, 7),
        _ => panic!("expected the future boundary"),
    }

    // The caller stops requesting the boundary once sent. The trailing group arrives, and the
    // track finishes after it.
    producer.create_group(group::Info { sequence: 6 }, now).unwrap();
    match recv_next(&mut subscriber, &producer, false, false) {
        Recv::Group(group) => assert_eq!(group.info.sequence, 6),
        _ => panic!("expected group 6"),
    }
    match recv_next(&mut subscriber, &producer, false, false) {
        Recv::Finished => {}
        _ => panic!("expected finished once the boundary is reached"),
    }
}

/// The announce loop with a clock that only moves when told to.
struct Harness {
    feed: AnnounceFeed,
    now: u128,
    /// What each broadcast looks like: its route, whether the route is news, and its demand.
    seen: BTreeMap<String, (Route, bool, bool)>,
    sent: Vec<Advert>,
}

impl Harness {
    fn route() -> Route {
        Route::new().with_cost(COLD).with_announce(true)
    }

    /// Announce one broadcast with cold cost [`COLD`] and run the announce loop against it,
    /// optionally with a viewer already attached (so the initial announce goes out warm, at
    /// cost zero).
    fn new(demand: bool) -> Harness {
        let feed = AnnounceFeed::new(VERSION, Origin::new(1).unwrap(), 0);
        let mut h = Harness { feed, now: 0, seen: BTreeMap::new(), sent: Vec::new() };
        let offer = Offer { channel: 0, route: Harness::route(), used: demand };
        match h.feed.open(vec![(Path::new("cam"), Some(offer))]) {
            Opening::Ready { ok, mut adverts } => {
                assert_eq!(ok.active, 1, "expected one initial announce");
                assert_eq!(ok.origin, Origin::new(1).unwrap());
                assert_eq!(adverts.len(), 1);
                let first = adverts.remove(0);
                assert!(matches!(first.message, AnnounceBroadcast::Active { .. }));
                assert_eq!(first.cost, if demand { 0 } else { COLD });
            }
            _ => panic!("expected the initial set"),
        }
        h.seen.insert("cam".to_string(), (Harness::route(), false, demand));
        h.settle();
        h
    }

    /// Announce a second broadcast once the loop is already running, with a viewer attached.
    fn announce(&mut self, name: &str) {
        let offer = Offer { channel: 1, route: Harness::route(), used: true };
        let advert = self.feed.on_announce(&Path::new(name), Some(offer)).unwrap();
        assert!(matches!(advert.message, AnnounceBroadcast::Active { .. }));
        assert_eq!(advert.cost, 0);
        self.seen.insert(name.to_string(), (Harness::route(), false, true));
        self.settle();
        self.assert_idle();
    }

    fn demand(&mut self, name: &str, used: bool) {
        self.seen.get_mut(name).unwrap().2 = used;
        self.settle();
    }

    fn fired(&self) -> Option<Instant> {
        let due = self.feed.earliest_idle()?.nanos + COST_LINGER_NANOS;
        if self.now >= due {
            Some(Instant { nanos: self.now })
        } else {
            None
        }
    }

    /// Run the loop until it waits.
    fn settle(&mut self) {
        for _ in 0..16 {
            let seen: Vec<(Path, Observation)> = self
                .seen
                .iter()
                .map(|(name, (_, news, used))| {
                    let changed = if *news { Poll::Ready(Ok(())) } else { Poll::Pending };
                    (Path::new(name), Observation { changed, used: *used, closed: false })
                })
                .collect();
            let fired = self.fired();
            match self.feed.poll_op(false, false, fired, &seen) {
                Poll::Pending => return,
                Poll::Ready(Op::Watched(suffix, turn)) => {
                    let entry = self.seen.get_mut(&suffix.to_text()).unwrap();
                    entry.1 = false;
                    let now = Instant { nanos: self.now };
                    let advert = self.feed.on_turn(&suffix, turn, &entry.0, entry.2, now);
                    self.sent.extend(advert);
                }
                Poll::Ready(Op::Linger) => {}
                Poll::Ready(_) => panic!("nothing else happens here"),
            }
        }
        panic!("the announce loop does not settle");
    }

    /// Let time pass, waking the loop whenever a linger ends.
    fn sleep(&mut self, secs: u128) {
        let until = self.now + secs * SEC;
        while let Some(at) = self.feed.earliest_idle() {
            let due = at.nanos + COST_LINGER_NANOS;
            if due > until {
                break;
            }
            self.now = due;
            self.settle();
        }
        self.now = until;
        self.settle();
    }

    fn assert_idle(&self) {
        assert!(self.sent.is_empty(), "the announce loop should be quiet");
    }

    fn take_restart(&mut self) -> (u64, OriginList, u64) {
        assert_eq!(self.sent.len(), 1, "expected one message");
        let advert = self.sent.remove(0);
        match advert.message {
            AnnounceBroadcast::Restart { id, hops } => (id, hops, advert.cost),
            _ => panic!("expected a restart"),
        }
    }
}

/// Demand draining while zero is advertised must not re-price immediately: the restore waits out
/// the linger, so viewer churn doesn't flap routing.
#[test]
fn drain_defers_the_cold_restore() {
    let mut h = Harness::new(true);

    h.demand("cam", false);
    h.assert_idle();

    // Still inside the linger window: still quiet.
    h.sleep(3);
    h.assert_idle();
}

/// Demand returning within the linger cancels the pending restore, and the next drain starts a
/// fresh window rather than inheriting the old deadline.
#[test]
fn demand_return_cancels_the_restore() {
    let mut h = Harness::new(true);

    // t=0: demand drains, arming the restore for t=5s.
    h.demand("cam", false);
    h.sleep(3);

    // t=3s: a new viewer inside the window cancels it.
    h.demand("cam", true);
    h.sleep(1);

    // t=4s: drained again, so the restore is due at t=9s, not t=5s.
    h.demand("cam", false);
    h.sleep(2);

    // t=6s: past the stale deadline. A restart here means it was never cleared.
    h.assert_idle();

    // t=10s: past the fresh deadline, so the restore finally lands.
    h.sleep(4);
    let (id, _, cost) = h.take_restart();
    assert_eq!(id, 0);
    assert_eq!(cost, COLD);
}

/// Each lingering broadcast restores on its own deadline: the loop sleeps until the *earliest*
/// pending restore, not the latest.
#[test]
fn staggered_lingers_restore_independently() {
    let mut h = Harness::new(true);
    h.announce("cam2");

    // t=0: the first drains, due at t=5s.
    h.demand("cam", false);
    h.sleep(2);
    h.assert_idle();

    // t=2s: the second drains, due at t=7s.
    h.demand("cam2", false);
    h.sleep(4);

    // t=6s: only the first has expired.
    let (id, _, cost) = h.take_restart();
    assert_eq!(id, 0);
    assert_eq!(cost, COLD);

    // t=8s: now the second's own deadline has passed.
    h.sleep(2);
    let (id, _, cost) = h.take_restart();
    assert_eq!(id, 1);
    assert_eq!(cost, COLD);
}

/// An expired linger sends exactly one restart restoring the cold cost.
#[test]
fn linger_expiry_restores_the_cold_cost() {
    let mut h = Harness::new(true);

    h.demand("cam", false);
    h.sleep(6);

    let (id, _, cost) = h.take_restart();
    assert_eq!(id, 0);
    assert_eq!(cost, COLD);

    // The restore is a one-shot: the loop settles back to idle.
    h.sleep(30);
    h.assert_idle();
}

/// A route change during the linger supersedes the pending restore: the restart it triggers
/// carries the new chain (and, with demand still gone, the cold cost), and the old deadline
/// passes without a second one.
#[test]
fn route_change_supersedes_the_linger() {
    let mut h = Harness::new(true);

    h.demand("cam", false);
    h.sleep(3);
    h.assert_idle();

    // An upstream failover mid-linger.
    let hops = OriginList::try_from_vec(vec![Origin::new(9).unwrap()]).unwrap();
    let entry = h.seen.get_mut("cam").unwrap();
    entry.0 = Harness::route().with_hops(hops.clone());
    entry.1 = true;
    h.settle();

    let (id, sent, cost) = h.take_restart();
    assert_eq!(id, 0);
    assert!(sent.same(&hops));
    assert_eq!(cost, COLD);

    // The pending restore went with it: the old deadline passes silently.
    h.sleep(30);
    h.assert_idle();
}

/// The warm edge has no hysteresis: a viewer arriving on a cold advertisement re-prices to zero
/// immediately.
#[test]
fn demand_reprices_warm_immediately() {
    let mut h = Harness::new(false);
    h.demand("cam", true);

    let (id, _, cost) = h.take_restart();
    assert_eq!(id, 0);
    assert_eq!(cost, 0);
}

#[test]
fn an_ended_broadcast_is_retracted_by_id() {
    let mut h = Harness::new(true);
    let advert = h.feed.on_announce(&Path::new("cam"), None).unwrap();
    assert!(matches!(advert.message, AnnounceBroadcast::EndedId { id: 0 }));
    assert!(h.feed.on_announce(&Path::new("cam"), None).is_none());
}

#[test]
fn a_dead_peer_ends_the_feed_first() {
    let mut h = Harness::new(true);
    assert!(matches!(h.feed.poll_op(true, true, None, &Vec::new()), Poll::Ready(Op::Closed)));
    assert!(matches!(h.feed.poll_op(false, true, None, &Vec::new()), Poll::Ready(Op::Announce)));
    let gone = Observation { changed: Poll::Ready(Err(Error::Dropped)), used: false, closed: true };
    match h.feed.poll_op(false, false, None, &vec![(Path::new("cam"), gone)]) {
        Poll::Ready(Op::Watched(suffix, turn)) => {
            let now = Instant { nanos: 0 };
            assert!(h.feed.on_turn(&suffix, turn, &Harness::route(), false, now).is_none());
        }
        _ => panic!("a closed broadcast is to be forgotten"),
    }
    assert!(h.feed.earliest_idle().is_none());
}

#[test]
fn a_route_through_the_peer_is_not_sent_back() {
    let own = Origin::new(1).unwrap();
    let hops = OriginList::try_from_vec(vec![Origin::new(9).unwrap()]).unwrap();
    assert!(prepare_active_hops(&hops, own, 9, Version::Lite05).is_none());
    let looped = OriginList::try_from_vec(vec![own]).unwrap();
    assert!(prepare_active_hops(&looped, own, 0, Version::Lite05).is_none());
    assert!(prepare_active_hops(&hops, own, 4, Version::Lite05).unwrap().same(&hops));
}

#[test]
fn cost_is_free_while_watched() {
    let route = Harness::route();
    assert_eq!(outgoing_cost(VERSION, true, &route), 0);
    assert_eq!(outgoing_cost(VERSION, false, &route), COLD);
    assert_eq!(outgoing_cost(Version::Lite05, false, &route), 0);
}

#[test]
fn ready_once_every_producer_dropped() {
    let mut connecting = Connecting::new();
    connecting.add_step();
    assert!(connecting.poll_ready().is_pending(), "not ready while a producer lives");
    connecting.finish_step();
    assert!(connecting.poll_ready().is_pending(), "still a clone outstanding");
    connecting.finish_step();
    assert!(connecting.poll_ready().is_ready(), "ready once the last producer drops");
}

#[test]
fn ready_when_sole_producer_dropped() {
    // No steps registered (a version with no initial-set boundary, or an empty origin): dropping
    // the only producer resolves immediately.
    let mut connecting = Connecting::new();
    connecting.finish_step();
    assert!(connecting.poll_ready().is_ready());
}

#[test]
fn the_opening_skips_what_passed_through_the_peer() {
    let hops = |ids: &[u64]| {
        OriginList::try_from_vec(ids.iter().map(|id| Origin::new(*id).unwrap()).collect()).unwrap()
    };
    let offer = |channel: u64, ids: &[u64]| {
        Some(Offer { channel, route: Harness::route().with_hops(hops(ids)), used: false })
    };
    let mut feed = AnnounceFeed::new(Version::Lite05, Origin::new(1).unwrap(), 9);
    let opening = feed.open(vec![
        (Path::new("a"), offer(0, &[7])),
        (Path::new("b"), offer(1, &[9, 7])),
        (Path::new("c"), offer(2, &[1])),
        (Path::new("d"), offer(3, &[8, 7])),
    ]);
    match opening {
        Opening::Ready { ok, adverts } => {
            assert_eq!(ok.origin, Origin::new(1).unwrap());
            assert_eq!(ok.active, 2);
            let sent: Vec<(String, Vec<u64>)> = adverts
                .into_iter()
                .map(|advert| match advert.message {
                    AnnounceBroadcast::Active { suffix, hops } => {
                        (suffix.to_text(), hops.iter().map(|hop| hop.id()).collect())
                    }
                    _ => panic!("expected an announcement"),
                })
                .collect();
            assert_eq!(sent, [("a".to_string(), vec![7]), ("d".to_string(), vec![8, 7])]);
        }
        _ => panic!("expected the initial set"),
    }
}
