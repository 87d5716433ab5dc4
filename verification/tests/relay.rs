use moq_net::error::Error;
use moq_net::lite::announce_intake::{AnnounceIntake, Taken};
use moq_net::lite::serve::{
    serve_step, subscribe_reply, subscription_of, track_from_info, track_info, wire_timescale,
    Served, Serving, Step, Turn,
};
use moq_net::lite::subscriptions::{Subscriptions, TrackEntry};
use moq_net::lite::track_serve::{
    fetch_info, finish_track, Action, Event, Track, TrackServe,
};
use moq_net::lite::{
    AnnounceBroadcast, AnnounceInit, AnnounceOk, Datagram as WireDatagram, Subscribe, SubscribeOk,
    SubscribeResponse, SubscribeUpdate, Version,
};
use moq_net::coding::Decode;
use moq_net::model::broadcast;
use moq_net::model::datagram::Datagram;
use moq_net::model::group;
use moq_net::model::handles::{OriginState, Producer};
use moq_net::model::origin::{Info, Origin, OriginList};
use moq_net::model::subscription::Subscription;
use moq_net::model::time::{Duration, Instant, Timescale, Timestamp};
use moq_net::model::track;
use moq_net::path::Path;
use moq_net::poll::Poll;

fn now() -> Instant {
    Instant { nanos: 0 }
}

fn ready<T>(poll: Poll<T>) -> T {
    match poll {
        Poll::Ready(value) => value,
        Poll::Pending => panic!("would have blocked"),
    }
}

fn origin(id: u64) -> Origin {
    Origin::new(id).unwrap()
}

fn hops(ids: &[u64]) -> OriginList {
    OriginList::try_from_vec(ids.iter().map(|id| origin(*id)).collect()).unwrap()
}

fn intake(version: Version) -> (OriginState, Producer, AnnounceIntake) {
    let local = Producer::new(Info::new(origin(1)));
    let intake = AnnounceIntake::new(version, local.clone(), Path::new("room"), origin(2));
    (OriginState::new(), local, intake)
}

fn active(suffix: &str, ids: &[u64]) -> AnnounceBroadcast {
    AnnounceBroadcast::Active { suffix: Path::new(suffix), hops: hops(ids) }
}

fn found(state: &OriginState, local: &Producer, path: &str) -> Option<(u64, Vec<u64>)> {
    let source = local.consume().get_broadcast(state, &Path::new(path))?;
    Some((source.channel, source.hops.iter().map(|hop| hop.id()).collect()))
}

#[test]
fn the_initial_set_ends_the_connection_step() {
    let (mut state, local, mut intake) = intake(Version::Lite05);
    assert_eq!(intake.request().prefix.to_text(), "room");
    intake.on_ok(AnnounceOk { origin: origin(9), active: 2 });
    assert!(!intake.connected);
    let taken = intake.on_message(&mut state, active("cam", &[7]), 10).unwrap();
    assert!(matches!(taken, Taken::Started(path) if path.to_text() == "room/cam"));
    assert!(!intake.connected);
    intake.on_message(&mut state, active("mic", &[7]), 11).unwrap();
    assert!(intake.connected);
    assert!(found(&state, &local, "room/cam").is_some());
    assert!(found(&state, &local, "room/mic").is_some());
}

#[test]
fn an_empty_initial_set_connects_at_once() {
    let (_, _, mut intake) = intake(Version::Lite05);
    intake.on_ok(AnnounceOk { origin: origin(9), active: 0 });
    assert!(intake.connected);
}

#[test]
fn the_responder_is_a_hop_of_its_announcements() {
    let (mut state, local, mut intake) = intake(Version::Lite05);
    intake.on_ok(AnnounceOk { origin: origin(9), active: 0 });
    intake.on_message(&mut state, active("cam", &[7]), 10).unwrap();
    assert_eq!(found(&state, &local, "room/cam"), Some((10, vec![7, 9])));
}

#[test]
fn our_own_announcements_are_not_taken_back() {
    let (mut state, local, mut intake) = intake(Version::Lite05);
    intake.on_ok(AnnounceOk { origin: origin(9), active: 0 });
    let taken = intake.on_message(&mut state, active("cam", &[1, 7]), 10).unwrap();
    assert!(matches!(taken, Taken::Ignored));
    assert_eq!(found(&state, &local, "room/cam"), None);
}

#[test]
fn an_announcement_can_be_replaced_and_retracted() {
    let (mut state, local, mut intake) = intake(Version::Lite05);
    intake.on_ok(AnnounceOk { origin: origin(9), active: 0 });
    intake.on_message(&mut state, active("cam", &[7]), 10).unwrap();
    let taken = intake.on_message(&mut state, active("cam", &[8]), 11).unwrap();
    assert!(matches!(taken, Taken::Restarted(_)));
    assert_eq!(found(&state, &local, "room/cam"), Some((11, vec![8, 9])));
    let ended = AnnounceBroadcast::Ended { suffix: Path::new("cam"), hops: hops(&[]) };
    let taken = intake.on_message(&mut state, ended, 12).unwrap();
    assert!(matches!(taken, Taken::Ended(path) if path.to_text() == "room/cam"));
    assert_eq!(found(&state, &local, "room/cam"), None);
    // A retraction of what was never accepted is no error.
    let ended = AnnounceBroadcast::Ended { suffix: Path::new("cam"), hops: hops(&[]) };
    assert!(matches!(intake.on_message(&mut state, ended, 12), Ok(Taken::Ignored)));
}

#[test]
fn ids_name_announcements() {
    let (mut state, local, mut intake) = intake(Version::Lite06Wip);
    intake.on_ok(AnnounceOk { origin: origin(9), active: 0 });
    intake.on_message(&mut state, active("cam", &[7]), 10).unwrap();
    intake.on_message(&mut state, active("mic", &[7]), 11).unwrap();
    let restart = AnnounceBroadcast::Restart { id: 1, hops: hops(&[8]) };
    assert!(matches!(
        intake.on_message(&mut state, restart, 12),
        Ok(Taken::Restarted(path)) if path.to_text() == "room/mic"
    ));
    assert_eq!(found(&state, &local, "room/mic"), Some((12, vec![8, 9])));
    let ended = AnnounceBroadcast::EndedId { id: 0 };
    assert!(matches!(intake.on_message(&mut state, ended, 0), Ok(Taken::Ended(_))));
    assert_eq!(found(&state, &local, "room/cam"), None);

    // A retired id, and one that was never given, are violations.
    let ended = AnnounceBroadcast::EndedId { id: 0 };
    assert!(matches!(
        intake.on_message(&mut state, ended, 0),
        Err(Error::ProtocolViolation)
    ));
    let restart = AnnounceBroadcast::Restart { id: 5, hops: hops(&[]) };
    assert!(matches!(
        intake.on_message(&mut state, restart, 0),
        Err(Error::ProtocolViolation)
    ));
}

#[test]
fn an_initial_list_starts_each_path() {
    let (mut state, local, mut intake) = intake(Version::Lite02);
    let init = AnnounceInit { suffixes: vec![Path::new("cam"), Path::new("mic")] };
    let started = intake.on_init(&mut state, &init, 10).unwrap();
    assert_eq!(started.len(), 2);
    assert_eq!(started[0].0.to_text(), "room/cam");
    assert_ne!(started[0].1, started[1].1);
    assert!(intake.connected);
    assert!(found(&state, &local, "room/mic").is_some());
    // Older versions end what is there and do not replace it.
    assert!(matches!(
        intake.on_message(&mut state, active("cam", &[]), 20),
        Err(Error::Duplicate)
    ));
}

fn serve(version: Version) -> TrackServe {
    TrackServe::new(version, Path::new("room"), "video".to_string())
}

fn pending() -> track::Request {
    track::Request::new(broadcast::Info::new(), "video".to_string(), 3)
}

#[test]
fn the_upstream_is_opened_paused_and_resumed() {
    let mut machine = serve(Version::Lite05);
    let mut track = Track::Active(pending().accept(None));
    let subscriber = match &mut track {
        Track::Active(producer) => producer.subscribe(Some(Subscription::default().with_priority(4))),
        Track::Pending(_) => panic!("the track was accepted"),
    };

    let event = ready(machine.poll_demand(&mut track));
    assert!(matches!(event, Event::Subscription(Some(_))));
    let demand = match machine.on_event(event, track.latest()) {
        Action::Open(demand) => demand,
        _ => panic!("expected the upstream to be opened"),
    };
    let message = machine.subscribe_message(8, &demand);
    assert_eq!(message.id, 8);
    assert_eq!(message.broadcast.to_text(), "room");
    assert_eq!(message.track, "video");
    assert_eq!(message.priority, 4);
    let (mut track, outcome) = machine.establish(track, 8, &demand, None);
    assert!(outcome.is_ok());
    assert!(machine.poll_demand(&mut track).is_pending());

    // The last subscriber leaves.
    subscriber.close(track.state());
    let event = ready(machine.poll_demand(&mut track));
    match machine.on_event(event, Some(12)) {
        Action::Update(update) => {
            assert_eq!(update.priority, 0);
            assert_eq!(update.end_group, Some(12));
        }
        _ => panic!("expected the upstream to be paused"),
    }
    let event = ready(machine.poll_demand(&mut track));
    assert!(matches!(event, Event::Idle));
    assert!(matches!(machine.on_event(event, None), Action::Linger));
    assert!(machine.poll_demand(&mut track).is_pending());

    // One comes back within the linger.
    let subscriber = match &mut track {
        Track::Active(producer) => producer.subscribe(None),
        Track::Pending(_) => panic!("the track was accepted"),
    };
    let event = ready(machine.poll_demand(&mut track));
    match machine.on_event(event, Some(12)) {
        Action::Update(update) => assert_eq!(update.end_group, None),
        _ => panic!("expected the upstream to be resumed"),
    }
    assert!(!machine.lingering);
    subscriber.close(track.state());
    assert!(matches!(
        machine.on_event(Event::LingerExpired, None),
        Action::Stop(Some(8), Error::Cancel)
    ));
}

#[test]
fn older_versions_need_an_answer() {
    let mut machine = serve(Version::Lite02);
    let mut request = pending();
    let reader = request.consume();
    let demand = Subscription::default();
    let _subscribe = reader.subscribe(&mut request.state, Some(demand));
    let track = Track::Pending(request);
    let (track, outcome) = machine.establish(track, 0, &demand, None);
    assert!(matches!(outcome, Err(Error::ProtocolViolation)));
    assert!(matches!(track, Track::Pending(_)));
    let answer = SubscribeOk {
        priority: 0,
        ordered: false,
        max_latency: Duration::zero(),
        start_group: None,
        end_group: None,
    };
    let answer = Some(SubscribeResponse::Accepted(answer));
    let (mut track, outcome) = machine.establish(track, 0, &demand, answer);
    assert!(outcome.is_ok());
    assert!(matches!(track, Track::Active(_)));
    assert!(machine.poll_demand(&mut track).is_pending());
    assert!(!machine.supports_linger());
    assert!(matches!(machine.on_event(Event::Idle, None), Action::Stop(Some(0), Error::Cancel)));
}

#[test]
fn a_completed_upstream_is_not_opened_again() {
    let mut machine = serve(Version::Lite05);
    let demand = Subscription::default();
    let track = Track::Active(pending().accept(None));
    let (_track, _) = machine.establish(track, 3, &demand, None);
    assert!(matches!(
        machine.on_event(Event::SubClosed(Ok(())), None),
        Action::Complete(Some(3))
    ));
    assert!(matches!(
        machine.on_event(Event::Subscription(Some(demand)), None),
        Action::Continue
    ));
    assert!(matches!(
        machine.on_event(Event::SubClosed(Err(Error::Remote(7))), None),
        Action::Stop(None, Error::Remote(7))
    ));
}

#[test]
fn a_fetch_goes_first() {
    let mut machine = serve(Version::Lite05);
    let mut producer = pending().accept(None);
    let dynamic = producer.dynamic();
    let reader = producer.consume();
    let options = group::Fetch::default().with_priority(6);
    let fetch = reader.fetch_group(&mut producer.state, 20, options);
    let mut track = Track::Active(producer);
    let request = match machine.poll_event(&mut track, false, Poll::Pending, None, false) {
        Poll::Ready(Event::Fetch(request)) => request,
        _ => panic!("expected the fetch"),
    };
    let message = machine.fetch_message(&request);
    assert_eq!(message.group, 20);
    assert_eq!(message.priority, 6);
    assert!(matches!(machine.on_event(Event::Fetch(request), None), Action::Fetch(_)));
    assert_eq!(machine.fetches, 1);
    assert!(matches!(machine.on_event(Event::FetchDone, None), Action::Continue));
    assert_eq!(machine.fetches, 0);
    assert!(fetch.poll(track.state()).is_pending());
    dynamic.release(track.state());
    let mut state = finish_track(track, Error::Cancel);
    assert!(matches!(ready(fetch.poll(&mut state)), Err(Error::Cancel)));
    assert_eq!(fetch_info(None).timescale, Timescale::milli());
    assert_eq!(fetch_info(Some(Timescale::micro())).timescale, Timescale::micro());
}

fn subscribe(start_group: Option<u64>, end_group: Option<u64>) -> Subscribe {
    Subscribe {
        id: 5,
        broadcast: Path::new("room"),
        track: "video".to_string(),
        priority: 3,
        ordered: true,
        max_latency: Duration::from_millis(100),
        start_group,
        end_group,
    }
}

#[test]
fn a_subscription_is_served_to_its_end() {
    let asked = subscribe(Some(1), None);
    assert_eq!(subscription_of(&asked).group_start, Some(1));
    assert!(subscribe_reply(&asked, Version::Lite05).is_none());
    assert!(matches!(
        subscribe_reply(&asked, Version::Lite04),
        Some(SubscribeResponse::Accepted(_))
    ));

    let mut producer = pending().accept(None);
    let subscriber = producer.subscribe(Some(subscription_of(&asked)));
    for _ in 0..3 {
        producer.append_group(now()).unwrap();
    }
    let mut serving = Serving::new(&asked, subscriber, &producer.state, Version::Lite05, 1200);

    match ready(serving.poll(&producer.state)).unwrap() {
        Step::Serve { start, group, priority } => {
            assert_eq!(start.unwrap().group, 1);
            assert_eq!(group.info.sequence, 1);
            assert_eq!(priority, 3);
        }
        _ => panic!("expected a group"),
    }
    match ready(serving.poll(&producer.state)).unwrap() {
        Step::Serve { start, group, .. } => {
            assert!(start.is_none());
            assert_eq!(group.info.sequence, 2);
        }
        _ => panic!("expected a group"),
    }
    assert!(serving.poll(&producer.state).is_pending());

    let datagram = Datagram {
        sequence: 7,
        timestamp: Timestamp::from_millis(4).unwrap(),
        payload: b"x".to_vec(),
    };
    let body = serving.datagram_body(datagram, 1200).unwrap();
    let wire = WireDatagram::decode(&mut &body[..], Version::Lite05).unwrap();
    assert_eq!(wire.subscribe, 5);
    assert_eq!(wire.sequence, 7);
    assert_eq!(wire.timestamp, 4);
    let large = Datagram {
        sequence: 7,
        timestamp: Timestamp::from_millis(4).unwrap(),
        payload: vec![0; 600],
    };
    assert!(serving.datagram_body(large, 500).is_none());

    producer.finish().unwrap();
    match ready(serving.poll(&producer.state)).unwrap() {
        Step::End(end) => assert_eq!(end.group, 3),
        _ => panic!("expected the end of the range"),
    }
    assert!(matches!(ready(serving.poll(&producer.state)).unwrap(), Step::Finish));
}

#[test]
fn an_update_moves_the_range() {
    let asked = subscribe(Some(0), Some(0));
    let mut producer = pending().accept(None);
    let subscriber = producer.subscribe(Some(subscription_of(&asked)));
    for _ in 0..2 {
        producer.append_group(now()).unwrap();
    }
    let mut serving = Serving::new(&asked, subscriber, &producer.state, Version::Lite05, 0);
    assert!(!serving.datagrams);
    ready(serving.poll(&producer.state)).unwrap();
    assert!(serving.poll(&producer.state).is_pending());

    let update = SubscribeUpdate {
        priority: 9,
        ordered: false,
        max_latency: Duration::zero(),
        start_group: None,
        end_group: None,
    };
    let turn = ready(serving.turn(&mut producer.state, Poll::Ready(Ok(Some(update)))));
    assert!(matches!(turn, Ok(Some(Turn::Updated))));
    assert_eq!(producer.subscription().unwrap().priority, 9);
    match ready(serving.turn(&mut producer.state, Poll::Pending)).unwrap() {
        Some(Turn::Step(Step::Serve { group, priority, .. })) => {
            assert_eq!(group.info.sequence, 1);
            assert_eq!(priority, 9);
        }
        _ => panic!("expected the group that the update let through"),
    }
    assert!(matches!(
        serving.turn(&mut producer.state, Poll::Ready(Ok(None))),
        Poll::Ready(Ok(None))
    ));
}

#[test]
fn a_group_yields_to_changes_of_priority() {
    let mut seen: u8 = 3;
    let closed = serve_step::<u8>(true, Poll::Pending, Poll::Pending, 3, &mut seen);
    assert!(matches!(closed, Poll::Ready(Served::Done(Err(Error::Cancel)))));
    let done = serve_step(false, Poll::Ready(Ok(1u8)), Poll::Ready(4), 3, &mut seen);
    assert!(matches!(done, Poll::Ready(Served::Done(Ok(1)))));
    let moved = serve_step::<u8>(false, Poll::Pending, Poll::Ready(4), 3, &mut seen);
    assert!(matches!(moved, Poll::Ready(Served::Priority(4))));
    let changed = serve_step::<u8>(false, Poll::Pending, Poll::Pending, 8, &mut seen);
    assert!(matches!(changed, Poll::Ready(Served::TrackPriority(8))));
    assert_eq!(seen, 8);
    assert!(serve_step::<u8>(false, Poll::Pending, Poll::Pending, 8, &mut seen).is_pending());
}

#[test]
fn track_properties_survive_the_wire() {
    let info = track::Info::default()
        .with_priority(6)
        .with_timescale(Timescale::micro())
        .with_cache(Duration::from_secs(9));
    assert_eq!(track_from_info(&track_info(&info)), info);
    assert_eq!(wire_timescale(Version::Lite05, &info), Some(Timescale::micro()));
    assert_eq!(wire_timescale(Version::Lite04, &info), None);
}

#[test]
fn a_group_finds_its_subscription() {
    let mut table = Subscriptions::new();
    let first = table.allocate();
    let second = table.allocate();
    assert_ne!(first, second);
    table.insert(second, TrackEntry { channel: 4, timescale: None });
    assert_eq!(table.find(second).unwrap().channel, 4);
    assert!(table.find(first).is_err());
    table.remove(second);
    assert!(table.find(second).is_err());
}

#[test]
fn a_list_that_repeats_a_path_is_refused() {
    let (mut state, local, mut intake) = intake(Version::Lite01);
    let init = AnnounceInit {
        suffixes: vec![Path::new("cam"), Path::new("mic"), Path::new("cam"), Path::new("x")],
    };
    assert!(matches!(intake.on_init(&mut state, &init, 10), Err(Error::Duplicate)));
    // What came before it was published.
    assert!(found(&state, &local, "room/mic").is_some());
    assert!(found(&state, &local, "room/x").is_none());
    assert!(!intake.connected);
}

#[test]
fn a_stream_that_ends_withdraws_its_announcements() {
    let (mut state, local, mut intake) = intake(Version::Lite05);
    intake.on_ok(AnnounceOk { origin: origin(9), active: 0 });
    intake.on_message(&mut state, active("cam", &[7]), 10).unwrap();
    intake.on_message(&mut state, active("mic", &[7]), 11).unwrap();
    let kept = local.create_broadcast(&mut state, &Path::new("room/own"), 12).unwrap();
    intake.close(&mut state);
    assert!(found(&state, &local, "room/cam").is_none());
    assert!(found(&state, &local, "room/mic").is_none());
    assert_eq!(found(&state, &local, "room/own"), Some((12, vec![])));
    assert_eq!(kept.publish.channel, 12);
}

#[test]
fn a_replacement_through_us_retires_the_announcement() {
    let (mut state, local, mut intake) = intake(Version::Lite06Wip);
    intake.on_ok(AnnounceOk { origin: origin(9), active: 0 });
    intake.on_message(&mut state, active("cam", &[7]), 10).unwrap();
    let restart = AnnounceBroadcast::Restart { id: 0, hops: hops(&[1]) };
    assert!(matches!(
        intake.on_message(&mut state, restart, 11),
        Ok(Taken::Ended(path)) if path.to_text() == "room/cam"
    ));
    assert_eq!(found(&state, &local, "room/cam"), None);
    // The id stays live, so a usable route starts it again.
    let restart = AnnounceBroadcast::Restart { id: 0, hops: hops(&[8]) };
    assert!(matches!(
        intake.on_message(&mut state, restart, 12),
        Ok(Taken::Started(path)) if path.to_text() == "room/cam"
    ));
    assert_eq!(found(&state, &local, "room/cam"), Some((12, vec![8, 9])));
}

#[test]
fn a_change_of_demand_is_told_once() {
    let machine = serve(Version::Lite05);
    let mut track = Track::Active(pending().accept(None));
    let _subscriber = match &mut track {
        Track::Active(producer) => producer.subscribe(None),
        Track::Pending(_) => panic!("the track was accepted"),
    };
    let event = machine.poll_event(&mut track, false, Poll::Pending, None, false);
    assert!(matches!(event, Poll::Ready(Event::Subscription(Some(_)))));
    assert!(machine.poll_event(&mut track, false, Poll::Pending, None, false).is_pending());
    match track {
        Track::Active(producer) => assert_eq!(producer.channel, 3),
        Track::Pending(_) => panic!("the track was accepted"),
    }
}
