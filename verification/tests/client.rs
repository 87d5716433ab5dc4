use moq_net::client::{after_setup, agree, Alpn, Client, Handshake, IetfVersion, Version, Versions};
use moq_net::error::Error;
use moq_net::lite;
use moq_net::lite::probe::{wants_probe, ProbeReports, ProbeWatch};
use moq_net::lite::session::{close_code, expect_setup, session_stream_ended, start};
use moq_net::lite::stream::{accept_control, accept_data, ControlType, DataType};
use moq_net::lite::{PeerSetup, ProbeLevel, Role, Setup};
use moq_net::model::handles::Producer;
use moq_net::model::origin::{Info, Origin};
use moq_net::model::time::{Duration, Instant};
use moq_net::poll::Poll;

fn offered() -> Versions {
    Versions::new(vec![
        Version::Lite(lite::Version::Lite03),
        Version::Lite(lite::Version::Lite02),
        Version::Lite(lite::Version::Lite01),
        Version::Ietf(IetfVersion::Draft14),
    ])
}

fn run_alpn_lite_fallback_case(protocol: Option<Alpn>) {
    let client = Client::new().with_versions(offered());

    // The client setup is encoded using Draft14 framing.
    let supported = match client.negotiate(protocol) {
        Ok(Handshake::Negotiate { encoding, supported }) => {
            assert_eq!(encoding, IetfVersion::Draft14);
            supported
        }
        _ => panic!("expected SETUP messages to be exchanged"),
    };
    assert_eq!(
        supported.list,
        vec![
            Version::Lite(lite::Version::Lite02),
            Version::Lite(lite::Version::Lite01),
            Version::Ietf(IetfVersion::Draft14),
        ]
    );

    // The session goes on in the version that the server chose.
    let chosen = agree(&supported, Version::Lite(lite::Version::Lite01)).unwrap();
    match after_setup(chosen) {
        Handshake::Lite { version, setup } => {
            assert_eq!(version, lite::Version::Lite01);
            assert_eq!(setup.path, None);
        }
        _ => panic!("expected a lite session"),
    }
}

#[test]
fn alpn_lite_falls_back_to_draft14_and_switches_version_post_setup() {
    run_alpn_lite_fallback_case(Some(Alpn::Lite));
}

#[test]
fn no_alpn_falls_back_to_draft14_and_switches_version_post_setup() {
    run_alpn_lite_fallback_case(None);
}

#[test]
fn a_version_that_was_not_offered_is_refused() {
    let client = Client::new().with_versions(Versions::new(vec![Version::Lite(
        lite::Version::Lite03,
    )]));
    assert!(matches!(client.negotiate(None), Err(Error::Version)));
    assert!(matches!(client.negotiate(Some(Alpn::Lite)), Err(Error::Version)));
    assert!(matches!(client.negotiate(Some(Alpn::Lite04)), Err(Error::Version)));
    assert!(matches!(
        client.negotiate(Some(Alpn::Draft(IetfVersion::Draft17))),
        Err(Error::Version)
    ));
    assert!(client.negotiate(Some(Alpn::Lite03)).is_ok());
    assert!(matches!(
        agree(&offered(), Version::Lite(lite::Version::Lite05)),
        Err(Error::Version)
    ));
}

#[test]
fn an_unknown_alpn_is_named() {
    match Client::new().negotiate(Some(Alpn::Unknown("h3".to_string()))) {
        Err(Error::UnknownAlpn(name)) => assert_eq!(name, "h3"),
        _ => panic!("expected the protocol to be unknown"),
    }
}

#[test]
fn drafts_before_17_exchange_setup_first() {
    let client = Client::new().with_path("/room".to_string());
    match client.negotiate(Some(Alpn::Draft(IetfVersion::Draft16))) {
        Ok(Handshake::Negotiate { encoding, supported }) => {
            assert_eq!(encoding, IetfVersion::Draft16);
            assert_eq!(supported.list, vec![Version::Ietf(IetfVersion::Draft16)]);
        }
        _ => panic!("expected SETUP messages to be exchanged"),
    }
    match client.negotiate(Some(Alpn::Draft(IetfVersion::Draft18))) {
        Ok(Handshake::Ietf { draft, path }) => {
            assert_eq!(draft, IetfVersion::Draft18);
            assert_eq!(path, Some("/room".to_string()));
        }
        _ => panic!("expected the session to exchange SETUP"),
    }
}

#[test]
fn the_setup_tells_what_the_client_is_for() {
    let origin = Producer::new(Info::new(Origin::new(5).unwrap()));
    let client = Client::new().with_publisher(&origin).with_path("room".to_string());
    match client.negotiate(Some(Alpn::Lite05)) {
        Ok(Handshake::Lite { version, setup }) => {
            assert_eq!(version, lite::Version::Lite05);
            assert_eq!(setup.role, Role::Publisher);
            assert_eq!(setup.probe, ProbeLevel::Report);
            assert_eq!(setup.path, Some("room".to_string()));
        }
        _ => panic!("expected a lite session"),
    }
    // Nothing of it reaches a version without a Setup Stream.
    match client.negotiate(Some(Alpn::Lite04)) {
        Ok(Handshake::Lite { setup, .. }) => assert_eq!(setup.path, None),
        _ => panic!("expected a lite session"),
    }
    let client = Client::new().with_subscriber(origin.clone()).with_path(String::new());
    assert_eq!(client.our_setup().role, Role::Subscriber);
    assert_eq!(client.our_setup().path, None);
    assert_eq!(Client::new().with_origin(origin).our_setup().role, Role::Both);
}

#[test]
fn an_unset_half_gets_an_empty_origin() {
    let own = Origin::new(5).unwrap();
    let begun = start(None, None, own, own, lite::Version::Lite05, Setup::default(), None);
    assert!(begun.publish.allowed().is_empty());
    assert!(begun.subscribe.allowed().is_empty());
    assert_eq!(begun.publish.info, own);
    assert!(begun.send_setup.is_some());
    assert_eq!(begun.recv_bandwidth.unwrap().consumers, 1);
    assert!(begun.estimates.is_some());
    assert!(begun.connecting.poll_ready().is_pending());

    let origin = Producer::new(Info::new(Origin::new(6).unwrap()));
    let consumer = origin.consume();
    let begun =
        start(Some(consumer), Some(origin), own, own, lite::Version::Lite03, Setup::default(), None);
    assert_eq!(begun.publish.info, Origin::new(6).unwrap());
    assert_eq!(begun.subscribe.info().id, Origin::new(6).unwrap());
    assert!(begun.send_setup.is_none());
    assert!(begun.connecting.poll_ready().is_ready());

    let begun = start(None, None, own, own, lite::Version::Lite01, Setup::default(), None);
    assert!(begun.recv_bandwidth.is_none());
    assert!(begun.estimates.is_none());
    assert!(begun.connecting.poll_ready().is_pending());
}

#[test]
fn the_close_tells_what_ended_the_session() {
    assert_eq!(close_code(&Ok(())), (0, false));
    assert_eq!(close_code(&Err(Error::Transport("lost".to_string()))), (1, false));
    assert_eq!(close_code(&Err(Error::Version)), (9, true));
    assert!(matches!(session_stream_ended(true), Err(Error::Cancel)));
    assert!(session_stream_ended(false).is_ok());
}

#[test]
fn streams_are_refused_by_version() {
    assert!(expect_setup(DataType::Setup).is_ok());
    assert!(matches!(expect_setup(DataType::Group), Err(Error::UnexpectedStream)));
    assert!(accept_data(DataType::Group, lite::Version::Lite01).is_ok());
    assert!(accept_data(DataType::Setup, lite::Version::Lite04).is_err());
    assert!(accept_data(DataType::Setup, lite::Version::Lite05).is_ok());
    assert!(accept_control(ControlType::Track, lite::Version::Lite04).is_err());
    assert!(accept_control(ControlType::Track, lite::Version::Lite05).is_ok());
    assert!(accept_control(ControlType::Subscribe, lite::Version::Lite01).is_ok());
}

#[test]
fn probing_waits_for_the_peer_to_advertise_it() {
    let mut peer = PeerSetup::default();
    assert!(matches!(wants_probe(lite::Version::Lite04, &peer, false), Poll::Ready(true)));
    assert!(wants_probe(lite::Version::Lite05, &peer, false).is_pending());
    assert!(matches!(wants_probe(lite::Version::Lite05, &peer, true), Poll::Ready(false)));
    peer.set(Setup::default());
    assert!(matches!(wants_probe(lite::Version::Lite05, &peer, false), Poll::Ready(false)));
    let mut peer = PeerSetup::default();
    peer.set(Client::new().our_setup());
    assert!(matches!(wants_probe(lite::Version::Lite05, &peer, false), Poll::Ready(true)));
}

#[test]
fn a_probe_that_ends_is_not_opened_again() {
    let waiting = ProbeWatch::Waiting;
    assert_eq!(waiting.step(Poll::Pending, Poll::Pending, false), ProbeWatch::Waiting);
    let probing = waiting.step(Poll::Ready(Ok(())), Poll::Pending, false);
    assert_eq!(probing, ProbeWatch::Probing);
    assert_eq!(probing.step(Poll::Pending, Poll::Ready(Ok(())), false), ProbeWatch::Waiting);
    let stopped = probing.step(Poll::Pending, Poll::Pending, true);
    assert_eq!(stopped, ProbeWatch::Stopped);
    assert_eq!(stopped.step(Poll::Ready(Ok(())), Poll::Pending, false), ProbeWatch::Stopped);
}

#[test]
fn an_estimate_is_reported_when_it_tells_something() {
    let at = |millis: u128| Instant { nanos: millis * 1_000_000 };
    let mut reports = ProbeReports::new();
    assert_eq!(reports.on_tick(None, true, at(0)), None);
    assert_eq!(reports.baseline(at(0)), None);
    assert_eq!(reports.on_tick(Some(0), false, at(100)), Some(0));
    assert_eq!(reports.on_tick(Some(0), true, at(200)), None);
    assert_eq!(reports.baseline(at(300)), None);
    assert_eq!(reports.on_tick(Some(1_000), false, at(300)), Some(1_000));
    assert_eq!(reports.baseline(at(310)), Some((1_000, Duration::from_millis(100))));
    assert_eq!(reports.baseline(at(800)), Some((1_000, Duration::from_millis(500))));
    assert_eq!(reports.baseline(at(60_000)), Some((1_000, Duration::from_secs(10))));
    assert_eq!(reports.on_tick(Some(1_001), false, at(400)), None);
    assert_eq!(reports.on_tick(Some(2_000), true, at(500)), Some(2_000));
    assert_eq!(reports.last_sent, Some((2_000, at(500))));
}
