use moq_net::coding::{Decode, Encode, Message};
use moq_net::lite::{
    Fetch, SubscribeDrop, SubscribeEnd, SubscribeOk, SubscribeResponse, SubscribeStart, Track, TrackInfo, Version,
};
use moq_net::model::time::{Duration, Timescale};
use moq_net::path::Path;

#[test]
fn subscribe_start_roundtrips_on_lite05() {
    let resp = SubscribeResponse::Start(SubscribeStart { group: 42 });
    let mut buf = Vec::new();
    resp.encode(&mut buf, Version::Lite05).unwrap();
    let mut slice = buf.as_slice();
    match SubscribeResponse::decode(&mut slice, Version::Lite05).unwrap() {
        SubscribeResponse::Start(start) => assert_eq!(start.group, 42),
        other => panic!("expected Start, got {other:?}"),
    }
}

#[test]
fn subscribe_end_roundtrips_on_lite05() {
    let resp = SubscribeResponse::End(SubscribeEnd { group: 7 });
    let mut buf = Vec::new();
    resp.encode(&mut buf, Version::Lite05).unwrap();
    let mut slice = buf.as_slice();
    match SubscribeResponse::decode(&mut slice, Version::Lite05).unwrap() {
        SubscribeResponse::End(end) => assert_eq!(end.group, 7),
        other => panic!("expected End, got {other:?}"),
    }
}

#[test]
fn subscribe_drop_is_type_2_on_lite05() {
    let resp = SubscribeResponse::Drop(SubscribeDrop {
        start: 1,
        end: 3,
        error: 0,
    });
    let mut buf = Vec::new();
    resp.encode(&mut buf, Version::Lite05).unwrap();
    // Type discriminator is the first varint; on Lite05 DROP is 0x2.
    assert_eq!(buf[0], 2);

    let mut slice = buf.as_slice();
    match SubscribeResponse::decode(&mut slice, Version::Lite05).unwrap() {
        SubscribeResponse::Drop(drop) => assert_eq!((drop.start, drop.end), (1, 3)),
        other => panic!("expected Drop, got {other:?}"),
    }
}

#[test]
fn subscribe_drop_is_type_1_on_lite04() {
    let resp = SubscribeResponse::Drop(SubscribeDrop {
        start: 1,
        end: 3,
        error: 0,
    });
    let mut buf = Vec::new();
    resp.encode(&mut buf, Version::Lite04).unwrap();
    assert_eq!(buf[0], 1);
}

#[test]
fn subscribe_ok_rejected_on_lite05() {
    let resp = SubscribeResponse::Accepted(SubscribeOk {
        priority: 1,
        ordered: true,
        max_latency: Duration::zero(),
        start_group: None,
        end_group: None,
    });
    let mut buf = Vec::new();
    assert!(resp.encode(&mut buf, Version::Lite05).is_err());
}

fn info_sample() -> TrackInfo {
    TrackInfo {
        priority: 7,
        ordered: false,
        cache: Duration::from_millis(2000),
        timescale: Timescale::micro(),
    }
}

fn info_roundtrip(version: Version, info: &TrackInfo) -> TrackInfo {
    let mut buf = Vec::new();
    info.encode_msg(&mut buf, version).unwrap();
    let mut slice = buf.as_slice();
    TrackInfo::decode_msg(&mut slice, version).unwrap()
}

#[test]
fn track_info_roundtrips_on_lite05() {
    let got = info_roundtrip(Version::Lite05, &info_sample());
    assert_eq!(got.priority, 7);
    assert!(!got.ordered);
    assert_eq!(got.cache, Duration::from_millis(2000));
    assert_eq!(got.timescale, Timescale::micro());
}

#[test]
fn track_info_default_timescale_roundtrips() {
    let mut info = info_sample();
    info.timescale = Timescale::default();
    assert_eq!(info_roundtrip(Version::Lite05, &info).timescale, Timescale::milli());
}

#[test]
fn track_info_errors_before_lite05() {
    let mut buf = Vec::new();
    assert!(info_sample().encode_msg(&mut buf, Version::Lite04).is_err());
}

#[test]
fn track_request_roundtrips_on_lite05() {
    let msg = Track {
        broadcast: Path::new("room"),
        track: "video".to_string(),
    };
    let mut buf = Vec::new();
    msg.encode_msg(&mut buf, Version::Lite05).unwrap();
    let mut slice = buf.as_slice();
    let got = Track::decode_msg(&mut slice, Version::Lite05).unwrap();
    assert_eq!(got.broadcast, Path::new("room"));
    assert_eq!(got.track, "video");
}

#[test]
fn track_request_errors_before_lite05() {
    let msg = Track {
        broadcast: Path::new("room"),
        track: "video".to_string(),
    };
    let mut buf = Vec::new();
    assert!(msg.encode_msg(&mut buf, Version::Lite04).is_err());
}

fn fetch_sample() -> Fetch {
    Fetch {
        broadcast: Path::new("room"),
        track: "video".to_string(),
        priority: 3,
        group: 7,
    }
}

fn fetch_roundtrip(version: Version, msg: &Fetch) -> Fetch {
    let mut buf = Vec::new();
    msg.encode_msg(&mut buf, version).unwrap();
    let mut slice = buf.as_slice();
    Fetch::decode_msg(&mut slice, version).unwrap()
}

#[test]
fn fetch_roundtrips() {
    for version in [Version::Lite03, Version::Lite04, Version::Lite05] {
        let got = fetch_roundtrip(version, &fetch_sample());
        assert_eq!(got.broadcast, Path::new("room"));
        assert_eq!(got.track, "video");
        assert_eq!(got.priority, 3);
        assert_eq!(got.group, 7);
    }
}

#[test]
fn fetch_rejected_before_lite03() {
    let mut buf = Vec::new();
    assert!(fetch_sample().encode_msg(&mut buf, Version::Lite02).is_err());
}
