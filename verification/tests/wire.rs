use moq_net::coding::{Decode, DecodeError, Encode, EncodeError};
use moq_net::coding::varint::{decode_varint, encode_varint, VarInt};
use moq_net::error::Error;
use moq_net::lite::frames::{
    decode_header, decode_zigzag_delta, encode_frame, encode_header, encode_zigzag_delta,
    end_group, fill_group,
};
use moq_net::lite::Version;
use moq_net::model::frame;
use moq_net::model::group;
use moq_net::model::route_key::route_key;
use moq_net::model::origin::{Origin, OriginList};
use moq_net::model::scope::{minimal_prefixes, Scope};
use moq_net::model::time::{Timescale, Timestamp};
use moq_net::model::track;
use moq_net::path::Path;
use moq_net::poll::Poll;

const VERSION: Version = Version::Lite05;

#[test]
fn varints_use_the_fewest_bytes() {
    let cases: [(u64, &[u8]); 5] = [
        (0, &[0x00]),
        (63, &[0x3f]),
        (64, &[0x40, 0x40]),
        (15293, &[0x7b, 0xbd]),
        (494878333, &[0x9d, 0x7f, 0x3e, 0x7d]),
    ];
    for (value, bytes) in cases {
        let mut buf = Vec::new();
        encode_varint(value, &mut buf).unwrap();
        assert_eq!(buf, bytes);
        let mut slice = &buf[..];
        assert_eq!(decode_varint(&mut slice).unwrap(), value);
        assert!(slice.is_empty());
    }
    let mut buf = Vec::new();
    encode_varint(151288809941952652, &mut buf).unwrap();
    assert_eq!(buf, [0xc2, 0x19, 0x7c, 0x5e, 0xff, 0x14, 0xe8, 0x8c]);
    assert!(encode_varint(1 << 62, &mut buf).is_err());
    assert_eq!(buf.len(), 8);
    assert!(matches!(decode_varint(&mut &[0x40u8][..]), Err(DecodeError::Short)));
}

#[test]
fn zigzag_alternates_signs() {
    for (value, code) in [(0i64, 0u64), (-1, 1), (1, 2), (-2, 3), (2, 4)] {
        let coded = VarInt::from_zigzag(value).unwrap();
        assert_eq!(coded.into_inner(), code);
        assert_eq!(coded.to_zigzag(), value);
    }
    assert!(VarInt::from_zigzag(i64::MAX).is_err());
    assert!(VarInt::from_u64(1 << 62).is_none());
    assert_eq!(VarInt::from_u128(7).unwrap().into_inner(), 7);
}

#[test]
fn timestamps_are_sent_as_differences() {
    let mut prev: u64 = 100;
    let mut buf = Vec::new();
    encode_zigzag_delta(90, &mut prev, &mut buf).unwrap();
    assert_eq!(prev, 90);
    assert_eq!(buf, [19]);
    assert_eq!(decode_zigzag_delta(19, 100).unwrap(), 90);
    assert!(matches!(decode_zigzag_delta(3, 1), Err(Error::BoundsExceeded(_))));
    assert!(matches!(
        encode_zigzag_delta(u64::MAX, &mut 0, &mut buf),
        Err(Error::BoundsExceeded(_))
    ));
    assert!(matches!(
        encode_zigzag_delta(1 << 62, &mut 0, &mut buf),
        Err(Error::Encode(EncodeError::BoundsExceeded))
    ));
    assert_eq!(buf.len(), 1);
}

#[test]
fn a_header_waits_for_its_bytes() {
    let info = frame::Info { size: 300, timestamp: Timestamp::from_millis(40).unwrap() };
    let mut prev: u64 = 0;
    let mut buf = Vec::new();
    encode_header(&info, Some(Timescale::milli()), &mut prev, &mut buf).unwrap();
    assert_eq!(buf, [0x40, 80, 0x41, 0x2c]);
    assert_eq!(prev, 40);

    let mut base: u64 = 0;
    let mut part = &buf[..3];
    assert!(matches!(
        decode_header(&mut base, Some(Timescale::milli()), &mut part, false),
        Err(Error::Decode(DecodeError::Short))
    ));
    assert_eq!(part.len(), 3);
    assert_eq!(base, 0);
    let mut whole = &buf[..];
    let header =
        decode_header(&mut base, Some(Timescale::milli()), &mut whole, false).unwrap().unwrap();
    assert_eq!(header.size, 300);
    assert_eq!(header.timestamp.unwrap(), info.timestamp);
    assert_eq!(base, 40);
    assert!(decode_header(&mut base, None, &mut whole, true).unwrap().is_none());
}

#[test]
fn frames_fill_the_group_they_came_from() {
    let scale = Some(Timescale::milli());
    let mut buf = Vec::new();
    let mut prev: u64 = 0;
    for (millis, payload) in [(10u64, "one"), (7, "two")] {
        let frame = frame::Frame {
            timestamp: Timestamp::from_millis(millis).unwrap(),
            payload: payload.as_bytes().to_vec(),
        };
        encode_frame(&frame, scale, &mut prev, &mut buf).unwrap();
    }
    assert_eq!(buf, [20, 3, b'o', b'n', b'e', 5, 3, b't', b'w', b'o']);

    let now = Timestamp::from_millis(99).unwrap();
    let mut group = group::Producer::new(group::Info { sequence: 4 }, track::Info::default());
    let outcome = fill_group(&mut group, scale, now, &buf);
    assert!(outcome.is_ok());
    end_group(&mut group, outcome);
    let mut reader = group.consume();
    for (millis, payload) in [(10u64, "one"), (7, "two")] {
        match reader.poll_read_frame(&group.state) {
            Poll::Ready(Ok(Some(bytes))) => assert_eq!(bytes, payload.as_bytes()),
            _ => panic!("expected {payload} at {millis}"),
        }
    }
    assert!(matches!(reader.poll_read_frame(&group.state), Poll::Ready(Ok(None))));
}

#[test]
fn a_cut_off_frame_aborts_its_group() {
    let now = Timestamp::from_millis(99).unwrap();
    let mut group = group::Producer::new(group::Info { sequence: 4 }, track::Info::default());
    let outcome = fill_group(&mut group, None, now, &[3, b'o', b'n']);
    assert!(outcome.is_err());
    end_group(&mut group, outcome);
    assert!(group.is_aborted());
}

#[test]
fn paths_drop_needless_slashes() {
    assert_eq!(Path::new("/a//b/").to_text(), "a/b");
    assert!(Path::new("//").is_empty());
    let path = Path::new("a/b/c");
    assert_eq!(path.len(), 3);
    assert_eq!(path.part(1), "b");
    assert!(path.has_prefix(&Path::new("a/b")));
    assert!(!path.has_prefix(&Path::new("a/bb")));
    assert!(!Path::new("ab").has_prefix(&Path::new("a")));
    assert_eq!(path.strip_prefix(&Path::new("a")).unwrap().to_text(), "b/c");
    assert!(path.strip_prefix(&Path::new("b")).is_none());
    assert_eq!(Path::empty().join(&path).to_text(), "a/b/c");

    let mut buf = Vec::new();
    path.encode(&mut buf, VERSION).unwrap();
    assert_eq!(buf, [5, b'a', b'/', b'b', b'/', b'c']);
    let mut slice = &buf[..];
    assert!(Path::decode(&mut slice, VERSION).unwrap().same(&path));
    assert!(matches!(
        Path::decode(&mut &[1u8, 0xff][..], VERSION),
        Err(DecodeError::InvalidString)
    ));
}

#[test]
fn a_path_on_the_wire_has_a_limit() {
    let text = vec!["p"; Path::MAX_PARTS].join("/");
    let at_limit = Path::new(&text);
    let mut buf = Vec::new();
    at_limit.encode(&mut buf, VERSION).unwrap();
    assert!(Path::decode(&mut &buf[..], VERSION).unwrap().same(&at_limit));

    let too_deep = at_limit.join(&Path::new("p"));
    let mut refused = Vec::new();
    assert!(matches!(too_deep.encode(&mut refused, VERSION), Err(EncodeError::BoundsExceeded)));
    assert!(refused.is_empty());
    let mut wire = Vec::new();
    too_deep.to_text().encode(&mut wire, VERSION).unwrap();
    assert!(matches!(Path::decode(&mut &wire[..], VERSION), Err(DecodeError::BoundsExceeded)));
}

#[test]
fn scopes_narrow_and_never_widen() {
    let paths = |texts: &[&str]| texts.iter().map(|text| Path::new(text)).collect::<Vec<_>>();
    let texts = |scope: &Scope| scope.roots.iter().map(|root| root.to_text()).collect::<Vec<_>>();
    let full = Scope::full();
    assert!(full.allows(&Path::new("any/thing")));
    assert!(!Scope::nothing().allows(&Path::new("any")));
    let narrow = full.select(&minimal_prefixes(&paths(&["foo/bar", "foo", "baz"]))).unwrap();
    assert_eq!(texts(&narrow), ["foo", "baz"]);
    let narrower = narrow.select(&paths(&["foo/bar", "other"])).unwrap();
    assert_eq!(texts(&narrower), ["foo/bar"]);
    assert!(!narrower.allows(&Path::new("foo")));
    assert!(narrower.select(&paths(&["baz"])).is_none());
    assert_eq!(texts(&narrower.root(&Path::new("foo")).unwrap()), ["bar"]);
    assert_eq!(texts(&narrower.root(&Path::new("foo/bar/x")).unwrap()), [""]);
    assert!(narrower.root(&Path::new("baz")).is_none());
}

#[test]
fn routes_are_ranked_the_same_everywhere() {
    let chain = |ids: &[u64]| {
        OriginList::try_from_vec(ids.iter().map(|id| Origin::new(*id).unwrap()).collect()).unwrap()
    };
    let path = Path::new("room/cam");
    let key = route_key(&path, &chain(&[10, 300]));
    assert_eq!(key.hops, 2);
    assert_eq!(key.hash, 0xfe5e1dc230f2f071);
    let short = route_key(&path, &chain(&[9]));
    assert!(short.less(key));
    assert!(!key.less(short));
    assert!(!key.less(key));
}
