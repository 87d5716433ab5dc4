use moq_net::coding::{Decode, Encode, EncodeError};
use moq_net::lite::setup::{PARAM_PATH, PARAM_PROBE, PARAM_ROLE};
use moq_net::lite::{Parameters, PeerSetup, ProbeLevel, Role, Setup, Version};
use moq_net::poll::Poll;

fn round_trip(msg: &Setup) -> Setup {
    let mut buf = Vec::new();
    msg.encode(&mut buf, Version::Lite05).unwrap();
    let mut slice = &buf[..];
    let got = Setup::decode(&mut slice, Version::Lite05).unwrap();
    assert!(slice.is_empty(), "trailing bytes after decode");
    got
}

#[test]
fn empty_round_trip() {
    let msg = Setup::default();
    assert_eq!(round_trip(&msg), msg);
}

#[test]
fn probe_levels_round_trip() {
    for probe in [ProbeLevel::Nothing, ProbeLevel::Report, ProbeLevel::Increase] {
        let msg = Setup {
            probe,
            ..Default::default()
        };
        assert_eq!(round_trip(&msg), msg);
    }
}

#[test]
fn path_round_trip() {
    let msg = Setup {
        probe: ProbeLevel::Report,
        path: Some("/room/123".to_string()),
        role: Role::Both,
    };
    assert_eq!(round_trip(&msg), msg);
}

#[test]
fn roles_round_trip() {
    for role in [Role::Publisher, Role::Subscriber, Role::Both] {
        let msg = Setup {
            path: Some("/room/123".to_string()),
            role,
            ..Default::default()
        };
        assert_eq!(round_trip(&msg), msg);
    }
}

#[test]
fn role_both_omits_parameter() {
    // Both is the absence of the parameter, so a SETUP is byte-identical whether the role is set
    // to Both or left at its default. This is what lets a client that predates the parameter
    // decode back to Both.
    let mut with = Vec::new();
    Setup {
        role: Role::Both,
        ..Default::default()
    }
    .encode(&mut with, Version::Lite05)
    .unwrap();

    let mut without = Vec::new();
    Setup::default().encode(&mut without, Version::Lite05).unwrap();

    assert_eq!(with, without);
}

fn framed(params: &Parameters) -> Vec<u8> {
    let mut body = Vec::new();
    params.encode(&mut body, Version::Lite05).unwrap();

    let mut buf = Vec::new();
    body.len().encode(&mut buf, Version::Lite05).unwrap();
    buf.extend_from_slice(&body);
    buf
}

#[test]
fn unknown_probe_level_saturates_to_increase() {
    // Frame a SETUP message carrying an unknown probe level (99) by hand: the parameters body,
    // prefixed with its length (the lite Message size prefix).
    let mut params = Parameters::default();
    params.set_varint(PARAM_PROBE, 99);
    let buf = framed(&params);

    let mut slice = &buf[..];
    let got = Setup::decode(&mut slice, Version::Lite05).unwrap();
    assert_eq!(got.probe, ProbeLevel::Increase);
}

#[test]
fn unknown_role_decodes_as_both() {
    // A role value the receiver doesn't recognize (a future extension, or an explicit 0) decodes
    // to Both rather than failing, so a newer client can't break an older server.
    for code in [0u64, 9, 250] {
        let mut params = Parameters::default();
        params.set_varint(PARAM_ROLE, code);
        let buf = framed(&params);

        let mut slice = &buf[..];
        let got = Setup::decode(&mut slice, Version::Lite05).unwrap();
        assert_eq!(got.role, Role::Both, "role code {code} should decode as Both");
    }
}

#[test]
fn rejects_before_lite05() {
    let msg = Setup::default();
    let mut buf = Vec::new();
    assert!(matches!(
        msg.encode(&mut buf, Version::Lite04),
        Err(EncodeError::Version)
    ));
}

#[test]
fn ignores_unknown_parameters() {
    // Frame a SETUP carrying an unknown parameter ID alongside the path.
    let mut params = Parameters::default();
    params.set_bytes(PARAM_PATH, b"/foo".to_vec());
    params.set_bytes(0xbeef, b"whatever".to_vec());
    let buf = framed(&params);

    let mut slice = &buf[..];
    let got = Setup::decode(&mut slice, Version::Lite05).unwrap();
    assert_eq!(got.path.as_deref(), Some("/foo"));
}

#[test]
fn a_repeated_parameter_keeps_the_last_value() {
    let mut params = Parameters::default();
    params.set_varint(PARAM_PROBE, 1);
    params.set_varint(PARAM_PROBE, 2);
    assert_eq!(params.get_varint(PARAM_PROBE), Ok(Some(2)));
    assert_eq!(params.get_varint(PARAM_ROLE), Ok(None));
}

#[test]
fn peer_probe_level_waits_for_the_setup() {
    let mut peer = PeerSetup::default();
    assert_eq!(peer.probe_level(false), Poll::Pending);
    // A session that ends without a SETUP settles on nothing.
    assert_eq!(peer.probe_level(true), Poll::Ready(ProbeLevel::Nothing));
    peer.set(Setup {
        probe: ProbeLevel::Report,
        ..Default::default()
    });
    assert_eq!(peer.probe_level(false), Poll::Ready(ProbeLevel::Report));
}
