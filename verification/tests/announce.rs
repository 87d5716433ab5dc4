use moq_net::coding::{Decode, DecodeError, Encode, EncodeError};
use moq_net::lite::announce::{STATUS_ACTIVE, STATUS_RESTART};
use moq_net::lite::{AnnounceBroadcast, AnnounceInit, AnnounceOk, AnnounceRequest, Version};
use moq_net::model::origin::{Origin, OriginList};
use moq_net::path::Path;

// An active announcement whose status byte is rewritten to the explicit restart status.
fn encode_forged_restart(version: Version) -> Vec<u8> {
    let active = AnnounceBroadcast::Active {
        suffix: Path::new("foo/bar"),
        hops: OriginList::new(),
    };
    let mut buf = Vec::new();
    active.encode(&mut buf, version).unwrap();

    // The message is a size prefix followed by the body; for this small body the prefix is one
    // byte, so the status byte sits at index 1.
    assert_eq!(buf[1], STATUS_ACTIVE, "expected an Active status byte");
    buf[1] = STATUS_RESTART;
    buf
}

// On lite-05+ the explicit `restart` status is accepted and surfaced as an `Active` (the
// subscriber turns it into a restart for an already-announced path).
#[test]
fn decodes_explicit_restart_status_as_active_on_lite05() {
    let version = Version::Lite05;
    let buf = encode_forged_restart(version);
    let mut slice = &buf[..];
    let decoded = AnnounceBroadcast::decode(&mut slice, version).expect("explicit restart must decode");
    assert!(slice.is_empty(), "trailing bytes after decode");
    assert!(
        matches!(decoded, AnnounceBroadcast::Active { .. }),
        "restart should decode as Active"
    );
}

// Older versions never defined the restart status, so it's an invalid value there.
#[test]
fn rejects_explicit_restart_status_before_lite05() {
    let version = Version::Lite04;
    let buf = encode_forged_restart(version);
    let mut slice = &buf[..];
    assert!(
        matches!(
            AnnounceBroadcast::decode(&mut slice, version),
            Err(DecodeError::InvalidValue)
        ),
        "restart status must be rejected before lite-05"
    );
}

fn round_trip(msg: &AnnounceOk) -> AnnounceOk {
    let mut buf = Vec::new();
    msg.encode(&mut buf, Version::Lite05).unwrap();
    let mut slice = &buf[..];
    let got = AnnounceOk::decode(&mut slice, Version::Lite05).unwrap();
    assert!(slice.is_empty(), "trailing bytes after decode");
    got
}

#[test]
fn announce_ok_round_trip() {
    let msg = AnnounceOk {
        origin: Origin::new(42).unwrap(),
        active: 3,
    };
    assert_eq!(round_trip(&msg), msg);
}

#[test]
fn announce_ok_zero_active() {
    let msg = AnnounceOk {
        origin: Origin::new(7).unwrap(),
        active: 0,
    };
    assert_eq!(round_trip(&msg), msg);
}

fn broadcast_round_trip(msg: &AnnounceBroadcast, version: Version) -> AnnounceBroadcast {
    let mut buf = Vec::new();
    msg.encode(&mut buf, version).unwrap();
    let mut slice = &buf[..];
    let got = AnnounceBroadcast::decode(&mut slice, version).unwrap();
    assert!(slice.is_empty(), "trailing bytes after decode");
    got
}

#[test]
fn announce_broadcast_round_trip_on_lite05() {
    let mut hops = OriginList::new();
    hops.push(Origin::new(7).unwrap()).unwrap();
    let msg = AnnounceBroadcast::Active {
        suffix: Path::new("room/cam"),
        hops: hops.clone(),
    };
    assert_eq!(broadcast_round_trip(&msg, Version::Lite05), msg);

    let ended = AnnounceBroadcast::Ended {
        suffix: Path::new("room/cam"),
        hops: OriginList::new(),
    };
    assert_eq!(broadcast_round_trip(&ended, Version::Lite05), ended);
}

#[test]
fn announce_broadcast_round_trip_on_lite06() {
    let mut hops = OriginList::new();
    hops.push(Origin::new(7).unwrap()).unwrap();

    let active = AnnounceBroadcast::Active {
        suffix: Path::new("room/cam"),
        hops: hops.clone(),
    };
    assert_eq!(broadcast_round_trip(&active, Version::Lite06Wip), active);

    let ended = AnnounceBroadcast::EndedId { id: 3 };
    assert_eq!(broadcast_round_trip(&ended, Version::Lite06Wip), ended);

    let restart = AnnounceBroadcast::Restart { id: 3, hops };
    assert_eq!(broadcast_round_trip(&restart, Version::Lite06Wip), restart);
}

// The id-referencing forms don't exist before lite-06, and the path form is gone on lite-06.
#[test]
fn announce_broadcast_rejects_cross_version_forms() {
    let mut buf = Vec::new();
    assert!(matches!(
        AnnounceBroadcast::EndedId { id: 1 }.encode(&mut buf, Version::Lite05),
        Err(EncodeError::Version)
    ));
    assert!(matches!(
        AnnounceBroadcast::Restart {
            id: 1,
            hops: OriginList::new()
        }
        .encode(&mut buf, Version::Lite05),
        Err(EncodeError::Version)
    ));
    assert!(matches!(
        AnnounceBroadcast::Ended {
            suffix: Path::new("room/cam"),
            hops: OriginList::new()
        }
        .encode(&mut buf, Version::Lite06Wip),
        Err(EncodeError::Version)
    ));
}

// An ANNOUNCE_END message on lite-06 is tiny: type byte, size prefix, id varint.
#[test]
fn ended_by_id_is_three_bytes() {
    let mut buf = Vec::new();
    AnnounceBroadcast::EndedId { id: 42 }
        .encode(&mut buf, Version::Lite06Wip)
        .unwrap();
    assert_eq!(buf.len(), 3);
}

#[test]
fn announce_ok_rejects_old_versions() {
    let msg = AnnounceOk {
        origin: Origin::new(1).unwrap(),
        active: 0,
    };
    let mut buf = Vec::new();
    assert!(matches!(
        msg.encode(&mut buf, Version::Lite04),
        Err(EncodeError::Version)
    ));
}

#[test]
fn announce_ok_accepts_zero_origin() {
    // Encode a well-formed message, and rewrite the origin to 0 on the wire.
    let mut buf = Vec::new();
    AnnounceOk {
        origin: Origin::new(1).unwrap(),
        active: 0,
    }
    .encode(&mut buf, Version::Lite05)
    .unwrap();
    // size(1 byte) | origin varint(1 byte = 0x01) | active varint(1 byte)
    let mut patched = buf.to_vec();
    patched[1] = 0x00;
    let mut slice = &patched[..];
    let got = AnnounceOk::decode(&mut slice, Version::Lite05).unwrap();
    assert_eq!(got.origin.id(), 0);
    assert_eq!(got.active, 0);
}

#[test]
fn announce_request_carries_the_excluded_hop_from_lite04() {
    let msg = AnnounceRequest {
        prefix: Path::new("/room//a/"),
        exclude_hop: 9,
    };
    let mut buf = Vec::new();
    msg.encode(&mut buf, Version::Lite05).unwrap();
    let mut slice = &buf[..];
    let got = AnnounceRequest::decode(&mut slice, Version::Lite05).unwrap();
    assert!(slice.is_empty());
    assert_eq!(got.prefix.to_text(), "room/a");
    assert_eq!(got.exclude_hop, 9);
}

#[test]
fn announce_init_lists_suffixes() {
    let msg = AnnounceInit {
        suffixes: vec![Path::new("a"), Path::new("b/c")],
    };
    let mut buf = Vec::new();
    msg.encode(&mut buf, Version::Lite02).unwrap();
    let mut slice = &buf[..];
    assert_eq!(AnnounceInit::decode(&mut slice, Version::Lite02).unwrap(), msg);
    assert!(slice.is_empty());
}
