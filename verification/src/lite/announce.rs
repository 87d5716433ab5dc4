//! The messages of an Announce Stream.

use vstd::prelude::*;

use crate::coding::decode::{advance, tail_of, tail_of_self, tail_of_tail, Decode, DecodeError, Wire};
use crate::coding::encode::{followed_by, print_varint, Encode, EncodeError, RoundTrip};
use crate::coding::list::{
    carried_list, decode_list, encode_list, list_round_trip, models, parse_list, print_list,
};
use crate::coding::message::{confined, leave, Message};
use crate::coding::varint::{parse_varint, varint_bytes, varint_round_trip};
use crate::lite::Version;
use crate::model::origin::{Origin, OriginList, MAX_HOPS};
use crate::path::Path;

verus! {

broadcast use {tail_of_self, tail_of_tail};

// lite-06 announce message types: an outer discriminator carried before the length
// prefix, so each announcement is an independently-typed, length-delimited message
// (mirroring SUBSCRIBE_START/END/DROP on the subscribe stream).
pub const ANNOUNCE_START: u64 = 0;

pub const ANNOUNCE_END: u64 = 1;

pub const ANNOUNCE_RESTART: u64 = 2;

// The status byte of an older announcement.
pub const STATUS_ENDED: u8 = 0;

pub const STATUS_ACTIVE: u8 = 1;

pub const STATUS_RESTART: u8 = 2;

/// Whether the negotiated version carries restart (REANNOUNCE) semantics. On lite-05 a
/// restart travels as a duplicate ANNOUNCE (a second `active` for an already-announced
/// path); on lite-06+ it is the explicit restart message referencing an announce id.
/// Older versions never defined this, so we neither send nor interpret it there; a restart
/// is sent as an unannounce followed by a fresh announce instead.
pub fn restart_supported(version: Version) -> (r: bool)
    ensures
        r == (version.rank() >= 5),
{
    match version {
        Version::Lite01 | Version::Lite02 | Version::Lite03 | Version::Lite04 => false,
        _ => true,
    }
}

/// An announcement on the Announce Stream, advertising or retracting a broadcast.
///
/// On lite-06+ these are three independently-typed messages (`ANNOUNCE_START`,
/// `ANNOUNCE_END`, `ANNOUNCE_RESTART`), each framed as `Type | Length | Body` like
/// the subscribe stream's responses. Each `Active` (ANNOUNCE_START) implicitly assigns
/// the next announce id (a per-stream ordinal starting at 0); `EndedId` (ANNOUNCE_END)
/// and `Restart` (ANNOUNCE_RESTART) reference that id instead of repeating the path.
/// Older versions send a single `ANNOUNCE_BROADCAST` message that retracts by path
/// (`Ended`).
#[derive(Debug, PartialEq, Eq)]
pub enum AnnounceBroadcast {
    /// ANNOUNCE_START (lite-06) / active (older): a broadcast is now available.
    /// Carries the path suffix and the hop chain, and assigns the next announce id.
    Active { suffix: Path, hops: OriginList },
    /// Pre-lite-06: a broadcast is no longer available, retracted by path.
    Ended { suffix: Path, hops: OriginList },
    /// ANNOUNCE_END (lite-06+): a broadcast is no longer available, retracted by
    /// announce id. The id is retired; referencing it again is a protocol violation.
    EndedId { id: u64 },
    /// ANNOUNCE_RESTART (lite-06+): atomically replace the announcement with this id
    /// (e.g. a new hop chain after a relay failover). The id stays live.
    Restart { id: u64, hops: OriginList },
}

/// What an [`AnnounceBroadcast`] stands for.
pub enum AnnounceModel {
    Active { suffix: Seq<Seq<char>>, hops: Seq<Origin> },
    Ended { suffix: Seq<Seq<char>>, hops: Seq<Origin> },
    EndedId { id: u64 },
    Restart { id: u64, hops: Seq<Origin> },
}

impl Wire for AnnounceBroadcast {
    type Model = AnnounceModel;

    open spec fn model(&self) -> AnnounceModel {
        match self {
            AnnounceBroadcast::Active { suffix, hops } => AnnounceModel::Active {
                suffix: suffix@,
                hops: hops@,
            },
            AnnounceBroadcast::Ended { suffix, hops } => AnnounceModel::Ended {
                suffix: suffix@,
                hops: hops@,
            },
            AnnounceBroadcast::EndedId { id } => AnnounceModel::EndedId { id: *id },
            AnnounceBroadcast::Restart { id, hops } => AnnounceModel::Restart {
                id: *id,
                hops: hops@,
            },
        }
    }
}

/// Writing a hop chain: nothing before lite-03, only its length on lite-03.
pub open spec fn print_hops(hops: Seq<Origin>, version: Version) -> Result<Seq<u8>, EncodeError> {
    if version.rank() <= 2 {
        Ok(seq![])
    } else if version.rank() == 3 {
        print_varint(hops.len() as int)
    } else {
        OriginList::print(hops, version)
    }
}

/// Reading a hop chain: empty before lite-03; on lite-03 as many unknown origins as the
/// count says.
pub open spec fn parse_hops(bytes: Seq<u8>, version: Version) -> (
    Result<Seq<Origin>, DecodeError>,
    Seq<u8>,
) {
    if version.rank() <= 2 {
        (Ok(seq![]), bytes)
    } else if version.rank() == 3 {
        match parse_varint(bytes) {
            (Err(e), rest) => (Err(e), rest),
            (Ok(count), rest) => if count > MAX_HOPS {
                (Err(DecodeError::BoundsExceeded), rest)
            } else {
                (Ok(Seq::new(count as nat, |i: int| Origin::of(0))), rest)
            },
        }
    } else {
        OriginList::parse(bytes, version)
    }
}

/// What the wire carries of a hop chain.
pub open spec fn carried_hops(hops: Seq<Origin>, version: Version) -> Seq<Origin> {
    if version.rank() <= 2 {
        seq![]
    } else if version.rank() == 3 {
        Seq::new(hops.len(), |i: int| Origin::of(0))
    } else {
        hops
    }
}

fn encode_hops(buf: &mut Vec<u8>, version: Version, hops: &OriginList) -> (r: Result<
    (),
    EncodeError,
>)
    ensures
        match print_hops(hops@, version) {
            Ok(bytes) => r is Ok && final(buf)@ == old(buf)@ + bytes,
            Err(e) => r == Err::<(), EncodeError>(e) && final(buf)@ == old(buf)@,
        },
{
    match version {
        Version::Lite01 | Version::Lite02 => {
            assert(buf@ + Seq::<u8>::empty() =~= buf@);
            Ok(())
        },
        Version::Lite03 => (hops.len() as u64).encode(buf, version),
        _ => hops.encode(buf, version),
    }
}

fn decode_hops(buf: &mut &[u8], version: Version) -> (r: Result<OriginList, DecodeError>)
    ensures
        match r {
            Ok(hops) => parse_hops(old(buf)@, version).0 == Ok::<Seq<Origin>, DecodeError>(hops@),
            Err(e) => parse_hops(old(buf)@, version).0 == Err::<Seq<Origin>, DecodeError>(e),
        },
        final(buf)@ == parse_hops(old(buf)@, version).1,
        tail_of(final(buf)@, old(buf)@),
{
    match version {
        Version::Lite01 | Version::Lite02 => Ok(OriginList::new()),
        Version::Lite03 => {
            // Only a hop count is sent, not individual ids. Fill with placeholders; `push`
            // enforces the cap.
            let count: u64 = u64::decode(buf, version)?;
            let mut hops: OriginList = OriginList::new();
            let mut i: u64 = 0;
            while i < count
                invariant
                    i <= count,
                    i <= MAX_HOPS,
                    hops@ == Seq::new(i as nat, |i: int| Origin::of(0)),
                    parse_varint(old(buf)@) == (Ok::<u64, DecodeError>(count), buf@),
                    tail_of(buf@, old(buf)@),
                    version.rank() == 3,
                decreases count - i,
            {
                match hops.push(Origin::unknown()) {
                    Ok(()) => {},
                    Err(_) => {
                        return Err(DecodeError::BoundsExceeded);
                    },
                }
                i += 1;
                assert(hops@ =~= Seq::new(i as nat, |i: int| Origin::of(0)));
            }
            Ok(hops)
        },
        _ => OriginList::decode(buf, version),
    }
}

proof fn hops_round_trip(hops: Seq<Origin>, version: Version)
    requires
        hops.len() <= MAX_HOPS,
        print_hops(hops, version) is Ok,
        print_hops(hops, version)->Ok_0.len() <= usize::MAX,
    ensures
        parse_hops(print_hops(hops, version)->Ok_0, version) == (
            Ok::<Seq<Origin>, DecodeError>(carried_hops(hops, version)),
            Seq::<u8>::empty(),
        ),
{
    let bytes = print_hops(hops, version)->Ok_0;
    assert(bytes + Seq::<u8>::empty() =~= bytes);
    if version.rank() <= 2 {
    } else if version.rank() == 3 {
        varint_round_trip(hops.len() as u64, seq![]);
    } else {
        OriginList::round_trip(hops, version, seq![]);
    }
}

/// The type and the body of an announcement on lite-06+.
pub open spec fn print_announce_typed(model: AnnounceModel, version: Version) -> Result<
    (u64, Seq<u8>),
    EncodeError,
> {
    match model {
        AnnounceModel::Active { suffix, hops } => match followed_by(
            Path::print(suffix, version),
            OriginList::print(hops, version),
        ) {
            Ok(body) => Ok((ANNOUNCE_START, body)),
            Err(e) => Err(e),
        },
        AnnounceModel::EndedId { id } => match u64::print(id, version) {
            Ok(body) => Ok((ANNOUNCE_END, body)),
            Err(e) => Err(e),
        },
        AnnounceModel::Restart { id, hops } => match followed_by(
            u64::print(id, version),
            OriginList::print(hops, version),
        ) {
            Ok(body) => Ok((ANNOUNCE_RESTART, body)),
            Err(e) => Err(e),
        },
        AnnounceModel::Ended { .. } => Err(EncodeError::Version),
    }
}

/// The body of an announcement before lite-06.
pub open spec fn print_announce_legacy(model: AnnounceModel, version: Version) -> Result<
    Seq<u8>,
    EncodeError,
> {
    match model {
        AnnounceModel::Active { suffix, hops } => followed_by(
            u8::print(STATUS_ACTIVE, version),
            followed_by(Path::print(suffix, version), print_hops(hops, version)),
        ),
        AnnounceModel::Ended { suffix, hops } => followed_by(
            u8::print(STATUS_ENDED, version),
            followed_by(Path::print(suffix, version), print_hops(hops, version)),
        ),
        _ => Err(EncodeError::Version),
    }
}

/// A size, then the body.
pub open spec fn print_sized(body: Seq<u8>) -> Result<Seq<u8>, EncodeError> {
    followed_by(print_varint(body.len() as int), Ok(body))
}

fn encode_sized(body: &Vec<u8>, buf: &mut Vec<u8>, version: Version) -> (r: Result<(), EncodeError>)
    ensures
        match print_sized(body@) {
            Ok(bytes) => r is Ok && final(buf)@ == old(buf)@ + bytes,
            Err(e) => r == Err::<(), EncodeError>(e) && final(buf)@ == old(buf)@,
        },
{
    body.len().encode(buf, version)?;
    buf.extend_from_slice(body.as_slice());
    assert(buf@ =~= old(buf)@ + (varint_bytes(body.len() as u64) + body@));
    Ok(())
}

impl Encode for AnnounceBroadcast {
    open spec fn print(model: AnnounceModel, version: Version) -> Result<Seq<u8>, EncodeError> {
        if version.rank() >= 6 {
            match print_announce_typed(model, version) {
                Err(e) => Err(e),
                Ok((typ, body)) => followed_by(u64::print(typ, version), print_sized(body)),
            }
        } else {
            match print_announce_legacy(model, version) {
                Err(e) => Err(e),
                Ok(body) => print_sized(body),
            }
        }
    }

    fn encode(&self, buf: &mut Vec<u8>, version: Version) -> (r: Result<(), EncodeError>) {
        let mut body: Vec<u8> = Vec::new();
        if version.has_announce_id() {
            let typ: u64 = match self {
                AnnounceBroadcast::Active { suffix, hops } => {
                    suffix.encode(&mut body, version)?;
                    hops.encode(&mut body, version)?;
                    ANNOUNCE_START
                },
                AnnounceBroadcast::EndedId { id } => {
                    id.encode(&mut body, version)?;
                    ANNOUNCE_END
                },
                AnnounceBroadcast::Restart { id, hops } => {
                    id.encode(&mut body, version)?;
                    hops.encode(&mut body, version)?;
                    ANNOUNCE_RESTART
                },
                // The pre-lite-06 path-form retraction has no place on lite-06.
                AnnounceBroadcast::Ended { .. } => {
                    return Err(EncodeError::Version);
                },
            };
            assert(body@ =~= print_announce_typed(self.model(), version)->Ok_0.1);
            let mut framed: Vec<u8> = Vec::new();
            typ.encode(&mut framed, version)?;
            encode_sized(&body, &mut framed, version)?;
            assert(framed@ =~= Self::print(self.model(), version)->Ok_0);
            buf.append(&mut framed);
            return Ok(());
        }
        match self {
            AnnounceBroadcast::Active { suffix, hops } => {
                STATUS_ACTIVE.encode(&mut body, version)?;
                suffix.encode(&mut body, version)?;
                encode_hops(&mut body, version, hops)?;
            },
            AnnounceBroadcast::Ended { suffix, hops } => {
                STATUS_ENDED.encode(&mut body, version)?;
                suffix.encode(&mut body, version)?;
                encode_hops(&mut body, version, hops)?;
            },
            // The id-referencing forms only exist on lite-06+.
            AnnounceBroadcast::EndedId { .. } | AnnounceBroadcast::Restart { .. } => {
                return Err(EncodeError::Version);
            },
        }
        assert(body@ =~= print_announce_legacy(self.model(), version)->Ok_0);
        encode_sized(&body, buf, version)
    }
}

/// Reading the body of a typed announcement.
pub open spec fn parse_announce_typed(typ: u64, bytes: Seq<u8>, version: Version) -> (
    Result<AnnounceModel, DecodeError>,
    Seq<u8>,
) {
    if typ == ANNOUNCE_START {
        match Path::parse(bytes, version) {
            (Err(e), rest) => (Err(e), rest),
            (Ok(suffix), rest) => match OriginList::parse(rest, version) {
                (Err(e), rest) => (Err(e), rest),
                (Ok(hops), rest) => (Ok(AnnounceModel::Active { suffix, hops }), rest),
            },
        }
    } else if typ == ANNOUNCE_END {
        match u64::parse(bytes, version) {
            (Err(e), rest) => (Err(e), rest),
            (Ok(id), rest) => (Ok(AnnounceModel::EndedId { id }), rest),
        }
    } else if typ == ANNOUNCE_RESTART {
        match u64::parse(bytes, version) {
            (Err(e), rest) => (Err(e), rest),
            (Ok(id), rest) => match OriginList::parse(rest, version) {
                (Err(e), rest) => (Err(e), rest),
                (Ok(hops), rest) => (Ok(AnnounceModel::Restart { id, hops }), rest),
            },
        }
    } else {
        (Err(DecodeError::InvalidMessage(typ)), bytes)
    }
}

/// Reading the body of an announcement before lite-06. The explicit restart status is
/// taken as active where restarts exist: for an already-announced path the subscriber
/// turns it into a restart; for an unknown path it's a fresh announce.
pub open spec fn parse_announce_legacy(bytes: Seq<u8>, version: Version) -> (
    Result<AnnounceModel, DecodeError>,
    Seq<u8>,
) {
    match u8::parse(bytes, version) {
        (Err(e), rest) => (Err(e), rest),
        (Ok(status), rest) => if status > STATUS_RESTART {
            (Err(DecodeError::InvalidValue), rest)
        } else {
            match Path::parse(rest, version) {
                (Err(e), rest) => (Err(e), rest),
                (Ok(suffix), rest) => match parse_hops(rest, version) {
                    (Err(e), rest) => (Err(e), rest),
                    (Ok(hops), rest) => if status == STATUS_ENDED {
                        (Ok(AnnounceModel::Ended { suffix, hops }), rest)
                    } else if status == STATUS_ACTIVE || version.rank() >= 5 {
                        (Ok(AnnounceModel::Active { suffix, hops }), rest)
                    } else {
                        (Err(DecodeError::InvalidValue), rest)
                    },
                },
            }
        },
    }
}

impl AnnounceBroadcast {
    fn decode_typed(typ: u64, buf: &mut &[u8], version: Version) -> (r: Result<
        AnnounceBroadcast,
        DecodeError,
    >)
        ensures
            match r {
                Ok(v) => parse_announce_typed(typ, old(buf)@, version).0 == Ok::<
                    AnnounceModel,
                    DecodeError,
                >(v.model()),
                Err(e) => parse_announce_typed(typ, old(buf)@, version).0 == Err::<
                    AnnounceModel,
                    DecodeError,
                >(e),
            },
            final(buf)@ == parse_announce_typed(typ, old(buf)@, version).1,
            tail_of(final(buf)@, old(buf)@),
    {
        if typ == ANNOUNCE_START {
            let suffix: Path = Path::decode(buf, version)?;
            let hops: OriginList = OriginList::decode(buf, version)?;
            Ok(AnnounceBroadcast::Active { suffix, hops })
        } else if typ == ANNOUNCE_END {
            let id: u64 = u64::decode(buf, version)?;
            Ok(AnnounceBroadcast::EndedId { id })
        } else if typ == ANNOUNCE_RESTART {
            let id: u64 = u64::decode(buf, version)?;
            let hops: OriginList = OriginList::decode(buf, version)?;
            Ok(AnnounceBroadcast::Restart { id, hops })
        } else {
            Err(DecodeError::InvalidMessage(typ))
        }
    }

    /// Decode the body of a pre-lite-06 ANNOUNCE_BROADCAST (inner status + path + hops).
    pub fn decode_legacy(buf: &mut &[u8], version: Version) -> (r: Result<
        AnnounceBroadcast,
        DecodeError,
    >)
        ensures
            match r {
                Ok(v) => parse_announce_legacy(old(buf)@, version).0 == Ok::<
                    AnnounceModel,
                    DecodeError,
                >(v.model()),
                Err(e) => parse_announce_legacy(old(buf)@, version).0 == Err::<
                    AnnounceModel,
                    DecodeError,
                >(e),
            },
            final(buf)@ == parse_announce_legacy(old(buf)@, version).1,
            tail_of(final(buf)@, old(buf)@),
    {
        let status: u8 = u8::decode(buf, version)?;
        if status > STATUS_RESTART {
            return Err(DecodeError::InvalidValue);
        }
        let suffix: Path = Path::decode(buf, version)?;
        let hops: OriginList = decode_hops(buf, version)?;
        if status == STATUS_ENDED {
            return Ok(AnnounceBroadcast::Ended { suffix, hops });
        }
        if status == STATUS_ACTIVE || restart_supported(version) {
            return Ok(AnnounceBroadcast::Active { suffix, hops });
        }
        Err(DecodeError::InvalidValue)
    }
}

impl Decode for AnnounceBroadcast {
    open spec fn parse(bytes: Seq<u8>, version: Version) -> (
        Result<AnnounceModel, DecodeError>,
        Seq<u8>,
    ) {
        if version.rank() >= 6 {
            match parse_varint(bytes) {
                (Err(e), rest) => (Err(e), rest),
                (Ok(typ), rest) => match usize::parse(rest, version) {
                    (Err(e), rest) => (Err(e), rest),
                    (Ok(size), rest) => if rest.len() < size {
                        (Err(DecodeError::Short), rest)
                    } else {
                        confined(
                            rest,
                            size as int,
                            parse_announce_typed(typ, rest.take(size as int), version),
                        )
                    },
                },
            }
        } else {
            match usize::parse(bytes, version) {
                (Err(e), rest) => (Err(e), rest),
                (Ok(size), rest) => if rest.len() < size {
                    (Err(DecodeError::Short), rest)
                } else {
                    confined(
                        rest,
                        size as int,
                        parse_announce_legacy(rest.take(size as int), version),
                    )
                },
            }
        }
    }

    fn decode(buf: &mut &[u8], version: Version) -> (r: Result<AnnounceBroadcast, DecodeError>) {
        let typed: bool = version.has_announce_id();
        let typ: u64 = if typed {
            u64::decode(buf, version)?
        } else {
            0
        };
        let size: usize = usize::decode(buf, version)?;
        if buf.len() < size {
            return Err(DecodeError::Short);
        }
        let mut body: &[u8] = &buf[0..size];
        assert(body@ =~= buf@.take(size as int));
        let msg: Result<AnnounceBroadcast, DecodeError> = if typed {
            AnnounceBroadcast::decode_typed(typ, &mut body, version)
        } else {
            AnnounceBroadcast::decode_legacy(&mut body, version)
        };
        match msg {
            Err(e) => {
                leave(buf, size, body);
                Err(e)
            },
            Ok(msg) => {
                if body.len() > 0 {
                    leave(buf, size, body);
                    return Err(DecodeError::Long);
                }
                advance(buf, size);
                Ok(msg)
            },
        }
    }
}

proof fn sized_round_trip(body: Seq<u8>, version: Version, rest: Seq<u8>)
    requires
        print_sized(body) is Ok,
        print_sized(body)->Ok_0.len() <= usize::MAX,
    ensures
        usize::parse(print_sized(body)->Ok_0 + rest, version) == (
            Ok::<usize, DecodeError>(body.len() as usize),
            body + rest,
        ),
        (body + rest).take(body.len() as int) == body,
        (body + rest).skip(body.len() as int) == rest,
{
    let size = varint_bytes(body.len() as u64);
    varint_round_trip(body.len() as u64, body + rest);
    assert((size + body) + rest =~= size + (body + rest));
    assert((body + rest).take(body.len() as int) =~= body);
    assert((body + rest).skip(body.len() as int) =~= rest);
}

proof fn typed_body_round_trip(model: AnnounceModel, version: Version)
    requires
        AnnounceBroadcast::legal(model),
        version.rank() >= 6,
        print_announce_typed(model, version) is Ok,
        print_announce_typed(model, version)->Ok_0.1.len() <= usize::MAX,
    ensures
        ({
            let (typ, body) = print_announce_typed(model, version)->Ok_0;
            parse_announce_typed(typ, body, version) == (
                Ok::<AnnounceModel, DecodeError>(model),
                Seq::<u8>::empty(),
            )
        }),
{
    match model {
        AnnounceModel::Active { suffix, hops } => {
            let b = OriginList::print(hops, version)->Ok_0;
            Path::round_trip(suffix, version, b);
            OriginList::round_trip(hops, version, seq![]);
            assert(b + Seq::<u8>::empty() =~= b);
        },
        AnnounceModel::EndedId { id } => {
            varint_round_trip(id, seq![]);
            assert(varint_bytes(id) + Seq::<u8>::empty() =~= varint_bytes(id));
        },
        AnnounceModel::Restart { id, hops } => {
            let b = OriginList::print(hops, version)->Ok_0;
            varint_round_trip(id, b);
            OriginList::round_trip(hops, version, seq![]);
            assert(b + Seq::<u8>::empty() =~= b);
        },
        AnnounceModel::Ended { .. } => {},
    }
}

proof fn legacy_body_round_trip(model: AnnounceModel, version: Version)
    requires
        AnnounceBroadcast::legal(model),
        version.rank() < 6,
        print_announce_legacy(model, version) is Ok,
        print_announce_legacy(model, version)->Ok_0.len() <= usize::MAX,
    ensures
        parse_announce_legacy(print_announce_legacy(model, version)->Ok_0, version) == (
            Ok::<AnnounceModel, DecodeError>(AnnounceBroadcast::carried(model, version)),
            Seq::<u8>::empty(),
        ),
{
    match model {
        AnnounceModel::Active { suffix, hops } => {
            let b = Path::print(suffix, version)->Ok_0;
            let c = print_hops(hops, version)->Ok_0;
            u8::round_trip(STATUS_ACTIVE, version, b + c);
            Path::round_trip(suffix, version, c);
            hops_round_trip(hops, version);
        },
        AnnounceModel::Ended { suffix, hops } => {
            let b = Path::print(suffix, version)->Ok_0;
            let c = print_hops(hops, version)->Ok_0;
            u8::round_trip(STATUS_ENDED, version, b + c);
            Path::round_trip(suffix, version, c);
            hops_round_trip(hops, version);
        },
        _ => {},
    }
}

impl RoundTrip for AnnounceBroadcast {
    open spec fn legal(model: AnnounceModel) -> bool {
        match model {
            AnnounceModel::Active { suffix, hops } => Path::legal(suffix) && hops.len() <= MAX_HOPS,
            AnnounceModel::Ended { suffix, hops } => Path::legal(suffix) && hops.len() <= MAX_HOPS,
            AnnounceModel::EndedId { .. } => true,
            AnnounceModel::Restart { hops, .. } => hops.len() <= MAX_HOPS,
        }
    }

    open spec fn carried(model: AnnounceModel, version: Version) -> AnnounceModel {
        match model {
            AnnounceModel::Active { suffix, hops } => AnnounceModel::Active {
                suffix,
                hops: carried_hops(hops, version),
            },
            AnnounceModel::Ended { suffix, hops } => AnnounceModel::Ended {
                suffix,
                hops: carried_hops(hops, version),
            },
            _ => model,
        }
    }

    proof fn round_trip(model: AnnounceModel, version: Version, rest: Seq<u8>) {
        if version.rank() >= 6 {
            typed_announce_round_trip(model, version, rest);
        } else {
            legacy_announce_round_trip(model, version, rest);
        }
    }
}

#[verifier::rlimit(60)]
proof fn typed_announce_round_trip(model: AnnounceModel, version: Version, rest: Seq<u8>)
    requires
        version.rank() >= 6,
        AnnounceBroadcast::legal(model),
        AnnounceBroadcast::print(model, version) is Ok,
        AnnounceBroadcast::print(model, version)->Ok_0.len() <= usize::MAX,
    ensures
        AnnounceBroadcast::parse(AnnounceBroadcast::print(model, version)->Ok_0 + rest, version)
            == (Ok::<AnnounceModel, DecodeError>(model), rest),
{
    let (typ, body) = print_announce_typed(model, version)->Ok_0;
    let a = u64::print(typ, version)->Ok_0;
    let b = print_sized(body)->Ok_0;
    typed_body_round_trip(model, version);
    assert((a + b) + rest =~= a + (b + rest));
    varint_round_trip(typ, b + rest);
    sized_round_trip(body, version, rest);
}

#[verifier::rlimit(60)]
proof fn legacy_announce_round_trip(model: AnnounceModel, version: Version, rest: Seq<u8>)
    requires
        version.rank() < 6,
        AnnounceBroadcast::legal(model),
        AnnounceBroadcast::print(model, version) is Ok,
        AnnounceBroadcast::print(model, version)->Ok_0.len() <= usize::MAX,
    ensures
        AnnounceBroadcast::parse(AnnounceBroadcast::print(model, version)->Ok_0 + rest, version)
            == (Ok::<AnnounceModel, DecodeError>(AnnounceBroadcast::carried(model, version)), rest),
{
    let body = print_announce_legacy(model, version)->Ok_0;
    legacy_body_round_trip(model, version);
    sized_round_trip(body, version, rest);
}

/// ANNOUNCE_REQUEST: sent by the subscriber to request ANNOUNCE_BROADCAST messages
/// for a path prefix.
#[derive(Debug)]
pub struct AnnounceRequest {
    /// Request tracks with this prefix.
    pub prefix: Path,
    /// If non-zero, the publisher SHOULD skip announces whose hop IDs contain this value.
    pub exclude_hop: u64,
}

/// What an [`AnnounceRequest`] stands for.
pub struct AnnounceRequestModel {
    pub prefix: Seq<Seq<char>>,
    pub exclude_hop: u64,
}

impl Wire for AnnounceRequest {
    type Model = AnnounceRequestModel;

    open spec fn model(&self) -> AnnounceRequestModel {
        AnnounceRequestModel { prefix: self.prefix@, exclude_hop: self.exclude_hop }
    }
}

impl Message for AnnounceRequest {
    open spec fn parse_msg(bytes: Seq<u8>, version: Version) -> (
        Result<AnnounceRequestModel, DecodeError>,
        Seq<u8>,
    ) {
        match Path::parse(bytes, version) {
            (Err(e), rest) => (Err(e), rest),
            (Ok(prefix), rest) => if version.rank() <= 3 {
                (Ok((AnnounceRequestModel { prefix, exclude_hop: 0 })), rest)
            } else {
                match u64::parse(rest, version) {
                    (Err(e), rest) => (Err(e), rest),
                    (Ok(exclude_hop), rest) => (
                        Ok((AnnounceRequestModel { prefix, exclude_hop })),
                        rest,
                    ),
                }
            },
        }
    }

    fn decode_msg(buf: &mut &[u8], version: Version) -> (r: Result<AnnounceRequest, DecodeError>) {
        let prefix: Path = Path::decode(buf, version)?;
        let exclude_hop: u64 = match version {
            Version::Lite01 | Version::Lite02 | Version::Lite03 => 0,
            _ => u64::decode(buf, version)?,
        };
        Ok(AnnounceRequest { prefix, exclude_hop })
    }

    open spec fn print_msg(model: AnnounceRequestModel, version: Version) -> Result<
        Seq<u8>,
        EncodeError,
    > {
        followed_by(
            Path::print(model.prefix, version),
            if version.rank() <= 3 {
                Ok(seq![])
            } else {
                u64::print(model.exclude_hop, version)
            },
        )
    }

    fn encode_msg(&self, buf: &mut Vec<u8>, version: Version) -> (r: Result<(), EncodeError>) {
        let mut body: Vec<u8> = Vec::new();
        self.prefix.encode(&mut body, version)?;
        match version {
            Version::Lite01 | Version::Lite02 | Version::Lite03 => {},
            _ => {
                self.exclude_hop.encode(&mut body, version)?;
            },
        }
        assert(body@ =~= Self::print_msg(self.model(), version)->Ok_0);
        buf.append(&mut body);
        Ok(())
    }

    open spec fn legal_msg(model: AnnounceRequestModel) -> bool {
        Path::legal(model.prefix)
    }

    open spec fn carried_msg(
        model: AnnounceRequestModel,
        version: Version,
    ) -> AnnounceRequestModel {
        AnnounceRequestModel {
            prefix: model.prefix,
            exclude_hop: if version.rank() <= 3 {
                0
            } else {
                model.exclude_hop
            },
        }
    }

    proof fn msg_round_trip(model: AnnounceRequestModel, version: Version) {
        let b = if version.rank() <= 3 {
            seq![]
        } else {
            u64::print(model.exclude_hop, version)->Ok_0
        };
        Path::round_trip(model.prefix, version, b);
        if version.rank() > 3 {
            u64::round_trip(model.exclude_hop, version, seq![]);
            assert(b + Seq::<u8>::empty() =~= b);
        }
    }
}

/// Sent after setup to communicate the initially announced paths.
///
/// Used by Lite01/Lite02 only. Lite03 uses individual Announce messages instead.
#[derive(Debug, PartialEq, Eq)]
pub struct AnnounceInit {
    /// List of currently active broadcasts, encoded as suffixes to be combined with the prefix.
    pub suffixes: Vec<Path>,
}

impl Wire for AnnounceInit {
    type Model = Seq<Seq<Seq<char>>>;

    open spec fn model(&self) -> Seq<Seq<Seq<char>>> {
        models(self.suffixes@)
    }
}

impl Message for AnnounceInit {
    open spec fn parse_msg(bytes: Seq<u8>, version: Version) -> (
        Result<Seq<Seq<Seq<char>>>, DecodeError>,
        Seq<u8>,
    ) {
        if version.rank() > 2 {
            (Err(DecodeError::Version), bytes)
        } else {
            match parse_varint(bytes) {
                (Err(e), rest) => (Err(e), rest),
                (Ok(count), rest) => parse_list::<Path>(rest, count as nat, version),
            }
        }
    }

    fn decode_msg(buf: &mut &[u8], version: Version) -> (r: Result<AnnounceInit, DecodeError>) {
        match version {
            Version::Lite01 | Version::Lite02 => {},
            _ => {
                return Err(DecodeError::Version);
            },
        }
        let count: u64 = u64::decode(buf, version)?;
        let suffixes: Vec<Path> = decode_list::<Path>(buf, count, version)?;
        Ok(AnnounceInit { suffixes })
    }

    open spec fn print_msg(model: Seq<Seq<Seq<char>>>, version: Version) -> Result<
        Seq<u8>,
        EncodeError,
    > {
        if version.rank() > 2 {
            Err(EncodeError::Version)
        } else {
            followed_by(print_varint(model.len() as int), print_list::<Path>(model, version))
        }
    }

    fn encode_msg(&self, buf: &mut Vec<u8>, version: Version) -> (r: Result<(), EncodeError>) {
        match version {
            Version::Lite01 | Version::Lite02 => {},
            _ => {
                return Err(EncodeError::Version);
            },
        }
        let mut body: Vec<u8> = Vec::new();
        (self.suffixes.len() as u64).encode(&mut body, version)?;
        encode_list::<Path>(&self.suffixes, &mut body, version)?;
        assert(body@ =~= Self::print_msg(self.model(), version)->Ok_0);
        buf.append(&mut body);
        Ok(())
    }

    open spec fn legal_msg(model: Seq<Seq<Seq<char>>>) -> bool {
        forall|i: int| 0 <= i < model.len() ==> Path::legal(#[trigger] model[i])
    }

    open spec fn carried_msg(
        model: Seq<Seq<Seq<char>>>,
        version: Version,
    ) -> Seq<Seq<Seq<char>>> {
        model
    }

    proof fn msg_round_trip(model: Seq<Seq<Seq<char>>>, version: Version) {
        let b = print_list::<Path>(model, version)->Ok_0;
        varint_round_trip(model.len() as u64, b);
        list_round_trip::<Path>(model, version, seq![]);
        assert(b + Seq::<u8>::empty() =~= b);
        assert(carried_list::<Path>(model, version) =~= model);
    }
}

/// Sent by the publisher as the first message on an announce stream, before any
/// individual Announce messages. Lite05+ only; the successor to [`AnnounceInit`].
///
/// `origin` is the responder's session origin id. In Lite05 the publisher no
/// longer stamps it onto each Announce's hop chain; the subscriber appends it on
/// receipt instead. `active` is the number of currently-active broadcasts the
/// publisher sends as the initial set immediately after this message, letting the
/// receiver block until the initial set has arrived.
#[derive(Clone, Copy, Debug, PartialEq, Eq, Structural)]
pub struct AnnounceOk {
    pub origin: Origin,
    pub active: u64,
}

impl Wire for AnnounceOk {
    type Model = AnnounceOk;

    open spec fn model(&self) -> AnnounceOk {
        *self
    }
}

impl Message for AnnounceOk {
    open spec fn parse_msg(bytes: Seq<u8>, version: Version) -> (
        Result<AnnounceOk, DecodeError>,
        Seq<u8>,
    ) {
        if version.rank() < 5 {
            (Err(DecodeError::Version), bytes)
        } else {
            match Origin::parse(bytes, version) {
                (Err(e), rest) => (Err(e), rest),
                (Ok(origin), rest) => match u64::parse(rest, version) {
                    (Err(e), rest) => (Err(e), rest),
                    (Ok(active), rest) => (Ok((AnnounceOk { origin, active })), rest),
                },
            }
        }
    }

    fn decode_msg(buf: &mut &[u8], version: Version) -> (r: Result<AnnounceOk, DecodeError>) {
        if !version.has_announce_ok() {
            return Err(DecodeError::Version);
        }
        let origin: Origin = Origin::decode(buf, version)?;
        let active: u64 = u64::decode(buf, version)?;
        Ok(AnnounceOk { origin, active })
    }

    open spec fn print_msg(model: AnnounceOk, version: Version) -> Result<Seq<u8>, EncodeError> {
        if version.rank() < 5 {
            Err(EncodeError::Version)
        } else {
            followed_by(Origin::print(model.origin, version), u64::print(model.active, version))
        }
    }

    fn encode_msg(&self, buf: &mut Vec<u8>, version: Version) -> (r: Result<(), EncodeError>) {
        if !version.has_announce_ok() {
            return Err(EncodeError::Version);
        }
        let mut body: Vec<u8> = Vec::new();
        self.origin.encode(&mut body, version)?;
        self.active.encode(&mut body, version)?;
        assert(body@ =~= Self::print_msg(self.model(), version)->Ok_0);
        buf.append(&mut body);
        Ok(())
    }

    open spec fn legal_msg(model: AnnounceOk) -> bool {
        true
    }

    open spec fn carried_msg(model: AnnounceOk, version: Version) -> AnnounceOk {
        model
    }

    proof fn msg_round_trip(model: AnnounceOk, version: Version) {
        let b = u64::print(model.active, version)->Ok_0;
        Origin::round_trip(model.origin, version, b);
        u64::round_trip(model.active, version, seq![]);
        assert(b + Seq::<u8>::empty() =~= b);
    }
}

} // verus!
