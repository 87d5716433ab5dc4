//! The messages of a Subscribe Stream.

use vstd::prelude::*;

use crate::coding::decode::{tail_of, tail_of_self, tail_of_tail, Decode, DecodeError, Wire};
use crate::coding::encode::{followed_by, whole_millis, Encode, EncodeError, RoundTrip};
use crate::coding::message::Message;
use crate::coding::varint::{parse_varint, varint_bytes, varint_round_trip};
use crate::lite::Version;
use crate::model::Duration;
use crate::path::Path;

verus! {

broadcast use {tail_of_self, tail_of_tail};

/// The fields that say what a subscriber wants: group order, how long to wait for a
/// late group, and the range of groups.
pub struct Delivery {
    pub ordered: bool,
    pub max_latency: Duration,
    pub start_group: Option<u64>,
    pub end_group: Option<u64>,
}

/// The delivery of a subscription on a version that cannot carry one.
pub open spec fn no_delivery() -> Delivery {
    Delivery {
        ordered: false,
        max_latency: Duration { nanos: 0 },
        start_group: None,
        end_group: None,
    }
}

/// What the wire carries of a delivery: the latency to the millisecond.
pub open spec fn carried_delivery(delivery: Delivery) -> Delivery {
    Delivery { max_latency: whole_millis(delivery.max_latency), ..delivery }
}

/// Reading the fields of a delivery, one after the other.
pub open spec fn parse_delivery(bytes: Seq<u8>, version: Version) -> (
    Result<Delivery, DecodeError>,
    Seq<u8>,
) {
    match u8::parse(bytes, version) {
        (Err(e), rest) => (Err(e), rest),
        (Ok(ordered), rest) => match Duration::parse(rest, version) {
            (Err(e), rest) => (Err(e), rest),
            (Ok(max_latency), rest) => match Option::<u64>::parse(rest, version) {
                (Err(e), rest) => (Err(e), rest),
                (Ok(start_group), rest) => match Option::<u64>::parse(rest, version) {
                    (Err(e), rest) => (Err(e), rest),
                    (Ok(end_group), rest) => (
                        Ok(
                            (Delivery {
                                ordered: ordered != 0,
                                max_latency,
                                start_group,
                                end_group,
                            }),
                        ),
                        rest,
                    ),
                },
            },
        },
    }
}

/// The byte that stands for a flag.
pub open spec fn flag(value: bool) -> u8 {
    if value {
        1
    } else {
        0
    }
}

/// Writing the fields of a delivery, one after the other.
pub open spec fn print_delivery(delivery: Delivery, version: Version) -> Result<
    Seq<u8>,
    EncodeError,
> {
    followed_by(
        u8::print(flag(delivery.ordered), version),
        followed_by(
            Duration::print(delivery.max_latency, version),
            followed_by(
                Option::<u64>::print(delivery.start_group, version),
                Option::<u64>::print(delivery.end_group, version),
            ),
        ),
    )
}

fn decode_delivery(buf: &mut &[u8], version: Version) -> (r: Result<Delivery, DecodeError>)
    ensures
        (r, final(buf)@) == parse_delivery(old(buf)@, version),
        tail_of(final(buf)@, old(buf)@),
{
    let ordered: u8 = u8::decode(buf, version)?;
    let max_latency: Duration = Duration::decode(buf, version)?;
    let start_group: Option<u64> = Option::<u64>::decode(buf, version)?;
    let end_group: Option<u64> = Option::<u64>::decode(buf, version)?;
    Ok(Delivery { ordered: ordered != 0, max_latency, start_group, end_group })
}

fn encode_delivery(delivery: &Delivery, buf: &mut Vec<u8>, version: Version) -> (r: Result<
    (),
    EncodeError,
>)
    ensures
        match print_delivery(*delivery, version) {
            Ok(bytes) => r is Ok && final(buf)@ == old(buf)@ + bytes,
            Err(e) => r == Err::<(), EncodeError>(e) && final(buf)@ == old(buf)@,
        },
{
    let mut body: Vec<u8> = Vec::new();
    let ordered: u8 = if delivery.ordered {
        1
    } else {
        0
    };
    ordered.encode(&mut body, version)?;
    delivery.max_latency.encode(&mut body, version)?;
    delivery.start_group.encode(&mut body, version)?;
    delivery.end_group.encode(&mut body, version)?;
    assert(body@ =~= print_delivery(*delivery, version)->Ok_0);
    buf.append(&mut body);
    Ok(())
}

/// Reading back a written delivery gives it to the millisecond.
#[verifier::rlimit(60)]
pub proof fn delivery_round_trip(delivery: Delivery, version: Version, rest: Seq<u8>)
    requires
        print_delivery(delivery, version) is Ok,
        print_delivery(delivery, version)->Ok_0.len() <= usize::MAX,
    ensures
        parse_delivery(print_delivery(delivery, version)->Ok_0 + rest, version) == (
            Ok::<Delivery, DecodeError>(carried_delivery(delivery)),
            rest,
        ),
{
    let a = u8::print(flag(delivery.ordered), version)->Ok_0;
    let b = Duration::print(delivery.max_latency, version)->Ok_0;
    let c = Option::<u64>::print(delivery.start_group, version)->Ok_0;
    let d = Option::<u64>::print(delivery.end_group, version)->Ok_0;
    assert((a + (b + (c + d))) + rest =~= a + (b + (c + (d + rest))));
    u8::round_trip(flag(delivery.ordered), version, b + (c + (d + rest)));
    Duration::round_trip(delivery.max_latency, version, c + (d + rest));
    Option::<u64>::round_trip(delivery.start_group, version, d + rest);
    Option::<u64>::round_trip(delivery.end_group, version, rest);
}

/// Sent by the subscriber to request all future objects for the given track.
///
/// Objects will use the provided ID instead of the full track name, to save bytes.
#[derive(Debug)]
pub struct Subscribe {
    pub id: u64,
    pub broadcast: Path,
    pub track: String,
    pub priority: u8,
    pub ordered: bool,
    pub max_latency: Duration,
    pub start_group: Option<u64>,
    pub end_group: Option<u64>,
}

/// What a [`Subscribe`] stands for.
pub struct SubscribeModel {
    pub id: u64,
    pub broadcast: Seq<Seq<char>>,
    pub track: Seq<char>,
    pub priority: u8,
    pub delivery: Delivery,
}

impl Wire for Subscribe {
    type Model = SubscribeModel;

    open spec fn model(&self) -> SubscribeModel {
        SubscribeModel {
            id: self.id,
            broadcast: self.broadcast@,
            track: self.track@,
            priority: self.priority,
            delivery: Delivery {
                ordered: self.ordered,
                max_latency: self.max_latency,
                start_group: self.start_group,
                end_group: self.end_group,
            },
        }
    }
}

impl Message for Subscribe {
    open spec fn parse_msg(bytes: Seq<u8>, version: Version) -> (
        Result<SubscribeModel, DecodeError>,
        Seq<u8>,
    ) {
        match u64::parse(bytes, version) {
            (Err(e), rest) => (Err(e), rest),
            (Ok(id), rest) => match Path::parse(rest, version) {
                (Err(e), rest) => (Err(e), rest),
                (Ok(broadcast), rest) => match String::parse(rest, version) {
                    (Err(e), rest) => (Err(e), rest),
                    (Ok(track), rest) => match u8::parse(rest, version) {
                        (Err(e), rest) => (Err(e), rest),
                        (Ok(priority), rest) => if version.rank() < 3 {
                            (
                                Ok(
                                    (SubscribeModel {
                                        id,
                                        broadcast,
                                        track,
                                        priority,
                                        delivery: no_delivery(),
                                    }),
                                ),
                                rest,
                            )
                        } else {
                            match parse_delivery(rest, version) {
                                (Err(e), rest) => (Err(e), rest),
                                (Ok(delivery), rest) => (
                                    Ok(
                                        (SubscribeModel {
                                            id,
                                            broadcast,
                                            track,
                                            priority,
                                            delivery,
                                        }),
                                    ),
                                    rest,
                                ),
                            }
                        },
                    },
                },
            },
        }
    }

    fn decode_msg(buf: &mut &[u8], version: Version) -> (r: Result<Subscribe, DecodeError>) {
        let id: u64 = u64::decode(buf, version)?;
        let broadcast: Path = Path::decode(buf, version)?;
        let track: String = String::decode(buf, version)?;
        let priority: u8 = u8::decode(buf, version)?;
        let delivery: Delivery = match version {
            Version::Lite01 | Version::Lite02 => Delivery {
                ordered: false,
                max_latency: Duration::zero(),
                start_group: None,
                end_group: None,
            },
            _ => decode_delivery(buf, version)?,
        };
        Ok(
            Subscribe {
                id,
                broadcast,
                track,
                priority,
                ordered: delivery.ordered,
                max_latency: delivery.max_latency,
                start_group: delivery.start_group,
                end_group: delivery.end_group,
            },
        )
    }

    open spec fn print_msg(model: SubscribeModel, version: Version) -> Result<
        Seq<u8>,
        EncodeError,
    > {
        followed_by(
            u64::print(model.id, version),
            followed_by(
                Path::print(model.broadcast, version),
                followed_by(
                    String::print(model.track, version),
                    followed_by(
                        u8::print(model.priority, version),
                        if version.rank() < 3 {
                            Ok(seq![])
                        } else {
                            print_delivery(model.delivery, version)
                        },
                    ),
                ),
            ),
        )
    }

    fn encode_msg(&self, buf: &mut Vec<u8>, version: Version) -> (r: Result<(), EncodeError>) {
        let mut body: Vec<u8> = Vec::new();
        self.id.encode(&mut body, version)?;
        self.broadcast.encode(&mut body, version)?;
        self.track.encode(&mut body, version)?;
        self.priority.encode(&mut body, version)?;
        match version {
            Version::Lite01 | Version::Lite02 => {},
            _ => {
                let delivery: Delivery = Delivery {
                    ordered: self.ordered,
                    max_latency: self.max_latency,
                    start_group: self.start_group,
                    end_group: self.end_group,
                };
                encode_delivery(&delivery, &mut body, version)?;
            },
        }
        assert(body@ =~= Self::print_msg(self.model(), version)->Ok_0);
        buf.append(&mut body);
        Ok(())
    }

    open spec fn legal_msg(model: SubscribeModel) -> bool {
        Path::legal(model.broadcast)
    }

    open spec fn carried_msg(model: SubscribeModel, version: Version) -> SubscribeModel {
        SubscribeModel {
            delivery: if version.rank() < 3 {
                no_delivery()
            } else {
                carried_delivery(model.delivery)
            },
            ..model
        }
    }

    proof fn msg_round_trip(model: SubscribeModel, version: Version) {
        let a = u64::print(model.id, version)->Ok_0;
        let b = Path::print(model.broadcast, version)->Ok_0;
        let c = String::print(model.track, version)->Ok_0;
        let d = u8::print(model.priority, version)->Ok_0;
        let e = if version.rank() < 3 {
            seq![]
        } else {
            print_delivery(model.delivery, version)->Ok_0
        };
        u64::round_trip(model.id, version, b + (c + (d + e)));
        Path::round_trip(model.broadcast, version, c + (d + e));
        String::round_trip(model.track, version, d + e);
        u8::round_trip(model.priority, version, e);
        if version.rank() >= 3 {
            delivery_round_trip(model.delivery, version, seq![]);
            assert(e + Seq::<u8>::empty() =~= e);
        }
    }
}

/// Publisher's acknowledgement on the Subscribe Stream for drafts 01-04.
///
/// Lite05+ replaced this with implicit acceptance plus
/// [`SubscribeStart`]/[`SubscribeEnd`]; the immutable timescale/cache moved
/// to [`crate::lite::TrackInfo`].
#[derive(Clone, Copy, Debug, PartialEq, Eq, Structural)]
pub struct SubscribeOk {
    pub priority: u8,
    pub ordered: bool,
    pub max_latency: Duration,
    pub start_group: Option<u64>,
    pub end_group: Option<u64>,
}

/// The acknowledgement with the given priority and delivery.
pub open spec fn subscribe_ok(priority: u8, delivery: Delivery) -> SubscribeOk {
    SubscribeOk {
        priority,
        ordered: delivery.ordered,
        max_latency: delivery.max_latency,
        start_group: delivery.start_group,
        end_group: delivery.end_group,
    }
}

/// The delivery that an acknowledgement names.
pub open spec fn ok_delivery(ok: SubscribeOk) -> Delivery {
    Delivery {
        ordered: ok.ordered,
        max_latency: ok.max_latency,
        start_group: ok.start_group,
        end_group: ok.end_group,
    }
}

impl Wire for SubscribeOk {
    type Model = SubscribeOk;

    open spec fn model(&self) -> SubscribeOk {
        *self
    }
}

impl Message for SubscribeOk {
    open spec fn parse_msg(bytes: Seq<u8>, version: Version) -> (
        Result<SubscribeOk, DecodeError>,
        Seq<u8>,
    ) {
        if version == Version::Lite02 {
            (Ok(subscribe_ok(0, no_delivery())), bytes)
        } else {
            match u8::parse(bytes, version) {
                (Err(e), rest) => (Err(e), rest),
                (Ok(priority), rest) => if version == Version::Lite01 {
                    (Ok(subscribe_ok(priority, no_delivery())), rest)
                } else {
                    match parse_delivery(rest, version) {
                        (Err(e), rest) => (Err(e), rest),
                        (Ok(delivery), rest) => (Ok(subscribe_ok(priority, delivery)), rest),
                    }
                },
            }
        }
    }

    fn decode_msg(buf: &mut &[u8], version: Version) -> (r: Result<SubscribeOk, DecodeError>) {
        match version {
            Version::Lite01 => {
                let priority: u8 = u8::decode(buf, version)?;
                Ok(
                    SubscribeOk {
                        priority,
                        ordered: false,
                        max_latency: Duration::zero(),
                        start_group: None,
                        end_group: None,
                    },
                )
            },
            Version::Lite02 => Ok(
                SubscribeOk {
                    priority: 0,
                    ordered: false,
                    max_latency: Duration::zero(),
                    start_group: None,
                    end_group: None,
                },
            ),
            _ => {
                let priority: u8 = u8::decode(buf, version)?;
                let delivery: Delivery = decode_delivery(buf, version)?;
                Ok(
                    SubscribeOk {
                        priority,
                        ordered: delivery.ordered,
                        max_latency: delivery.max_latency,
                        start_group: delivery.start_group,
                        end_group: delivery.end_group,
                    },
                )
            },
        }
    }

    /// Lite05+ never sends SUBSCRIBE_OK, but the field layout matches Lite03/04 so a
    /// stray future use stays well-formed.
    open spec fn print_msg(model: SubscribeOk, version: Version) -> Result<Seq<u8>, EncodeError> {
        if version == Version::Lite02 {
            Ok(seq![])
        } else if version == Version::Lite01 {
            u8::print(model.priority, version)
        } else {
            followed_by(
                u8::print(model.priority, version),
                print_delivery(ok_delivery(model), version),
            )
        }
    }

    fn encode_msg(&self, buf: &mut Vec<u8>, version: Version) -> (r: Result<(), EncodeError>) {
        match version {
            Version::Lite01 => self.priority.encode(buf, version),
            Version::Lite02 => {
                assert(buf@ + Seq::<u8>::empty() =~= buf@);
                Ok(())
            },
            _ => {
                let mut body: Vec<u8> = Vec::new();
                self.priority.encode(&mut body, version)?;
                let delivery: Delivery = Delivery {
                    ordered: self.ordered,
                    max_latency: self.max_latency,
                    start_group: self.start_group,
                    end_group: self.end_group,
                };
                encode_delivery(&delivery, &mut body, version)?;
                assert(body@ =~= Self::print_msg(self.model(), version)->Ok_0);
                buf.append(&mut body);
                Ok(())
            },
        }
    }

    open spec fn legal_msg(model: SubscribeOk) -> bool {
        true
    }

    open spec fn carried_msg(model: SubscribeOk, version: Version) -> SubscribeOk {
        if version == Version::Lite02 {
            subscribe_ok(0, no_delivery())
        } else if version == Version::Lite01 {
            subscribe_ok(model.priority, no_delivery())
        } else {
            subscribe_ok(model.priority, carried_delivery(ok_delivery(model)))
        }
    }

    proof fn msg_round_trip(model: SubscribeOk, version: Version) {
        if version == Version::Lite02 {
        } else if version == Version::Lite01 {
            u8::round_trip(model.priority, version, seq![]);
            assert(seq![model.priority] + Seq::<u8>::empty() =~= seq![model.priority]);
        } else {
            let b = print_delivery(ok_delivery(model), version)->Ok_0;
            u8::round_trip(model.priority, version, b);
            delivery_round_trip(ok_delivery(model), version, seq![]);
            assert(b + Seq::<u8>::empty() =~= b);
        }
    }
}

/// Resolves the absolute start group of a Lite05+ subscription. The first message
/// the publisher sends, once the start group is known. A value greater than the
/// requested start implicitly drops the leading range.
#[derive(Clone, Copy, Debug, PartialEq, Eq, Structural)]
pub struct SubscribeStart {
    pub group: u64,
}

/// Signals the end of a Lite05+ subscription: the groups from `group` on will not be
/// produced. Bounds the range but doesn't end the stream: stragglers below it may still
/// be dropped before FIN.
#[derive(Clone, Copy, Debug, PartialEq, Eq, Structural)]
pub struct SubscribeEnd {
    pub group: u64,
}

impl Wire for SubscribeStart {
    type Model = SubscribeStart;

    open spec fn model(&self) -> SubscribeStart {
        *self
    }
}

impl Wire for SubscribeEnd {
    type Model = SubscribeEnd;

    open spec fn model(&self) -> SubscribeEnd {
        *self
    }
}

/// Reading the body of a message that is one group, on a version that has it.
pub open spec fn parse_group(bytes: Seq<u8>, version: Version) -> (
    Result<u64, DecodeError>,
    Seq<u8>,
) {
    if version.rank() < 5 {
        (Err(DecodeError::Version), bytes)
    } else {
        parse_varint(bytes)
    }
}

/// Writing the body of a message that is one group, on a version that has it.
pub open spec fn print_group(group: u64, version: Version) -> Result<Seq<u8>, EncodeError> {
    if version.rank() < 5 {
        Err(EncodeError::Version)
    } else {
        u64::print(group, version)
    }
}

fn decode_group(buf: &mut &[u8], version: Version) -> (r: Result<u64, DecodeError>)
    ensures
        (r, final(buf)@) == parse_group(old(buf)@, version),
        tail_of(final(buf)@, old(buf)@),
{
    if !version.has_track_stream() {
        return Err(DecodeError::Version);
    }
    u64::decode(buf, version)
}

fn encode_group(group: u64, buf: &mut Vec<u8>, version: Version) -> (r: Result<(), EncodeError>)
    ensures
        match print_group(group, version) {
            Ok(bytes) => r is Ok && final(buf)@ == old(buf)@ + bytes,
            Err(e) => r == Err::<(), EncodeError>(e) && final(buf)@ == old(buf)@,
        },
{
    if !version.has_track_stream() {
        return Err(EncodeError::Version);
    }
    group.encode(buf, version)
}

proof fn group_round_trip(group: u64, version: Version)
    requires
        print_group(group, version) is Ok,
    ensures
        parse_group(print_group(group, version)->Ok_0, version) == (
            Ok::<u64, DecodeError>(group),
            Seq::<u8>::empty(),
        ),
{
    varint_round_trip(group, seq![]);
    assert(varint_bytes(group) + Seq::<u8>::empty() =~= varint_bytes(group));
}

impl Message for SubscribeStart {
    open spec fn parse_msg(bytes: Seq<u8>, version: Version) -> (
        Result<SubscribeStart, DecodeError>,
        Seq<u8>,
    ) {
        match parse_group(bytes, version) {
            (Err(e), rest) => (Err(e), rest),
            (Ok(group), rest) => (Ok((SubscribeStart { group })), rest),
        }
    }

    fn decode_msg(buf: &mut &[u8], version: Version) -> (r: Result<SubscribeStart, DecodeError>) {
        let group: u64 = decode_group(buf, version)?;
        Ok(SubscribeStart { group })
    }

    open spec fn print_msg(model: SubscribeStart, version: Version) -> Result<
        Seq<u8>,
        EncodeError,
    > {
        print_group(model.group, version)
    }

    fn encode_msg(&self, buf: &mut Vec<u8>, version: Version) -> (r: Result<(), EncodeError>) {
        encode_group(self.group, buf, version)
    }

    open spec fn legal_msg(model: SubscribeStart) -> bool {
        true
    }

    open spec fn carried_msg(model: SubscribeStart, version: Version) -> SubscribeStart {
        model
    }

    proof fn msg_round_trip(model: SubscribeStart, version: Version) {
        group_round_trip(model.group, version);
    }
}

impl Message for SubscribeEnd {
    open spec fn parse_msg(bytes: Seq<u8>, version: Version) -> (
        Result<SubscribeEnd, DecodeError>,
        Seq<u8>,
    ) {
        match parse_group(bytes, version) {
            (Err(e), rest) => (Err(e), rest),
            (Ok(group), rest) => (Ok((SubscribeEnd { group })), rest),
        }
    }

    fn decode_msg(buf: &mut &[u8], version: Version) -> (r: Result<SubscribeEnd, DecodeError>) {
        let group: u64 = decode_group(buf, version)?;
        Ok(SubscribeEnd { group })
    }

    open spec fn print_msg(model: SubscribeEnd, version: Version) -> Result<Seq<u8>, EncodeError> {
        print_group(model.group, version)
    }

    fn encode_msg(&self, buf: &mut Vec<u8>, version: Version) -> (r: Result<(), EncodeError>) {
        encode_group(self.group, buf, version)
    }

    open spec fn legal_msg(model: SubscribeEnd) -> bool {
        true
    }

    open spec fn carried_msg(model: SubscribeEnd, version: Version) -> SubscribeEnd {
        model
    }

    proof fn msg_round_trip(model: SubscribeEnd, version: Version) {
        group_round_trip(model.group, version);
    }
}

/// Sent by the subscriber to update subscription parameters.
///
/// Lite03+ only.
#[derive(Clone, Copy, Debug, PartialEq, Eq, Structural)]
pub struct SubscribeUpdate {
    pub priority: u8,
    pub ordered: bool,
    pub max_latency: Duration,
    pub start_group: Option<u64>,
    pub end_group: Option<u64>,
}

/// The update with the given priority and delivery.
pub open spec fn subscribe_update(priority: u8, delivery: Delivery) -> SubscribeUpdate {
    SubscribeUpdate {
        priority,
        ordered: delivery.ordered,
        max_latency: delivery.max_latency,
        start_group: delivery.start_group,
        end_group: delivery.end_group,
    }
}

/// The delivery that an update asks for.
pub open spec fn update_delivery(update: SubscribeUpdate) -> Delivery {
    Delivery {
        ordered: update.ordered,
        max_latency: update.max_latency,
        start_group: update.start_group,
        end_group: update.end_group,
    }
}

impl Wire for SubscribeUpdate {
    type Model = SubscribeUpdate;

    open spec fn model(&self) -> SubscribeUpdate {
        *self
    }
}

impl Message for SubscribeUpdate {
    open spec fn parse_msg(bytes: Seq<u8>, version: Version) -> (
        Result<SubscribeUpdate, DecodeError>,
        Seq<u8>,
    ) {
        if version.rank() < 3 {
            (Err(DecodeError::Version), bytes)
        } else {
            match u8::parse(bytes, version) {
                (Err(e), rest) => (Err(e), rest),
                (Ok(priority), rest) => match parse_delivery(rest, version) {
                    (Err(e), rest) => (Err(e), rest),
                    (Ok(delivery), rest) => (Ok(subscribe_update(priority, delivery)), rest),
                },
            }
        }
    }

    fn decode_msg(buf: &mut &[u8], version: Version) -> (r: Result<SubscribeUpdate, DecodeError>) {
        match version {
            Version::Lite01 | Version::Lite02 => {
                return Err(DecodeError::Version);
            },
            _ => {},
        }
        let priority: u8 = u8::decode(buf, version)?;
        let delivery: Delivery = decode_delivery(buf, version)?;
        Ok(
            SubscribeUpdate {
                priority,
                ordered: delivery.ordered,
                max_latency: delivery.max_latency,
                start_group: delivery.start_group,
                end_group: delivery.end_group,
            },
        )
    }

    open spec fn print_msg(model: SubscribeUpdate, version: Version) -> Result<
        Seq<u8>,
        EncodeError,
    > {
        if version.rank() < 3 {
            Err(EncodeError::Version)
        } else {
            followed_by(
                u8::print(model.priority, version),
                print_delivery(update_delivery(model), version),
            )
        }
    }

    fn encode_msg(&self, buf: &mut Vec<u8>, version: Version) -> (r: Result<(), EncodeError>) {
        match version {
            Version::Lite01 | Version::Lite02 => {
                return Err(EncodeError::Version);
            },
            _ => {},
        }
        let mut body: Vec<u8> = Vec::new();
        self.priority.encode(&mut body, version)?;
        let delivery: Delivery = Delivery {
            ordered: self.ordered,
            max_latency: self.max_latency,
            start_group: self.start_group,
            end_group: self.end_group,
        };
        encode_delivery(&delivery, &mut body, version)?;
        assert(body@ =~= Self::print_msg(self.model(), version)->Ok_0);
        buf.append(&mut body);
        Ok(())
    }

    open spec fn legal_msg(model: SubscribeUpdate) -> bool {
        true
    }

    open spec fn carried_msg(model: SubscribeUpdate, version: Version) -> SubscribeUpdate {
        subscribe_update(model.priority, carried_delivery(update_delivery(model)))
    }

    proof fn msg_round_trip(model: SubscribeUpdate, version: Version) {
        let b = print_delivery(update_delivery(model), version)->Ok_0;
        u8::round_trip(model.priority, version, b);
        delivery_round_trip(update_delivery(model), version, seq![]);
        assert(b + Seq::<u8>::empty() =~= b);
    }
}

/// Indicates that one or more groups have been dropped.
///
/// The range `[start, end]` is inclusive on both ends. For example,
/// `start = 5, end = 7` means groups 5, 6, and 7 were dropped.
///
/// Lite03+ only.
#[derive(Clone, Copy, Debug, PartialEq, Eq, Structural)]
pub struct SubscribeDrop {
    /// The first absolute group sequence in the dropped range.
    pub start: u64,
    /// The last absolute group sequence in the dropped range (inclusive).
    pub end: u64,
    /// An application-specific error code. A value of 0 indicates no error;
    /// the groups are simply unavailable.
    pub error: u64,
}

impl Wire for SubscribeDrop {
    type Model = SubscribeDrop;

    open spec fn model(&self) -> SubscribeDrop {
        *self
    }
}

impl Message for SubscribeDrop {
    open spec fn parse_msg(bytes: Seq<u8>, version: Version) -> (
        Result<SubscribeDrop, DecodeError>,
        Seq<u8>,
    ) {
        if version.rank() < 3 {
            (Err(DecodeError::Version), bytes)
        } else {
            match u64::parse(bytes, version) {
                (Err(e), rest) => (Err(e), rest),
                (Ok(start), rest) => match u64::parse(rest, version) {
                    (Err(e), rest) => (Err(e), rest),
                    (Ok(end), rest) => match u64::parse(rest, version) {
                        (Err(e), rest) => (Err(e), rest),
                        (Ok(error), rest) => (Ok((SubscribeDrop { start, end, error })), rest),
                    },
                },
            }
        }
    }

    fn decode_msg(buf: &mut &[u8], version: Version) -> (r: Result<SubscribeDrop, DecodeError>) {
        match version {
            Version::Lite01 | Version::Lite02 => {
                return Err(DecodeError::Version);
            },
            _ => {},
        }
        let start: u64 = u64::decode(buf, version)?;
        let end: u64 = u64::decode(buf, version)?;
        let error: u64 = u64::decode(buf, version)?;
        Ok(SubscribeDrop { start, end, error })
    }

    open spec fn print_msg(model: SubscribeDrop, version: Version) -> Result<Seq<u8>, EncodeError> {
        if version.rank() < 3 {
            Err(EncodeError::Version)
        } else {
            followed_by(
                u64::print(model.start, version),
                followed_by(u64::print(model.end, version), u64::print(model.error, version)),
            )
        }
    }

    fn encode_msg(&self, buf: &mut Vec<u8>, version: Version) -> (r: Result<(), EncodeError>) {
        match version {
            Version::Lite01 | Version::Lite02 => {
                return Err(EncodeError::Version);
            },
            _ => {},
        }
        let mut body: Vec<u8> = Vec::new();
        self.start.encode(&mut body, version)?;
        self.end.encode(&mut body, version)?;
        self.error.encode(&mut body, version)?;
        assert(body@ =~= Self::print_msg(self.model(), version)->Ok_0);
        buf.append(&mut body);
        Ok(())
    }

    open spec fn legal_msg(model: SubscribeDrop) -> bool {
        true
    }

    open spec fn carried_msg(model: SubscribeDrop, version: Version) -> SubscribeDrop {
        model
    }

    #[verifier::rlimit(40)]
    proof fn msg_round_trip(model: SubscribeDrop, version: Version) {
        let a = u64::print(model.start, version)->Ok_0;
        let b = u64::print(model.end, version)->Ok_0;
        let c = u64::print(model.error, version)->Ok_0;
        u64::round_trip(model.start, version, b + c);
        u64::round_trip(model.end, version, c);
        u64::round_trip(model.error, version, seq![]);
        assert(c + Seq::<u8>::empty() =~= c);
    }
}

/// A response message on the subscribe stream, prefixed with a type discriminator
/// on Lite03+.
///
/// The discriminator is version-dependent:
/// - Lite03/04: `0x0` SUBSCRIBE_OK, `0x1` SUBSCRIBE_DROP.
/// - Lite05+: `0x0` SUBSCRIBE_START, `0x1` SUBSCRIBE_END, `0x2` SUBSCRIBE_DROP
///   (SUBSCRIBE_OK was removed; acceptance is implicit).
#[derive(Clone, Copy, Debug, PartialEq, Eq, Structural)]
pub enum SubscribeResponse {
    Accepted(SubscribeOk),
    Start(SubscribeStart),
    End(SubscribeEnd),
    Drop(SubscribeDrop),
}

/// Write a `type` varint followed by the size-prefixed message body.
pub open spec fn print_typed<M: Message>(typ: u64, model: M::Model, version: Version) -> Result<
    Seq<u8>,
    EncodeError,
> {
    followed_by(u64::print(typ, version), M::print(model, version))
}

/// Write a `type` varint followed by the size-prefixed message body.
fn encode_typed<M: Message>(buf: &mut Vec<u8>, typ: u64, msg: &M, version: Version) -> (r: Result<
    (),
    EncodeError,
>)
    ensures
        match print_typed::<M>(typ, msg.model(), version) {
            Ok(bytes) => r is Ok && final(buf)@ == old(buf)@ + bytes,
            Err(e) => r == Err::<(), EncodeError>(e) && final(buf)@ == old(buf)@,
        },
{
    let mut body: Vec<u8> = Vec::new();
    typ.encode(&mut body, version)?;
    msg.encode(&mut body, version)?;
    assert(body@ =~= print_typed::<M>(typ, msg.model(), version)->Ok_0);
    buf.append(&mut body);
    Ok(())
}

impl Wire for SubscribeResponse {
    type Model = SubscribeResponse;

    open spec fn model(&self) -> SubscribeResponse {
        *self
    }
}

impl Encode for SubscribeResponse {
    open spec fn print(model: SubscribeResponse, version: Version) -> Result<
        Seq<u8>,
        EncodeError,
    > {
        if version.rank() <= 2 {
            match model {
                SubscribeResponse::Accepted(ok) => SubscribeOk::print(ok, version),
                _ => Err(EncodeError::Version),
            }
        } else if version.rank() <= 4 {
            match model {
                SubscribeResponse::Accepted(ok) => print_typed::<SubscribeOk>(0, ok, version),
                SubscribeResponse::Drop(drop) => print_typed::<SubscribeDrop>(1, drop, version),
                _ => Err(EncodeError::Version),
            }
        } else {
            match model {
                SubscribeResponse::Start(start) => print_typed::<SubscribeStart>(0, start, version),
                SubscribeResponse::End(end) => print_typed::<SubscribeEnd>(1, end, version),
                SubscribeResponse::Drop(drop) => print_typed::<SubscribeDrop>(2, drop, version),
                SubscribeResponse::Accepted(_) => Err(EncodeError::Version),
            }
        }
    }

    fn encode(&self, buf: &mut Vec<u8>, version: Version) -> (r: Result<(), EncodeError>) {
        match version {
            Version::Lite01 | Version::Lite02 => match self {
                SubscribeResponse::Accepted(ok) => ok.encode(buf, version),
                _ => Err(EncodeError::Version),
            },
            Version::Lite03 | Version::Lite04 => match self {
                SubscribeResponse::Accepted(ok) => encode_typed(buf, 0, ok, version),
                SubscribeResponse::Drop(drop) => encode_typed(buf, 1, drop, version),
                _ => Err(EncodeError::Version),
            },
            _ => match self {
                SubscribeResponse::Start(start) => encode_typed(buf, 0, start, version),
                SubscribeResponse::End(end) => encode_typed(buf, 1, end, version),
                SubscribeResponse::Drop(drop) => encode_typed(buf, 2, drop, version),
                SubscribeResponse::Accepted(_) => Err(EncodeError::Version),
            },
        }
    }
}

impl Decode for SubscribeResponse {
    open spec fn parse(bytes: Seq<u8>, version: Version) -> (
        Result<SubscribeResponse, DecodeError>,
        Seq<u8>,
    ) {
        if version.rank() <= 2 {
            parse_response_ok(bytes, version)
        } else {
            match parse_varint(bytes) {
                (Err(e), rest) => (Err(e), rest),
                (Ok(typ), rest) => if version.rank() <= 4 {
                    if typ == 0 {
                        parse_response_ok(rest, version)
                    } else if typ == 1 {
                        parse_response_drop(rest, version)
                    } else {
                        (Err(DecodeError::InvalidMessage(typ)), rest)
                    }
                } else {
                    if typ == 0 {
                        match SubscribeStart::parse(rest, version) {
                            (Err(e), rest) => (Err(e), rest),
                            (Ok(start), rest) => (Ok(SubscribeResponse::Start(start)), rest),
                        }
                    } else if typ == 1 {
                        match SubscribeEnd::parse(rest, version) {
                            (Err(e), rest) => (Err(e), rest),
                            (Ok(end), rest) => (Ok(SubscribeResponse::End(end)), rest),
                        }
                    } else if typ == 2 {
                        parse_response_drop(rest, version)
                    } else {
                        (Err(DecodeError::InvalidMessage(typ)), rest)
                    }
                },
            }
        }
    }

    fn decode(buf: &mut &[u8], version: Version) -> (r: Result<SubscribeResponse, DecodeError>) {
        match version {
            Version::Lite01 | Version::Lite02 => {
                let ok: SubscribeOk = SubscribeOk::decode(buf, version)?;
                Ok(SubscribeResponse::Accepted(ok))
            },
            Version::Lite03 | Version::Lite04 => {
                let typ: u64 = u64::decode(buf, version)?;
                match typ {
                    0 => {
                        let ok: SubscribeOk = SubscribeOk::decode(buf, version)?;
                        Ok(SubscribeResponse::Accepted(ok))
                    },
                    1 => {
                        let drop: SubscribeDrop = SubscribeDrop::decode(buf, version)?;
                        Ok(SubscribeResponse::Drop(drop))
                    },
                    _ => Err(DecodeError::InvalidMessage(typ)),
                }
            },
            _ => {
                let typ: u64 = u64::decode(buf, version)?;
                match typ {
                    0 => {
                        let start: SubscribeStart = SubscribeStart::decode(buf, version)?;
                        Ok(SubscribeResponse::Start(start))
                    },
                    1 => {
                        let end: SubscribeEnd = SubscribeEnd::decode(buf, version)?;
                        Ok(SubscribeResponse::End(end))
                    },
                    2 => {
                        let drop: SubscribeDrop = SubscribeDrop::decode(buf, version)?;
                        Ok(SubscribeResponse::Drop(drop))
                    },
                    _ => Err(DecodeError::InvalidMessage(typ)),
                }
            },
        }
    }
}

/// Reading a SUBSCRIBE_OK response behind its type.
pub open spec fn parse_response_ok(bytes: Seq<u8>, version: Version) -> (
    Result<SubscribeResponse, DecodeError>,
    Seq<u8>,
) {
    match SubscribeOk::parse(bytes, version) {
        (Err(e), rest) => (Err(e), rest),
        (Ok(ok), rest) => (Ok(SubscribeResponse::Accepted(ok)), rest),
    }
}

/// Reading a SUBSCRIBE_DROP response behind its type.
pub open spec fn parse_response_drop(bytes: Seq<u8>, version: Version) -> (
    Result<SubscribeResponse, DecodeError>,
    Seq<u8>,
) {
    match SubscribeDrop::parse(bytes, version) {
        (Err(e), rest) => (Err(e), rest),
        (Ok(drop), rest) => (Ok(SubscribeResponse::Drop(drop)), rest),
    }
}

proof fn typed_round_trip<M: Message>(typ: u64, model: M::Model, version: Version, rest: Seq<u8>)
    requires
        M::legal_msg(model),
        print_typed::<M>(typ, model, version) is Ok,
        print_typed::<M>(typ, model, version)->Ok_0.len() <= usize::MAX,
    ensures
        ({
            let bytes = print_typed::<M>(typ, model, version)->Ok_0 + rest;
            let body = M::print(model, version)->Ok_0 + rest;
            &&& parse_varint(bytes) == (Ok::<u64, DecodeError>(typ), body)
            &&& M::parse(body, version) == (
                Ok::<M::Model, DecodeError>(M::carried_msg(model, version)),
                rest,
            )
        }),
{
    let a = u64::print(typ, version)->Ok_0;
    let b = M::print(model, version)->Ok_0;
    assert((a + b) + rest =~= a + (b + rest));
    varint_round_trip(typ, b + rest);
    M::round_trip(model, version, rest);
}

impl RoundTrip for SubscribeResponse {
    open spec fn legal(model: SubscribeResponse) -> bool {
        true
    }

    open spec fn carried(model: SubscribeResponse, version: Version) -> SubscribeResponse {
        match model {
            SubscribeResponse::Accepted(ok) => SubscribeResponse::Accepted(
                SubscribeOk::carried_msg(ok, version),
            ),
            _ => model,
        }
    }

    proof fn round_trip(model: SubscribeResponse, version: Version, rest: Seq<u8>) {
        match model {
            SubscribeResponse::Accepted(ok) => if version.rank() <= 2 {
                SubscribeOk::round_trip(ok, version, rest);
            } else {
                typed_round_trip::<SubscribeOk>(0, ok, version, rest);
            },
            SubscribeResponse::Start(start) => {
                typed_round_trip::<SubscribeStart>(0, start, version, rest);
            },
            SubscribeResponse::End(end) => {
                typed_round_trip::<SubscribeEnd>(1, end, version, rest);
            },
            SubscribeResponse::Drop(drop) => if version.rank() <= 4 {
                typed_round_trip::<SubscribeDrop>(1, drop, version, rest);
            } else {
                typed_round_trip::<SubscribeDrop>(2, drop, version, rest);
            },
        }
    }
}

} // verus!
