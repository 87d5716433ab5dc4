//! What holds of the messages on the wire: what is written reads back, field by field, as far as
//! the version carries it, and where in the message each field stands.

use vstd::prelude::*;
use vstd::utf8::*;

use crate::coding::decode::{Decode, DecodeError};
use crate::coding::encode::{Encode, EncodeError, RoundTrip};
use crate::coding::message::Message;
use crate::coding::varint::{varint_bytes, varint_round_trip, VARINT_MAX};
use crate::lite::announce::{
    AnnounceBroadcast, AnnounceInit, AnnounceModel, AnnounceOk, AnnounceRequest,
    AnnounceRequestModel,
};
use crate::lite::fetch::{Fetch, FetchModel};
use crate::lite::parameters::print_params;
use crate::lite::setup::{setup_params, Setup, SetupModel};
use crate::lite::subscribe::{
    print_delivery, Delivery, Subscribe, SubscribeDrop, SubscribeEnd, SubscribeModel, SubscribeOk,
    SubscribeResponse, SubscribeStart, SubscribeUpdate,
};
use crate::lite::track::{Track, TrackInfo, TrackModel};
use crate::lite::Version;
use crate::model::origin::{Origin, OriginList, MAX_HOPS};
use crate::path::{join_path, valid_parts, Path};

verus! {

/// A message is its size and its body. A reader wants all of the body and nothing more: what is
/// missing is short, what is left over is too long.
pub proof fn messages_are_framed<M: Message>(model: M::Model, version: Version, rest: Seq<u8>)
    requires
        M::print_msg(model, version) is Ok,
        M::print_msg(model, version)->Ok_0.len() <= VARINT_MAX,
        M::print_msg(model, version)->Ok_0.len() <= usize::MAX,
    ensures
        ({
            let body = M::print_msg(model, version)->Ok_0;
            let inner = M::parse_msg(body, version);
            let framed = varint_bytes(body.len() as u64) + body;
            &&& M::print(model, version) == Ok::<Seq<u8>, EncodeError>(framed)
            &&& inner.0 is Ok && inner.1.len() == 0 ==> M::parse(framed + rest, version) == (
                inner.0,
                rest,
            )
            &&& inner.0 is Ok && inner.1.len() > 0 ==> M::parse(framed + rest, version).0 == Err::<
                M::Model,
                DecodeError,
            >(DecodeError::Long)
            &&& inner.0 is Err ==> M::parse(framed + rest, version).0 == inner.0
            &&& body.len() > 0 ==> M::parse(framed.drop_last(), version).0 == Err::<
                M::Model,
                DecodeError,
            >(DecodeError::Short)
        }),
{
    let body = M::print_msg(model, version)->Ok_0;
    let size = varint_bytes(body.len() as u64);
    let framed = size + body;
    varint_round_trip(body.len() as u64, body + rest);
    assert(framed + rest =~= size + (body + rest));
    assert((body + rest).take(body.len() as int) =~= body);
    assert((body + rest).skip(body.len() as int) =~= rest);
    assert(Seq::<u8>::empty() + rest =~= rest);
    if body.len() > 0 {
        varint_round_trip(body.len() as u64, body.drop_last());
        assert(framed.drop_last() =~= size + body.drop_last());
    }
}

/// A SUBSCRIBE reads back as it was written; before lite-03 without its delivery preferences, and
/// always in whole milliseconds.
pub proof fn subscribe_reads_back(model: SubscribeModel, version: Version, rest: Seq<u8>)
    requires
        valid_parts(model.broadcast),
        model.broadcast.len() <= 32,
        Subscribe::print(model, version) is Ok,
        Subscribe::print(model, version)->Ok_0.len() <= usize::MAX,
    ensures
        Subscribe::parse(Subscribe::print(model, version)->Ok_0 + rest, version) matches (
            Ok(back),
            left,
        ) && {
            &&& left == rest
            &&& back.id == model.id
            &&& back.broadcast == model.broadcast
            &&& back.track == model.track
            &&& back.priority == model.priority
            &&& version.rank() >= 3 ==> {
                &&& back.delivery.ordered == model.delivery.ordered
                &&& back.delivery.max_latency.nanos == model.delivery.max_latency.nanos / 1_000_000
                    * 1_000_000
                &&& back.delivery.start_group == model.delivery.start_group
                &&& back.delivery.end_group == model.delivery.end_group
            }
            &&& version.rank() < 3 ==> {
                &&& !back.delivery.ordered
                &&& back.delivery.max_latency.nanos == 0
                &&& back.delivery.start_group is None
                &&& back.delivery.end_group is None
            }
        },
{
    Subscribe::round_trip(model, version, rest);
}

/// The code of an optional group on the wire: zero without one, and one more than it otherwise.
pub open spec fn group_code(group: Option<u64>) -> u64 {
    match group {
        Some(group) => (group + 1) as u64,
        None => 0,
    }
}

/// Delivery preferences are the order, the latency in milliseconds, the start and the end, in this
/// order, and can be written as long as each fits a varint.
pub proof fn delivery_layout(delivery: Delivery, version: Version)
    ensures
        print_delivery(delivery, version) is Ok <==> {
            &&& delivery.max_latency.nanos / 1_000_000 <= VARINT_MAX
            &&& delivery.start_group matches Some(group) ==> group < VARINT_MAX
            &&& delivery.end_group matches Some(group) ==> group < VARINT_MAX
        },
        print_delivery(delivery, version) matches Ok(bytes) ==> bytes == seq![
            if delivery.ordered { 1u8 } else { 0u8 },
        ] + (varint_bytes((delivery.max_latency.nanos / 1_000_000) as u64) + (varint_bytes(
            group_code(delivery.start_group),
        ) + varint_bytes(group_code(delivery.end_group)))),
{
}

/// A SUBSCRIBE_UPDATE reads back as it was written, in whole milliseconds. It exists from lite-03
/// on.
pub proof fn subscribe_update_reads_back(
    update: SubscribeUpdate,
    version: Version,
    rest: Seq<u8>,
)
    ensures
        version.rank() < 3 ==> {
            &&& SubscribeUpdate::print(update, version) == Err::<Seq<u8>, EncodeError>(
                EncodeError::Version,
            )
            &&& SubscribeUpdate::parse_msg(rest, version).0 == Err::<SubscribeUpdate, DecodeError>(
                DecodeError::Version,
            )
        },
        SubscribeUpdate::print(update, version) is Ok && SubscribeUpdate::print(
            update,
            version,
        )->Ok_0.len() <= usize::MAX ==> (SubscribeUpdate::parse(
            SubscribeUpdate::print(update, version)->Ok_0 + rest,
            version,
        ) matches (Ok(back), left) && {
            &&& left == rest
            &&& back.priority == update.priority
            &&& back.ordered == update.ordered
            &&& back.max_latency.nanos == update.max_latency.nanos / 1_000_000 * 1_000_000
            &&& back.start_group == update.start_group
            &&& back.end_group == update.end_group
        }),
{
    if SubscribeUpdate::print(update, version) is Ok && SubscribeUpdate::print(
        update,
        version,
    )->Ok_0.len() <= usize::MAX {
        SubscribeUpdate::round_trip(update, version, rest);
    }
}

/// From lite-03 on a SUBSCRIBE_UPDATE is the priority and the delivery preferences. A SUBSCRIBE is
/// the id, the broadcast, the track and the priority, and from lite-03 on the delivery
/// preferences.
pub proof fn subscribe_layout(
    model: SubscribeModel,
    update: SubscribeUpdate,
    version: Version,
)
    ensures
        Subscribe::print_msg(model, version) matches Ok(body) ==> body == varint_bytes(model.id) + (
        Path::print(model.broadcast, version)->Ok_0 + (String::print(model.track, version)->Ok_0 + (
        seq![model.priority] + if version.rank() < 3 {
            Seq::<u8>::empty()
        } else {
            print_delivery(model.delivery, version)->Ok_0
        }))),
        version.rank() >= 3 ==> ({
            let delivery = Delivery {
                ordered: update.ordered,
                max_latency: update.max_latency,
                start_group: update.start_group,
                end_group: update.end_group,
            };
            &&& SubscribeUpdate::print_msg(update, version) is Ok <==> print_delivery(
                delivery,
                version,
            ) is Ok
            &&& SubscribeUpdate::print_msg(update, version) matches Ok(body) ==> body == seq![
                update.priority,
            ] + print_delivery(delivery, version)->Ok_0
        }),
{
}

/// Text is its length in bytes and its UTF-8, and a path is its text with slashes.
pub proof fn text_layout(text: Seq<char>, parts: Seq<Seq<char>>, version: Version)
    ensures
        String::print(text, version) matches Ok(bytes) ==> bytes == varint_bytes(
            encode_utf8(text).len() as u64,
        ) + encode_utf8(text),
        String::print(text, version) is Ok <==> encode_utf8(text).len() <= VARINT_MAX,
        parts.len() <= 32 ==> Path::print(parts, version) == String::print(
            join_path(parts),
            version,
        ),
        parts.len() > 32 ==> Path::print(parts, version) is Err,
{
}

/// A SUBSCRIBE_OK reads back as far as its version carries it: nothing on lite-02, the priority on
/// lite-01, and everything from lite-03 on.
pub proof fn subscribe_ok_reads_back(ok: SubscribeOk, version: Version, rest: Seq<u8>)
    requires
        SubscribeOk::print(ok, version) is Ok,
        SubscribeOk::print(ok, version)->Ok_0.len() <= usize::MAX,
    ensures
        SubscribeOk::parse(SubscribeOk::print(ok, version)->Ok_0 + rest, version) matches (
            Ok(back),
            left,
        ) && {
            &&& left == rest
            &&& version.rank() != 2 ==> back.priority == ok.priority
            &&& version.rank() == 2 ==> back.priority == 0
            &&& version.rank() >= 3 ==> {
                &&& back.ordered == ok.ordered
                &&& back.max_latency.nanos == ok.max_latency.nanos / 1_000_000 * 1_000_000
                &&& back.start_group == ok.start_group
                &&& back.end_group == ok.end_group
            }
            &&& version.rank() < 3 ==> {
                &&& !back.ordered
                &&& back.max_latency.nanos == 0
                &&& back.start_group is None
                &&& back.end_group is None
            }
        },
{
    SubscribeOk::round_trip(ok, version, rest);
}

/// Which answers a version has on a Subscribe Stream, and that each reads back as it was written.
pub proof fn subscribe_responses_read_back(
    response: SubscribeResponse,
    version: Version,
    rest: Seq<u8>,
)
    ensures
        version.rank() <= 2 && !(response is Accepted) ==> SubscribeResponse::print(
            response,
            version,
        ) == Err::<Seq<u8>, EncodeError>(EncodeError::Version),
        3 <= version.rank() <= 4 && (response is Start || response is End)
            ==> SubscribeResponse::print(response, version) == Err::<Seq<u8>, EncodeError>(
            EncodeError::Version,
        ),
        version.rank() >= 5 && response is Accepted ==> SubscribeResponse::print(response, version)
            == Err::<Seq<u8>, EncodeError>(EncodeError::Version),
        response matches SubscribeResponse::Start(start) ==> (version.rank() >= 5 && start.group
            <= VARINT_MAX ==> SubscribeStart::print_msg(start, version) == Ok::<
            Seq<u8>,
            EncodeError,
        >(varint_bytes(start.group))),
        response matches SubscribeResponse::End(end) ==> (version.rank() >= 5 && end.group
            <= VARINT_MAX ==> SubscribeEnd::print_msg(end, version) == Ok::<
            Seq<u8>,
            EncodeError,
        >(varint_bytes(end.group))),
        response matches SubscribeResponse::Drop(drop) ==> (version.rank() >= 3 && drop.start
            <= VARINT_MAX && drop.end <= VARINT_MAX && drop.error <= VARINT_MAX
            ==> SubscribeDrop::print_msg(drop, version) == Ok::<Seq<u8>, EncodeError>(
            varint_bytes(drop.start) + (varint_bytes(drop.end) + varint_bytes(drop.error)),
        )),
        SubscribeResponse::print(response, version) matches Ok(bytes) ==> (version.rank() >= 3
            ==> bytes.take(varint_bytes(response_type(response, version)).len() as int)
            == varint_bytes(response_type(response, version))),
        SubscribeResponse::print(response, version) is Ok && SubscribeResponse::print(
            response,
            version,
        )->Ok_0.len() <= usize::MAX && !(response is Accepted) ==> SubscribeResponse::parse(
            SubscribeResponse::print(response, version)->Ok_0 + rest,
            version,
        ) == (Ok::<SubscribeResponse, DecodeError>(response), rest),
        SubscribeResponse::print(response, version) is Ok && SubscribeResponse::print(
            response,
            version,
        )->Ok_0.len() <= usize::MAX && response is Accepted ==> (SubscribeResponse::parse(
            SubscribeResponse::print(response, version)->Ok_0 + rest,
            version,
        ) matches (Ok(back), left) && left == rest && back is Accepted),
{
    if let Ok(bytes) = SubscribeResponse::print(response, version) {
        if bytes.len() <= usize::MAX {
            SubscribeResponse::round_trip(response, version, rest);
        }
        if version.rank() >= 3 {
            let typ = varint_bytes(response_type(response, version));
            assert(bytes.take(typ.len() as int) =~= typ);
        }
    }
}

/// The number that stands before an answer on a Subscribe Stream.
pub open spec fn response_type(response: SubscribeResponse, version: Version) -> u64 {
    match response {
        SubscribeResponse::Accepted(_) => 0,
        SubscribeResponse::Start(_) => 0,
        SubscribeResponse::End(_) => 1,
        SubscribeResponse::Drop(_) => if version.rank() <= 4 {
            1
        } else {
            2
        },
    }
}

/// An announcement reads back as it was written. Its hops are carried from lite-04 on; lite-03
/// carries how many they are, and before that there are none. A retraction is by path before
/// lite-06 and by id from then on, and so is a restart.
pub proof fn announcement_reads_back(model: AnnounceModel, version: Version, rest: Seq<u8>)
    requires
        AnnounceBroadcast::legal(model),
    ensures
        version.rank() >= 6 && model is Ended ==> AnnounceBroadcast::print(model, version) == Err::<
            Seq<u8>,
            EncodeError,
        >(EncodeError::Version),
        version.rank() < 6 && (model is EndedId || model is Restart) ==> AnnounceBroadcast::print(
            model,
            version,
        ) == Err::<Seq<u8>, EncodeError>(EncodeError::Version),
        AnnounceBroadcast::print(model, version) is Ok && AnnounceBroadcast::print(
            model,
            version,
        )->Ok_0.len() <= usize::MAX ==> (AnnounceBroadcast::parse(
            AnnounceBroadcast::print(model, version)->Ok_0 + rest,
            version,
        ) matches (Ok(back), left) && {
            &&& left == rest
            &&& version.rank() >= 4 ==> back == model
            &&& model matches AnnounceModel::Active { suffix, hops } ==> (
            back matches AnnounceModel::Active { suffix: path, hops: chain } && path == suffix
                && same_chain(hops, chain, version))
            &&& model matches AnnounceModel::Ended { suffix, hops } ==> (
            back matches AnnounceModel::Ended { suffix: path, hops: chain } && path == suffix
                && same_chain(hops, chain, version))
        }),
{
    if AnnounceBroadcast::print(model, version) is Ok && AnnounceBroadcast::print(
        model,
        version,
    )->Ok_0.len() <= usize::MAX {
        AnnounceBroadcast::round_trip(model, version, rest);
    }
}

/// Whether a hop chain came through as far as a version carries it.
pub open spec fn same_chain(sent: Seq<Origin>, came: Seq<Origin>, version: Version) -> bool {
    &&& version.rank() >= 4 ==> came == sent
    &&& version.rank() == 3 ==> came.len() == sent.len() && forall|i: int|
        0 <= i < came.len() ==> #[trigger] came[i] == Origin::of(0)
    &&& version.rank() <= 2 ==> came.len() == 0
}

/// Whether something of `model` can be announced at all: every version announces what is active,
/// and every version takes it back, as long as path and chain fit the wire.
pub proof fn every_version_announces(
    suffix: Seq<Seq<char>>,
    hops: Seq<Origin>,
    id: u64,
    version: Version,
)
    requires
        suffix.len() <= 32,
        encode_utf8(join_path(suffix)).len() <= VARINT_MAX,
        version.rank() <= 3,
        hops.len() <= MAX_HOPS,
    ensures
        ({
            let text = String::print(join_path(suffix), version)->Ok_0;
            let chain = if version.rank() == 3 {
                varint_bytes(hops.len() as u64)
            } else {
                Seq::<u8>::empty()
            };
            let body = text + chain;
            let active = seq![1u8] + body;
            let ended = seq![0u8] + body;
            &&& active.len() <= VARINT_MAX ==> AnnounceBroadcast::print(
                AnnounceModel::Active { suffix, hops },
                version,
            ) == Ok::<Seq<u8>, EncodeError>(varint_bytes(active.len() as u64) + active)
            &&& ended.len() <= VARINT_MAX ==> AnnounceBroadcast::print(
                AnnounceModel::Ended { suffix, hops },
                version,
            ) == Ok::<Seq<u8>, EncodeError>(varint_bytes(ended.len() as u64) + ended)
        }),
{
}

/// From lite-06 on a retraction is the type one and the id.
pub proof fn retraction_layout(id: u64, version: Version)
    requires
        version.rank() >= 6,
        id <= VARINT_MAX,
    ensures
        AnnounceBroadcast::print(AnnounceModel::EndedId { id }, version) == Ok::<
            Seq<u8>,
            EncodeError,
        >(varint_bytes(1) + (varint_bytes(varint_bytes(id).len() as u64) + varint_bytes(id))),
{
}

/// A request for announcements reads back as it was written; the hop to exclude is carried from
/// lite-04 on.
pub proof fn announce_request_reads_back(
    model: AnnounceRequestModel,
    version: Version,
    rest: Seq<u8>,
)
    requires
        valid_parts(model.prefix),
        model.prefix.len() <= 32,
        AnnounceRequest::print(model, version) is Ok,
        AnnounceRequest::print(model, version)->Ok_0.len() <= usize::MAX,
    ensures
        AnnounceRequest::parse(AnnounceRequest::print(model, version)->Ok_0 + rest, version) matches (
            Ok(back),
            left,
        ) && {
            &&& left == rest
            &&& back.prefix == model.prefix
            &&& version.rank() >= 4 ==> back.exclude_hop == model.exclude_hop
            &&& version.rank() < 4 ==> back.exclude_hop == 0
        },
{
    AnnounceRequest::round_trip(model, version, rest);
}

/// The list of active paths exists on lite-01 and lite-02, the count of those to come from lite-05
/// on, and both read back as they were written.
pub proof fn initial_sets_read_back(
    suffixes: Seq<Seq<Seq<char>>>,
    ok: AnnounceOk,
    version: Version,
    rest: Seq<u8>,
)
    requires
        forall|i: int|
            0 <= i < suffixes.len() ==> valid_parts(#[trigger] suffixes[i]) && suffixes[i].len()
                <= 32,
    ensures
        version.rank() > 2 ==> AnnounceInit::print(suffixes, version) == Err::<
            Seq<u8>,
            EncodeError,
        >(EncodeError::Version),
        version.rank() < 5 ==> AnnounceOk::print(ok, version) == Err::<Seq<u8>, EncodeError>(
            EncodeError::Version,
        ),
        AnnounceInit::print(suffixes, version) is Ok && AnnounceInit::print(
            suffixes,
            version,
        )->Ok_0.len() <= usize::MAX ==> AnnounceInit::parse(
            AnnounceInit::print(suffixes, version)->Ok_0 + rest,
            version,
        ) == (Ok::<Seq<Seq<Seq<char>>>, DecodeError>(suffixes), rest),
        AnnounceOk::print(ok, version) is Ok && AnnounceOk::print(ok, version)->Ok_0.len()
            <= usize::MAX ==> AnnounceOk::parse(
            AnnounceOk::print(ok, version)->Ok_0 + rest,
            version,
        ) == (Ok::<AnnounceOk, DecodeError>(ok), rest),
        AnnounceOk::print_msg(ok, version) matches Ok(body) ==> body == varint_bytes(ok.origin.id())
            + varint_bytes(ok.active),
{
    if AnnounceInit::print(suffixes, version) is Ok && AnnounceInit::print(
        suffixes,
        version,
    )->Ok_0.len() <= usize::MAX {
        AnnounceInit::round_trip(suffixes, version, rest);
    }
    if AnnounceOk::print(ok, version) is Ok && AnnounceOk::print(ok, version)->Ok_0.len()
        <= usize::MAX {
        AnnounceOk::round_trip(ok, version, rest);
    }
}

/// A FETCH exists from lite-03 on and reads back as it was written: the broadcast, the track, the
/// priority and the group, in this order.
pub proof fn fetch_reads_back(model: FetchModel, version: Version, rest: Seq<u8>)
    requires
        valid_parts(model.broadcast),
        model.broadcast.len() <= 32,
    ensures
        version.rank() < 3 ==> {
            &&& Fetch::print(model, version) == Err::<Seq<u8>, EncodeError>(EncodeError::Version)
            &&& Fetch::parse_msg(rest, version).0 == Err::<FetchModel, DecodeError>(
                DecodeError::Version,
            )
        },
        Fetch::print(model, version) is Ok && Fetch::print(model, version)->Ok_0.len()
            <= usize::MAX ==> Fetch::parse(Fetch::print(model, version)->Ok_0 + rest, version) == (
            Ok::<FetchModel, DecodeError>(model),
            rest,
        ),
        Fetch::print_msg(model, version) matches Ok(body) ==> body == Path::print(
            model.broadcast,
            version,
        )->Ok_0 + String::print(model.track, version)->Ok_0 + seq![model.priority] + varint_bytes(
            model.group,
        ),
{
    if Fetch::print(model, version) is Ok && Fetch::print(model, version)->Ok_0.len()
        <= usize::MAX {
        Fetch::round_trip(model, version, rest);
    }
    if let Ok(body) = Fetch::print_msg(model, version) {
        assert(body =~= Path::print(model.broadcast, version)->Ok_0 + String::print(
            model.track,
            version,
        )->Ok_0 + seq![model.priority] + varint_bytes(model.group));
    }
}

/// The messages of a Track Stream exist from lite-05 on. A request reads back as it was written,
/// and so do the properties, in whole milliseconds.
pub proof fn track_stream_reads_back(
    model: TrackModel,
    info: TrackInfo,
    version: Version,
    rest: Seq<u8>,
)
    requires
        valid_parts(model.broadcast),
        model.broadcast.len() <= 32,
        info.timescale.as_u64() != 0,
    ensures
        version.rank() < 5 ==> {
            &&& Track::print(model, version) == Err::<Seq<u8>, EncodeError>(EncodeError::Version)
            &&& TrackInfo::print(info, version) == Err::<Seq<u8>, EncodeError>(
                EncodeError::Version,
            )
            &&& Track::parse_msg(rest, version).0 == Err::<TrackModel, DecodeError>(
                DecodeError::Version,
            )
            &&& TrackInfo::parse_msg(rest, version).0 == Err::<TrackInfo, DecodeError>(
                DecodeError::Version,
            )
        },
        Track::print(model, version) is Ok && Track::print(model, version)->Ok_0.len()
            <= usize::MAX ==> Track::parse(Track::print(model, version)->Ok_0 + rest, version) == (
            Ok::<TrackModel, DecodeError>(model),
            rest,
        ),
        TrackInfo::print(info, version) is Ok && TrackInfo::print(info, version)->Ok_0.len()
            <= usize::MAX ==> (TrackInfo::parse(
            TrackInfo::print(info, version)->Ok_0 + rest,
            version,
        ) matches (Ok(back), left) && {
            &&& left == rest
            &&& back.priority == info.priority
            &&& back.ordered == info.ordered
            &&& back.cache.nanos == info.cache.nanos / 1_000_000 * 1_000_000
            &&& back.timescale == info.timescale
        }),
{
    if Track::print(model, version) is Ok && Track::print(model, version)->Ok_0.len()
        <= usize::MAX {
        Track::round_trip(model, version, rest);
    }
    if TrackInfo::print(info, version) is Ok && TrackInfo::print(info, version)->Ok_0.len()
        <= usize::MAX {
        TrackInfo::round_trip(info, version, rest);
    }
}

/// The properties of a track are its priority, its order, its cache in milliseconds and its
/// timescale, in this order.
pub proof fn track_info_layout(info: TrackInfo, version: Version)
    ensures
        TrackInfo::print_msg(info, version) is Ok <==> {
            &&& version.rank() >= 5
            &&& info.cache.nanos / 1_000_000 <= VARINT_MAX
            &&& info.timescale.as_u64() <= VARINT_MAX
        },
        TrackInfo::print_msg(info, version) matches Ok(body) ==> body == seq![info.priority] + (
        seq![if info.ordered { 1u8 } else { 0u8 }] + (varint_bytes(
            (info.cache.nanos / 1_000_000) as u64,
        ) + varint_bytes(info.timescale.as_u64()))),
{
}

/// A SETUP exists from lite-05 on and reads back as it was written, as long as a path that it
/// gives is not empty.
pub proof fn setup_reads_back(model: SetupModel, version: Version, rest: Seq<u8>)
    requires
        model.path matches Some(path) ==> path.len() > 0,
    ensures
        version.rank() < 5 ==> {
            &&& Setup::print(model, version) == Err::<Seq<u8>, EncodeError>(EncodeError::Version)
            &&& Setup::parse_msg(rest, version).0 == Err::<SetupModel, DecodeError>(
                DecodeError::Version,
            )
        },
        Setup::print(model, version) is Ok && Setup::print(model, version)->Ok_0.len()
            <= usize::MAX ==> Setup::parse(Setup::print(model, version)->Ok_0 + rest, version) == (
            Ok::<SetupModel, DecodeError>(model),
            rest,
        ),
{
    if Setup::print(model, version) is Ok && Setup::print(model, version)->Ok_0.len()
        <= usize::MAX {
        Setup::round_trip(model, version, rest);
    }
}

/// Whether text fits the wire.
pub open spec fn text_fits(text: Seq<char>) -> bool {
    encode_utf8(text).len() <= VARINT_MAX
}

/// Whether a path fits the wire.
pub open spec fn path_fits(parts: Seq<Seq<char>>) -> bool {
    parts.len() <= 32 && text_fits(join_path(parts))
}

/// A SUBSCRIBE can be written on every version, as long as its fields fit; what a version does not
/// carry need not.
pub proof fn subscribe_can_be_written(model: SubscribeModel, version: Version)
    ensures
        Subscribe::print_msg(model, version) is Ok <==> {
            &&& model.id <= VARINT_MAX
            &&& path_fits(model.broadcast)
            &&& text_fits(model.track)
            &&& version.rank() >= 3 ==> print_delivery(model.delivery, version) is Ok
        },
{
}

/// A SUBSCRIBE_OK can be written on every version.
pub proof fn subscribe_ok_can_be_written(ok: SubscribeOk, version: Version)
    ensures
        version.rank() < 3 ==> SubscribeOk::print_msg(ok, version) is Ok,
        version.rank() >= 3 ==> (SubscribeOk::print_msg(ok, version) is Ok <==> print_delivery(
            Delivery {
                ordered: ok.ordered,
                max_latency: ok.max_latency,
                start_group: ok.start_group,
                end_group: ok.end_group,
            },
            version,
        ) is Ok),
{
}

/// From lite-03 on groups can be fetched and reported as dropped, and from lite-05 on the start
/// and the end of a subscription can be told.
pub proof fn group_messages_can_be_written(
    fetch: FetchModel,
    drop: SubscribeDrop,
    group: u64,
    version: Version,
)
    ensures
        Fetch::print_msg(fetch, version) is Ok <==> version.rank() >= 3 && path_fits(
            fetch.broadcast,
        ) && text_fits(fetch.track) && fetch.group <= VARINT_MAX,
        SubscribeDrop::print_msg(drop, version) is Ok <==> version.rank() >= 3 && drop.start
            <= VARINT_MAX && drop.end <= VARINT_MAX && drop.error <= VARINT_MAX,
        SubscribeStart::print_msg(SubscribeStart { group }, version) is Ok <==> version.rank() >= 5
            && group <= VARINT_MAX,
        SubscribeEnd::print_msg(SubscribeEnd { group }, version) is Ok <==> version.rank() >= 5
            && group <= VARINT_MAX,
{
}

/// Announcements can be asked for on every version; the hop to exclude has to fit from lite-04 on,
/// where it is carried. The number of the initial ones can be told from lite-05 on.
pub proof fn announce_openings_can_be_written(
    request: AnnounceRequestModel,
    ok: AnnounceOk,
    version: Version,
)
    ensures
        AnnounceRequest::print_msg(request, version) is Ok <==> path_fits(request.prefix) && (
        version.rank() >= 4 ==> request.exclude_hop <= VARINT_MAX),
        ok.origin.id() <= VARINT_MAX ==> (AnnounceOk::print_msg(ok, version) is Ok
            <==> version.rank() >= 5 && ok.active <= VARINT_MAX),
{
}

/// From lite-05 on a track can be asked for.
pub proof fn track_can_be_asked_for(model: TrackModel, version: Version)
    ensures
        Track::print_msg(model, version) is Ok <==> version.rank() >= 5 && path_fits(
            model.broadcast,
        ) && text_fits(model.track),
        Track::print_msg(model, version) matches Ok(body) ==> body == Path::print(
            model.broadcast,
            version,
        )->Ok_0 + String::print(model.track, version)->Ok_0,
{
}

/// A track without a timescale is refused.
pub proof fn timescale_is_mandatory(info: TrackInfo, version: Version)
    requires
        version.rank() >= 5,
        info.cache.nanos / 1_000_000 <= VARINT_MAX,
    ensures
        ({
            let body = seq![info.priority] + (seq![0u8] + (varint_bytes(
                (info.cache.nanos / 1_000_000) as u64,
            ) + varint_bytes(0)));
            TrackInfo::parse_msg(body, version).0 == Err::<TrackInfo, DecodeError>(
                DecodeError::InvalidValue,
            )
        }),
{
    let millis = (info.cache.nanos / 1_000_000) as u64;
    let d = varint_bytes(0);
    let c = varint_bytes(millis) + d;
    let b = seq![0u8] + c;
    let body = seq![info.priority] + b;
    assert(body.skip(1) =~= b);
    assert(b.skip(1) =~= c);
    varint_round_trip(millis, d);
    varint_round_trip(0, Seq::<u8>::empty());
    assert(d + Seq::<u8>::empty() =~= d);
}

/// From lite-05 on a SETUP can be written, as long as its path fits.
pub proof fn setup_can_be_written(model: SetupModel, version: Version)
    requires
        version.rank() >= 5,
        model.path matches Some(path) ==> text_fits(path),
    ensures
        Setup::print_msg(model, version) is Ok,
{
    let entries = setup_params(model);
    assert(entries.len() <= 3);
    reveal_with_fuel(print_params, 5);
}

/// From lite-04 on an announcement carries its path and its chain, behind a status until lite-05
/// and behind a type from lite-06 on; a restart carries its id in place of the path.
pub proof fn announcement_layout(
    suffix: Seq<Seq<char>>,
    hops: Seq<Origin>,
    id: u64,
    version: Version,
)
    requires
        version.rank() >= 4,
        path_fits(suffix),
        id <= VARINT_MAX,
        OriginList::print(hops, version) is Ok,
    ensures
        ({
            let path = Path::print(suffix, version)->Ok_0;
            let chain = OriginList::print(hops, version)->Ok_0;
            let active = AnnounceModel::Active { suffix, hops };
            let ended = AnnounceModel::Ended { suffix, hops };
            let restart = AnnounceModel::Restart { id, hops };
            let body = path + chain;
            let again = varint_bytes(id) + chain;
            let on = seq![1u8] + body;
            let off = seq![0u8] + body;
            &&& version.rank() < 6 && on.len() <= VARINT_MAX ==> AnnounceBroadcast::print(
                active,
                version,
            ) == Ok::<Seq<u8>, EncodeError>(varint_bytes(on.len() as u64) + on)
            &&& version.rank() < 6 && off.len() <= VARINT_MAX ==> AnnounceBroadcast::print(
                ended,
                version,
            ) == Ok::<Seq<u8>, EncodeError>(varint_bytes(off.len() as u64) + off)
            &&& version.rank() >= 6 && body.len() <= VARINT_MAX ==> AnnounceBroadcast::print(
                active,
                version,
            ) == Ok::<Seq<u8>, EncodeError>(
                varint_bytes(0) + (varint_bytes(body.len() as u64) + body),
            )
            &&& version.rank() >= 6 && again.len() <= VARINT_MAX ==> AnnounceBroadcast::print(
                restart,
                version,
            ) == Ok::<Seq<u8>, EncodeError>(
                varint_bytes(2) + (varint_bytes(again.len() as u64) + again),
            )
        }),
{
}

} // verus!
