//! The messages of a Track Stream.

use vstd::prelude::*;

use crate::coding::decode::{tail_of_self, tail_of_tail, Decode, DecodeError, Wire};
use crate::coding::encode::{followed_by, whole_millis, Encode, EncodeError, RoundTrip};
use crate::coding::message::Message;
use crate::coding::varint::{parse_varint, VARINT_MAX};
use crate::lite::subscribe::flag;
use crate::lite::Version;
use crate::model::{Duration, Timescale};
use crate::path::Path;

verus! {

broadcast use {tail_of_self, tail_of_tail};

/// Sent by the subscriber on a Track Stream to request a track's immutable
/// publisher properties, without subscribing or fetching.
///
/// Lite05+ only.
#[derive(Debug)]
pub struct Track {
    pub broadcast: Path,
    pub track: String,
}

/// What a [`Track`] stands for.
pub struct TrackModel {
    pub broadcast: Seq<Seq<char>>,
    pub track: Seq<char>,
}

impl Wire for Track {
    type Model = TrackModel;

    open spec fn model(&self) -> TrackModel {
        TrackModel { broadcast: self.broadcast@, track: self.track@ }
    }
}

impl Message for Track {
    open spec fn parse_msg(bytes: Seq<u8>, version: Version) -> (
        Result<TrackModel, DecodeError>,
        Seq<u8>,
    ) {
        if version.rank() < 5 {
            (Err(DecodeError::Version), bytes)
        } else {
            match Path::parse(bytes, version) {
                (Err(e), rest) => (Err(e), rest),
                (Ok(broadcast), rest) => match String::parse(rest, version) {
                    (Err(e), rest) => (Err(e), rest),
                    (Ok(track), rest) => (Ok((TrackModel { broadcast, track })), rest),
                },
            }
        }
    }

    fn decode_msg(buf: &mut &[u8], version: Version) -> (r: Result<Track, DecodeError>) {
        if !version.has_track_stream() {
            return Err(DecodeError::Version);
        }
        let broadcast: Path = Path::decode(buf, version)?;
        let track: String = String::decode(buf, version)?;
        Ok(Track { broadcast, track })
    }

    open spec fn print_msg(model: TrackModel, version: Version) -> Result<Seq<u8>, EncodeError> {
        if version.rank() < 5 {
            Err(EncodeError::Version)
        } else {
            followed_by(
                Path::print(model.broadcast, version),
                String::print(model.track, version),
            )
        }
    }

    fn encode_msg(&self, buf: &mut Vec<u8>, version: Version) -> (r: Result<(), EncodeError>) {
        if !version.has_track_stream() {
            return Err(EncodeError::Version);
        }
        let mut body: Vec<u8> = Vec::new();
        self.broadcast.encode(&mut body, version)?;
        self.track.encode(&mut body, version)?;
        assert(body@ =~= Self::print_msg(self.model(), version)->Ok_0);
        buf.append(&mut body);
        Ok(())
    }

    open spec fn legal_msg(model: TrackModel) -> bool {
        Path::legal(model.broadcast)
    }

    open spec fn carried_msg(model: TrackModel, version: Version) -> TrackModel {
        model
    }

    proof fn msg_round_trip(model: TrackModel, version: Version) {
        let b = String::print(model.track, version)->Ok_0;
        Path::round_trip(model.broadcast, version, b);
        String::round_trip(model.track, version, seq![]);
        assert(b + Seq::<u8>::empty() =~= b);
    }
}

/// The publisher's sole reply on a Track Stream, carrying the track's immutable
/// properties. Every field is fixed for the lifetime of the track, so a subscriber
/// fetches this once and reuses it across every SUBSCRIBE and FETCH.
///
/// Lite05+ only.
#[derive(Clone, Copy, Debug, PartialEq, Eq, Structural)]
pub struct TrackInfo {
    /// The publisher's tie-break priority for this track.
    pub priority: u8,
    /// The publisher's group ordering preference (newest-first when `false`).
    pub ordered: bool,
    /// Publisher Max Latency: an upper bound on how long the publisher caches a
    /// non-latest group past the arrival of a newer one. Encoded as milliseconds.
    pub cache: Duration,
    /// Per-frame timestamp scale (units per second). Mandatory on Lite05+: every track
    /// is timed, so this is always a real scale on the wire (never zero).
    pub timescale: Timescale,
}

impl Wire for TrackInfo {
    type Model = TrackInfo;

    open spec fn model(&self) -> TrackInfo {
        *self
    }
}

impl Message for TrackInfo {
    open spec fn parse_msg(bytes: Seq<u8>, version: Version) -> (
        Result<TrackInfo, DecodeError>,
        Seq<u8>,
    ) {
        if version.rank() < 5 {
            (Err(DecodeError::Version), bytes)
        } else {
            match u8::parse(bytes, version) {
                (Err(e), rest) => (Err(e), rest),
                (Ok(priority), rest) => match u8::parse(rest, version) {
                    (Err(e), rest) => (Err(e), rest),
                    (Ok(ordered), rest) => match Duration::parse(rest, version) {
                        (Err(e), rest) => (Err(e), rest),
                        (Ok(cache), rest) => match parse_varint(rest) {
                            (Err(e), rest) => (Err(e), rest),
                            (Ok(units), rest) => if 0 < units <= VARINT_MAX {
                                (
                                    Ok(
                                        (TrackInfo {
                                            priority,
                                            ordered: ordered != 0,
                                            cache,
                                            timescale: Timescale::of(units),
                                        }),
                                    ),
                                    rest,
                                )
                            } else {
                                (Err(DecodeError::InvalidValue), rest)
                            },
                        },
                    },
                },
            }
        }
    }

    fn decode_msg(buf: &mut &[u8], version: Version) -> (r: Result<TrackInfo, DecodeError>) {
        if !version.has_track_stream() {
            return Err(DecodeError::Version);
        }
        let priority: u8 = u8::decode(buf, version)?;
        let ordered: u8 = u8::decode(buf, version)?;
        let cache: Duration = Duration::decode(buf, version)?;
        let units: u64 = u64::decode(buf, version)?;
        match Timescale::new(units) {
            Ok(timescale) => Ok(TrackInfo { priority, ordered: ordered != 0, cache, timescale }),
            Err(_) => Err(DecodeError::InvalidValue),
        }
    }

    open spec fn print_msg(model: TrackInfo, version: Version) -> Result<Seq<u8>, EncodeError> {
        if version.rank() < 5 {
            Err(EncodeError::Version)
        } else {
            followed_by(
                u8::print(model.priority, version),
                followed_by(
                    u8::print(flag(model.ordered), version),
                    followed_by(
                        Duration::print(model.cache, version),
                        u64::print(model.timescale.as_u64(), version),
                    ),
                ),
            )
        }
    }

    fn encode_msg(&self, buf: &mut Vec<u8>, version: Version) -> (r: Result<(), EncodeError>) {
        if !version.has_track_stream() {
            return Err(EncodeError::Version);
        }
        let mut body: Vec<u8> = Vec::new();
        let ordered: u8 = if self.ordered {
            1
        } else {
            0
        };
        self.priority.encode(&mut body, version)?;
        ordered.encode(&mut body, version)?;
        self.cache.encode(&mut body, version)?;
        self.timescale.as_u64().encode(&mut body, version)?;
        assert(body@ =~= Self::print_msg(self.model(), version)->Ok_0);
        buf.append(&mut body);
        Ok(())
    }

    /// Every timescale is positive.
    open spec fn legal_msg(model: TrackInfo) -> bool {
        model.timescale.as_u64() != 0
    }

    open spec fn carried_msg(model: TrackInfo, version: Version) -> TrackInfo {
        TrackInfo { cache: whole_millis(model.cache), ..model }
    }

    #[verifier::rlimit(40)]
    proof fn msg_round_trip(model: TrackInfo, version: Version) {
        let b = u8::print(flag(model.ordered), version)->Ok_0;
        let c = Duration::print(model.cache, version)->Ok_0;
        let d = u64::print(model.timescale.as_u64(), version)->Ok_0;
        u8::round_trip(model.priority, version, b + (c + d));
        u8::round_trip(flag(model.ordered), version, c + d);
        Duration::round_trip(model.cache, version, d);
        u64::round_trip(model.timescale.as_u64(), version, seq![]);
        assert(d + Seq::<u8>::empty() =~= d);
        model.timescale.units_of();
    }
}

} // verus!
