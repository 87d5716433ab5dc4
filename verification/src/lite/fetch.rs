//! The request of a Fetch Stream.

use vstd::prelude::*;

use crate::coding::decode::{tail_of_self, tail_of_tail, Decode, DecodeError, Wire};
use crate::coding::encode::{followed_by, Encode, EncodeError, RoundTrip};
use crate::coding::message::Message;
use crate::lite::Version;
use crate::path::Path;

verus! {

broadcast use {tail_of_self, tail_of_tail};

/// Sent by the subscriber to fetch a specific group from a track.
///
/// Lite03+ only.
#[derive(Debug)]
pub struct Fetch {
    pub broadcast: Path,
    pub track: String,
    pub priority: u8,
    pub group: u64,
}

/// What a [`Fetch`] stands for.
pub struct FetchModel {
    pub broadcast: Seq<Seq<char>>,
    pub track: Seq<char>,
    pub priority: u8,
    pub group: u64,
}

impl Wire for Fetch {
    type Model = FetchModel;

    open spec fn model(&self) -> FetchModel {
        FetchModel {
            broadcast: self.broadcast@,
            track: self.track@,
            priority: self.priority,
            group: self.group,
        }
    }
}

impl Message for Fetch {
    open spec fn parse_msg(bytes: Seq<u8>, version: Version) -> (
        Result<FetchModel, DecodeError>,
        Seq<u8>,
    ) {
        if version.rank() < 3 {
            (Err(DecodeError::Version), bytes)
        } else {
            match Path::parse(bytes, version) {
                (Err(e), rest) => (Err(e), rest),
                (Ok(broadcast), rest) => match String::parse(rest, version) {
                    (Err(e), rest) => (Err(e), rest),
                    (Ok(track), rest) => match u8::parse(rest, version) {
                        (Err(e), rest) => (Err(e), rest),
                        (Ok(priority), rest) => match u64::parse(rest, version) {
                            (Err(e), rest) => (Err(e), rest),
                            (Ok(group), rest) => (
                                Ok((FetchModel { broadcast, track, priority, group })),
                                rest,
                            ),
                        },
                    },
                },
            }
        }
    }

    fn decode_msg(buf: &mut &[u8], version: Version) -> (r: Result<Fetch, DecodeError>) {
        match version {
            Version::Lite01 | Version::Lite02 => {
                return Err(DecodeError::Version);
            },
            _ => {},
        }
        let broadcast: Path = Path::decode(buf, version)?;
        let track: String = String::decode(buf, version)?;
        let priority: u8 = u8::decode(buf, version)?;
        let group: u64 = u64::decode(buf, version)?;
        Ok(Fetch { broadcast, track, priority, group })
    }

    open spec fn print_msg(model: FetchModel, version: Version) -> Result<Seq<u8>, EncodeError> {
        if version.rank() < 3 {
            Err(EncodeError::Version)
        } else {
            followed_by(
                Path::print(model.broadcast, version),
                followed_by(
                    String::print(model.track, version),
                    followed_by(
                        u8::print(model.priority, version),
                        u64::print(model.group, version),
                    ),
                ),
            )
        }
    }

    fn encode_msg(&self, buf: &mut Vec<u8>, version: Version) -> (r: Result<(), EncodeError>) {
        match version {
            Version::Lite01 | Version::Lite02 => {
                return Err(EncodeError::Version);
            },
            _ => {},
        }
        let mut body: Vec<u8> = Vec::new();
        self.broadcast.encode(&mut body, version)?;
        self.track.encode(&mut body, version)?;
        self.priority.encode(&mut body, version)?;
        self.group.encode(&mut body, version)?;
        assert(body@ =~= Self::print_msg(self.model(), version)->Ok_0);
        buf.append(&mut body);
        Ok(())
    }

    open spec fn legal_msg(model: FetchModel) -> bool {
        Path::legal(model.broadcast)
    }

    open spec fn carried_msg(model: FetchModel, version: Version) -> FetchModel {
        model
    }

    #[verifier::rlimit(40)]
    proof fn msg_round_trip(model: FetchModel, version: Version) {
        let b = String::print(model.track, version)->Ok_0;
        let c = u8::print(model.priority, version)->Ok_0;
        let d = u64::print(model.group, version)->Ok_0;
        Path::round_trip(model.broadcast, version, b + (c + d));
        String::round_trip(model.track, version, c + d);
        u8::round_trip(model.priority, version, d);
        u64::round_trip(model.group, version, seq![]);
        assert(d + Seq::<u8>::empty() =~= d);
    }
}

} // verus!
