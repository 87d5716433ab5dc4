//! The body of a QUIC datagram.
//!
//! One datagram carries a single-frame group routed over an existing subscription. The
//! body is `subscribe (i) | sequence (i) | timestamp (i) | payload (b)`; the payload runs
//! to the datagram boundary, so unlike a message there is no inner length prefix.

use vstd::prelude::*;

use crate::coding::decode::{advance, tail_of_self, tail_of_tail, Decode, DecodeError, Wire};
use crate::coding::encode::{followed_by, Encode, EncodeError, RoundTrip};
use crate::lite::Version;

verus! {

broadcast use {tail_of_self, tail_of_tail};

/// A decoded QUIC datagram body.
#[derive(Debug, PartialEq, Eq)]
pub struct Datagram {
    /// Subscribe ID this datagram is delivered on.
    pub subscribe: u64,
    /// Group sequence number (shared with the track's group namespace).
    pub sequence: u64,
    /// Absolute presentation timestamp, in the track's negotiated timescale.
    pub timestamp: u64,
    /// The frame payload, delimited by the datagram boundary.
    pub payload: Vec<u8>,
}

/// What a [`Datagram`] stands for.
pub struct DatagramModel {
    pub subscribe: u64,
    pub sequence: u64,
    pub timestamp: u64,
    pub payload: Seq<u8>,
}

impl Wire for Datagram {
    type Model = DatagramModel;

    open spec fn model(&self) -> DatagramModel {
        DatagramModel {
            subscribe: self.subscribe,
            sequence: self.sequence,
            timestamp: self.timestamp,
            payload: self.payload@,
        }
    }
}

impl Encode for Datagram {
    open spec fn print(model: DatagramModel, version: Version) -> Result<Seq<u8>, EncodeError> {
        if version.rank() < 5 {
            Err(EncodeError::Version)
        } else {
            followed_by(
                u64::print(model.subscribe, version),
                followed_by(
                    u64::print(model.sequence, version),
                    followed_by(u64::print(model.timestamp, version), Ok(model.payload)),
                ),
            )
        }
    }

    fn encode(&self, buf: &mut Vec<u8>, version: Version) -> (r: Result<(), EncodeError>) {
        if !version.has_datagrams() {
            return Err(EncodeError::Version);
        }
        let mut body: Vec<u8> = Vec::new();
        self.subscribe.encode(&mut body, version)?;
        self.sequence.encode(&mut body, version)?;
        self.timestamp.encode(&mut body, version)?;
        body.extend_from_slice(self.payload.as_slice());
        assert(body@ =~= Self::print(self.model(), version)->Ok_0);
        buf.append(&mut body);
        Ok(())
    }
}

impl Decode for Datagram {
    /// The payload is everything that remains.
    open spec fn parse(bytes: Seq<u8>, version: Version) -> (
        Result<DatagramModel, DecodeError>,
        Seq<u8>,
    ) {
        if version.rank() < 5 {
            (Err(DecodeError::Version), bytes)
        } else {
            match u64::parse(bytes, version) {
                (Err(e), rest) => (Err(e), rest),
                (Ok(subscribe), rest) => match u64::parse(rest, version) {
                    (Err(e), rest) => (Err(e), rest),
                    (Ok(sequence), rest) => match u64::parse(rest, version) {
                        (Err(e), rest) => (Err(e), rest),
                        (Ok(timestamp), rest) => (
                            Ok((DatagramModel { subscribe, sequence, timestamp, payload: rest })),
                            seq![],
                        ),
                    },
                },
            }
        }
    }

    fn decode(buf: &mut &[u8], version: Version) -> (r: Result<Datagram, DecodeError>) {
        if !version.has_datagrams() {
            return Err(DecodeError::Version);
        }
        let subscribe: u64 = u64::decode(buf, version)?;
        let sequence: u64 = u64::decode(buf, version)?;
        let timestamp: u64 = u64::decode(buf, version)?;
        let mut payload: Vec<u8> = Vec::new();
        payload.extend_from_slice(*buf);
        assert(payload@ =~= buf@);
        let len: usize = buf.len();
        advance(buf, len);
        assert(buf@ =~= seq![]);
        Ok(Datagram { subscribe, sequence, timestamp, payload })
    }
}

impl Datagram {
    /// The encoded body.
    pub fn encode_bytes(&self, version: Version) -> (r: Result<Vec<u8>, EncodeError>)
        ensures
            match Self::print(self.model(), version) {
                Ok(bytes) => r is Ok && r->Ok_0@ == bytes,
                Err(e) => r == Err::<Vec<u8>, EncodeError>(e),
            },
    {
        let mut buf: Vec<u8> = Vec::new();
        self.encode(&mut buf, version)?;
        assert(buf@ =~= Self::print(self.model(), version)->Ok_0);
        Ok(buf)
    }
}

/// Reading back a written datagram gives it, and uses all of it.
#[verifier::rlimit(40)]
pub proof fn datagram_round_trip(model: DatagramModel, version: Version)
    requires
        Datagram::print(model, version) is Ok,
        Datagram::print(model, version)->Ok_0.len() <= usize::MAX,
    ensures
        Datagram::parse(Datagram::print(model, version)->Ok_0, version) == (
            Ok::<DatagramModel, DecodeError>(model),
            Seq::<u8>::empty(),
        ),
{
    let b = u64::print(model.sequence, version)->Ok_0;
    let c = u64::print(model.timestamp, version)->Ok_0;
    u64::round_trip(model.subscribe, version, b + (c + model.payload));
    u64::round_trip(model.sequence, version, c + model.payload);
    u64::round_trip(model.timestamp, version, model.payload);
}

/// Datagrams exist from lite-05 on. What is sent begins with the subscription, and ends with the
/// payload as it is.
pub proof fn datagrams_need_the_version(model: DatagramModel, version: Version, bytes: Seq<u8>)
    ensures
        version.rank() < 5 ==> Datagram::print(model, version) == Err::<Seq<u8>, EncodeError>(
            EncodeError::Version,
        ),
        version.rank() < 5 ==> Datagram::parse(bytes, version).0 == Err::<
            DatagramModel,
            DecodeError,
        >(DecodeError::Version),
        Datagram::print(model, version) matches Ok(body) ==> body.len() >= model.payload.len()
            && body.skip(body.len() - model.payload.len()) == model.payload,
{
    if let Ok(body) = Datagram::print(model, version) {
        assert(body.skip(body.len() - model.payload.len()) =~= model.payload);
    }
}

} // verus!
