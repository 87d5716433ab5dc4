//! Appending values to a buffer.

use vstd::prelude::*;
use vstd::utf8::{encode_utf8, encode_utf8_decode_utf8, encode_utf8_valid_utf8};

use crate::coding::decode::{Decode, DecodeError, Wire};
use crate::coding::varint::{encode_varint, varint_bytes, varint_round_trip, VARINT_MAX};
use crate::lite::Version;
use crate::model::Duration;

verus! {

/// An encode error.
#[derive(Clone, Copy, Debug, PartialEq, Eq, Structural)]
#[non_exhaustive]
pub enum EncodeError {
    /// The buffer has no room for the value.
    Short,
    /// An integer was too large for the QUIC varint range.
    BoundsExceeded,
    /// A field exceeds what its encoding can carry.
    TooLarge,
    /// A repeated field exceeded the count the wire accepts.
    TooMany,
    /// The message does not exist in the negotiated protocol version.
    Version,
}

/// Append a value to a buffer using the given version.
pub trait Encode: Wire {
    /// The bytes that stand for `model`, or why there are none.
    spec fn print(model: Self::Model, version: Version) -> Result<Seq<u8>, EncodeError>;

    /// Append the value to `buf`, which stays as it is on an error.
    fn encode(&self, buf: &mut Vec<u8>, version: Version) -> (r: Result<(), EncodeError>)
        ensures
            match Self::print(self.model(), version) {
                Ok(bytes) => r is Ok && final(buf)@ == old(buf)@ + bytes,
                Err(e) => r == Err::<(), EncodeError>(e) && final(buf)@ == old(buf)@,
            },
    ;
}

/// The concatenation of two encodings, where both exist.
pub open spec fn followed_by(
    first: Result<Seq<u8>, EncodeError>,
    second: Result<Seq<u8>, EncodeError>,
) -> Result<Seq<u8>, EncodeError> {
    match first {
        Err(e) => Err(e),
        Ok(a) => match second {
            Err(e) => Err(e),
            Ok(b) => Ok(a + b),
        },
    }
}

/// A value that can be read back from what was written for it.
pub trait RoundTrip: Decode + Encode {
    /// Whether `model` is one that the reader takes back.
    spec fn legal(model: Self::Model) -> bool;

    /// What is left of `model` after a trip over the wire: some versions and some
    /// encodings carry less than the value holds.
    spec fn carried(model: Self::Model, version: Version) -> Self::Model;

    /// Reading back what was written gives what the wire carries, and leaves what
    /// follows it.
    proof fn round_trip(model: Self::Model, version: Version, rest: Seq<u8>)
        requires
            Self::legal(model),
            Self::print(model, version) is Ok,
            Self::print(model, version)->Ok_0.len() <= usize::MAX,
        ensures
            Self::parse(Self::print(model, version)->Ok_0 + rest, version) == (
                Ok::<Self::Model, DecodeError>(Self::carried(model, version)),
                rest,
            ),
    ;
}

/// The varint encoding of `value`, where there is one.
pub open spec fn print_varint(value: int) -> Result<Seq<u8>, EncodeError> {
    if value <= VARINT_MAX {
        Ok(varint_bytes(value as u64))
    } else {
        Err(EncodeError::BoundsExceeded)
    }
}

impl Encode for u8 {
    open spec fn print(model: u8, version: Version) -> Result<Seq<u8>, EncodeError> {
        Ok(seq![model])
    }

    fn encode(&self, buf: &mut Vec<u8>, version: Version) -> (r: Result<(), EncodeError>) {
        buf.push(*self);
        assert(buf@ =~= old(buf)@ + seq![*self]);
        Ok(())
    }
}

impl RoundTrip for u8 {
    open spec fn legal(model: u8) -> bool {
        true
    }

    open spec fn carried(model: u8, version: Version) -> u8 {
        model
    }

    proof fn round_trip(model: u8, version: Version, rest: Seq<u8>) {
        assert((seq![model] + rest).skip(1) =~= rest);
    }
}

impl Encode for u64 {
    /// A varint.
    open spec fn print(model: u64, version: Version) -> Result<Seq<u8>, EncodeError> {
        print_varint(model as int)
    }

    fn encode(&self, buf: &mut Vec<u8>, version: Version) -> (r: Result<(), EncodeError>) {
        match encode_varint(*self, buf) {
            Ok(()) => Ok(()),
            Err(_) => Err(EncodeError::BoundsExceeded),
        }
    }
}

impl RoundTrip for u64 {
    open spec fn legal(model: u64) -> bool {
        true
    }

    open spec fn carried(model: u64, version: Version) -> u64 {
        model
    }

    proof fn round_trip(model: u64, version: Version, rest: Seq<u8>) {
        varint_round_trip(model, rest);
    }
}

impl Encode for usize {
    /// A varint.
    open spec fn print(model: usize, version: Version) -> Result<Seq<u8>, EncodeError> {
        print_varint(model as int)
    }

    fn encode(&self, buf: &mut Vec<u8>, version: Version) -> (r: Result<(), EncodeError>) {
        (*self as u64).encode(buf, version)
    }
}

impl RoundTrip for usize {
    open spec fn legal(model: usize) -> bool {
        true
    }

    open spec fn carried(model: usize, version: Version) -> usize {
        model
    }

    proof fn round_trip(model: usize, version: Version, rest: Seq<u8>) {
        varint_round_trip(model as u64, rest);
    }
}

impl Encode for Vec<u8> {
    /// A varint length, then the bytes.
    open spec fn print(model: Seq<u8>, version: Version) -> Result<Seq<u8>, EncodeError> {
        followed_by(print_varint(model.len() as int), Ok(model))
    }

    fn encode(&self, buf: &mut Vec<u8>, version: Version) -> (r: Result<(), EncodeError>) {
        self.len().encode(buf, version)?;
        buf.extend_from_slice(self.as_slice());
        assert(buf@ =~= old(buf)@ + (varint_bytes(self.len() as u64) + self@));
        Ok(())
    }
}

impl RoundTrip for Vec<u8> {
    open spec fn legal(model: Seq<u8>) -> bool {
        true
    }

    open spec fn carried(model: Seq<u8>, version: Version) -> Seq<u8> {
        model
    }

    proof fn round_trip(model: Seq<u8>, version: Version, rest: Seq<u8>) {
        let size = varint_bytes(model.len() as u64);
        varint_round_trip(model.len() as u64, model + rest);
        assert((size + model) + rest =~= size + (model + rest));
        assert((model + rest).take(model.len() as int) =~= model);
        assert((model + rest).skip(model.len() as int) =~= rest);
    }
}

impl Encode for String {
    /// A varint length, then the UTF-8 bytes of the text.
    open spec fn print(model: Seq<char>, version: Version) -> Result<Seq<u8>, EncodeError> {
        Vec::<u8>::print(encode_utf8(model), version)
    }

    fn encode(&self, buf: &mut Vec<u8>, version: Version) -> (r: Result<(), EncodeError>) {
        let bytes: &[u8] = self.as_str().as_bytes();
        bytes.len().encode(buf, version)?;
        buf.extend_from_slice(bytes);
        assert(buf@ =~= old(buf)@ + (varint_bytes(bytes@.len() as u64) + bytes@));
        Ok(())
    }
}

impl RoundTrip for String {
    open spec fn legal(model: Seq<char>) -> bool {
        true
    }

    open spec fn carried(model: Seq<char>, version: Version) -> Seq<char> {
        model
    }

    proof fn round_trip(model: Seq<char>, version: Version, rest: Seq<u8>) {
        encode_utf8_valid_utf8(model);
        encode_utf8_decode_utf8(model);
        Vec::<u8>::round_trip(encode_utf8(model), version, rest);
    }
}

impl Encode for Option<u64> {
    /// A varint: zero for `None`, otherwise one more than the value.
    open spec fn print(model: Option<u64>, version: Version) -> Result<Seq<u8>, EncodeError> {
        match model {
            None => print_varint(0),
            Some(value) => if value == u64::MAX {
                Err(EncodeError::TooLarge)
            } else {
                print_varint(value + 1)
            },
        }
    }

    fn encode(&self, buf: &mut Vec<u8>, version: Version) -> (r: Result<(), EncodeError>) {
        match *self {
            None => 0u64.encode(buf, version),
            Some(value) => match value.checked_add(1) {
                Some(value) => value.encode(buf, version),
                None => Err(EncodeError::TooLarge),
            },
        }
    }
}

impl RoundTrip for Option<u64> {
    open spec fn legal(model: Option<u64>) -> bool {
        true
    }

    open spec fn carried(model: Option<u64>, version: Version) -> Option<u64> {
        model
    }

    proof fn round_trip(model: Option<u64>, version: Version, rest: Seq<u8>) {
        match model {
            None => varint_round_trip(0, rest),
            Some(value) => varint_round_trip((value + 1) as u64, rest),
        }
    }
}

impl Encode for Duration {
    /// A varint of milliseconds.
    open spec fn print(model: Duration, version: Version) -> Result<Seq<u8>, EncodeError> {
        if model.nanos / 1_000_000 > u64::MAX {
            Err(EncodeError::TooLarge)
        } else {
            print_varint((model.nanos / 1_000_000) as int)
        }
    }

    fn encode(&self, buf: &mut Vec<u8>, version: Version) -> (r: Result<(), EncodeError>) {
        let millis: u128 = self.as_millis();
        if millis > u64::MAX as u128 {
            return Err(EncodeError::TooLarge);
        }
        (millis as u64).encode(buf, version)
    }
}

/// The whole milliseconds of `model`.
pub open spec fn whole_millis(model: Duration) -> Duration {
    Duration { nanos: (model.nanos / 1_000_000 * 1_000_000) as u128 }
}

impl RoundTrip for Duration {
    open spec fn legal(model: Duration) -> bool {
        true
    }

    open spec fn carried(model: Duration, version: Version) -> Duration {
        whole_millis(model)
    }

    proof fn round_trip(model: Duration, version: Version, rest: Seq<u8>) {
        varint_round_trip((model.nanos / 1_000_000) as u64, rest);
    }
}

} // verus!
