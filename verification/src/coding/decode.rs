//! Reading values off the front of a buffer.

use vstd::prelude::*;
use vstd::utf8::{decode_utf8, valid_utf8};

use crate::coding::varint::{decode_varint, parse_varint};
use crate::lite::Version;
use crate::model::Duration;

verus! {

/// A decode error.
#[derive(Clone, Copy, Debug, PartialEq, Eq, Structural)]
#[non_exhaustive]
pub enum DecodeError {
    /// The buffer ran out mid-value. Retry once more bytes arrive.
    Short,
    /// The value claims more bytes than the enclosing message allows.
    Long,
    /// A string field was not valid UTF-8.
    InvalidString,
    /// The message type ID is unknown for the negotiated version.
    InvalidMessage(u64),
    /// A SUBSCRIBE start/end location is malformed or out of order.
    InvalidSubscribeLocation,
    /// A field held a value outside its permitted range.
    InvalidValue,
    /// A repeated field exceeded the count this implementation accepts.
    TooMany,
    /// An integer was too large for the QUIC varint range.
    BoundsExceeded,
    /// More data followed where the message was required to end.
    ExpectedEnd,
    /// The stream ended where a payload was required.
    ExpectedData,
    /// A parameter or field appeared more than once.
    Duplicate,
    /// A required parameter or field was absent.
    Missing,
    /// The value is well-formed but this implementation does not handle it.
    Unsupported,
    /// Bytes remained after the value was fully decoded.
    TrailingBytes,
    /// The field does not exist in the negotiated protocol version.
    Version,
}

/// A value that travels on the wire.
pub trait Wire: Sized {
    /// What a value stands for.
    type Model;

    /// What this value stands for.
    spec fn model(&self) -> Self::Model;
}

/// Read a value from the front of a buffer using the given version.
///
/// If [`DecodeError::Short`] is returned, the caller should try again with more data.
pub trait Decode: Wire {
    /// What reading off the front of `bytes` gives, and what it leaves behind.
    spec fn parse(bytes: Seq<u8>, version: Version) -> (Result<Self::Model, DecodeError>, Seq<u8>);

    /// Read a value off the front of `buf`, advancing it.
    fn decode(buf: &mut &[u8], version: Version) -> (r: Result<Self, DecodeError>)
        ensures
            match r {
                Ok(v) => Self::parse(old(buf)@, version).0 == Ok::<Self::Model, DecodeError>(
                    v.model(),
                ),
                Err(e) => Self::parse(old(buf)@, version).0 == Err::<Self::Model, DecodeError>(e),
            },
            final(buf)@ == Self::parse(old(buf)@, version).1,
            tail_of(final(buf)@, old(buf)@),
    ;
}

/// Whether `tail` is what remains of `bytes` after some of them were read.
pub open spec fn tail_of(tail: Seq<u8>, bytes: Seq<u8>) -> bool {
    tail.len() <= bytes.len() && tail == bytes.skip(bytes.len() - tail.len())
}

/// What remains of what remains is what remains.
pub broadcast proof fn tail_of_tail(a: Seq<u8>, b: Seq<u8>, c: Seq<u8>)
    requires
        #[trigger] tail_of(a, b),
        #[trigger] tail_of(b, c),
    ensures
        tail_of(a, c),
{
    assert(a =~= c.skip(c.len() - a.len()));
}

/// Nothing read leaves everything.
pub broadcast proof fn tail_of_self(a: Seq<u8>)
    ensures
        #[trigger] tail_of(a, a),
{
    assert(a.skip(0) =~= a);
}

/// Drop the first `n` bytes of `buf`.
pub(crate) fn advance(buf: &mut &[u8], n: usize)
    requires
        n <= old(buf)@.len(),
    ensures
        final(buf)@ == old(buf)@.skip(n as int),
        tail_of(final(buf)@, old(buf)@),
{
    *buf = &buf[n..buf.len()];
    assert(buf@ =~= old(buf)@.skip(n as int));
}

impl Wire for u8 {
    type Model = u8;

    open spec fn model(&self) -> u8 {
        *self
    }
}

impl Decode for u8 {
    open spec fn parse(bytes: Seq<u8>, version: Version) -> (Result<u8, DecodeError>, Seq<u8>) {
        if bytes.len() == 0 {
            (Err(DecodeError::Short), bytes)
        } else {
            (Ok(bytes[0]), bytes.skip(1))
        }
    }

    fn decode(buf: &mut &[u8], version: Version) -> (r: Result<u8, DecodeError>) {
        broadcast use tail_of_self;

        if buf.len() == 0 {
            return Err(DecodeError::Short);
        }
        let byte: u8 = buf[0];
        advance(buf, 1);
        Ok(byte)
    }
}

impl Wire for u16 {
    type Model = u16;

    open spec fn model(&self) -> u16 {
        *self
    }
}

impl Decode for u16 {
    /// Two bytes, the most significant one first.
    open spec fn parse(bytes: Seq<u8>, version: Version) -> (Result<u16, DecodeError>, Seq<u8>) {
        if bytes.len() < 2 {
            (Err(DecodeError::Short), bytes)
        } else {
            (Ok((bytes[0] * 0x100 + bytes[1]) as u16), bytes.skip(2))
        }
    }

    fn decode(buf: &mut &[u8], version: Version) -> (r: Result<u16, DecodeError>) {
        broadcast use tail_of_self;

        if buf.len() < 2 {
            return Err(DecodeError::Short);
        }
        let value: u16 = buf[0] as u16 * 0x100 + buf[1] as u16;
        advance(buf, 2);
        Ok(value)
    }
}

impl Wire for bool {
    type Model = bool;

    open spec fn model(&self) -> bool {
        *self
    }
}

impl Decode for bool {
    /// One byte, `0` or `1`.
    open spec fn parse(bytes: Seq<u8>, version: Version) -> (Result<bool, DecodeError>, Seq<u8>) {
        match u8::parse(bytes, version) {
            (Ok(0), rest) => (Ok(false), rest),
            (Ok(1), rest) => (Ok(true), rest),
            (Ok(_), rest) => (Err(DecodeError::InvalidValue), rest),
            (Err(e), rest) => (Err(e), rest),
        }
    }

    fn decode(buf: &mut &[u8], version: Version) -> (r: Result<bool, DecodeError>) {
        match u8::decode(buf, version)? {
            0 => Ok(false),
            1 => Ok(true),
            _ => Err(DecodeError::InvalidValue),
        }
    }
}

impl Wire for i8 {
    type Model = i8;

    open spec fn model(&self) -> i8 {
        *self
    }
}

impl Decode for i8 {
    /// One byte, with 128 standing for zero: a default of 0 is more ergonomic for a
    /// priority than a default of 128.
    open spec fn parse(bytes: Seq<u8>, version: Version) -> (Result<i8, DecodeError>, Seq<u8>) {
        if bytes.len() == 0 {
            (Err(DecodeError::Short), bytes)
        } else {
            (Ok((bytes[0] - 128) as i8), bytes.skip(1))
        }
    }

    fn decode(buf: &mut &[u8], version: Version) -> (r: Result<i8, DecodeError>) {
        broadcast use tail_of_self;

        if buf.len() == 0 {
            return Err(DecodeError::Short);
        }
        let value: i8 = (buf[0] as i16 - 128) as i8;
        advance(buf, 1);
        Ok(value)
    }
}

impl Wire for u64 {
    type Model = u64;

    open spec fn model(&self) -> u64 {
        *self
    }
}

impl Decode for u64 {
    /// A varint.
    open spec fn parse(bytes: Seq<u8>, version: Version) -> (Result<u64, DecodeError>, Seq<u8>) {
        parse_varint(bytes)
    }

    fn decode(buf: &mut &[u8], version: Version) -> (r: Result<u64, DecodeError>) {
        decode_varint(buf)
    }
}

impl Wire for usize {
    type Model = usize;

    open spec fn model(&self) -> usize {
        *self
    }
}

impl Decode for usize {
    /// A varint that the platform can count to.
    open spec fn parse(bytes: Seq<u8>, version: Version) -> (Result<usize, DecodeError>, Seq<u8>) {
        match parse_varint(bytes) {
            (Ok(value), rest) => if value <= usize::MAX {
                (Ok(value as usize), rest)
            } else {
                (Err(DecodeError::BoundsExceeded), rest)
            },
            (Err(e), rest) => (Err(e), rest),
        }
    }

    fn decode(buf: &mut &[u8], version: Version) -> (r: Result<usize, DecodeError>) {
        let value: u64 = decode_varint(buf)?;
        if value > usize::MAX as u64 {
            return Err(DecodeError::BoundsExceeded);
        }
        Ok(value as usize)
    }
}

impl Wire for Vec<u8> {
    type Model = Seq<u8>;

    open spec fn model(&self) -> Seq<u8> {
        self@
    }
}

impl Decode for Vec<u8> {
    /// A varint length, then that many bytes.
    open spec fn parse(bytes: Seq<u8>, version: Version) -> (
        Result<Seq<u8>, DecodeError>,
        Seq<u8>,
    ) {
        match usize::parse(bytes, version) {
            (Ok(size), rest) => if rest.len() < size {
                (Err(DecodeError::Short), rest)
            } else {
                (Ok(rest.take(size as int)), rest.skip(size as int))
            },
            (Err(e), rest) => (Err(e), rest),
        }
    }

    fn decode(buf: &mut &[u8], version: Version) -> (r: Result<Vec<u8>, DecodeError>) {
        broadcast use tail_of_tail;

        let size: usize = usize::decode(buf, version)?;
        if buf.len() < size {
            return Err(DecodeError::Short);
        }
        let mut out: Vec<u8> = Vec::new();
        out.extend_from_slice(&buf[0..size]);
        assert(out@ =~= buf@.take(size as int));
        advance(buf, size);
        Ok(out)
    }
}

impl Wire for String {
    type Model = Seq<char>;

    open spec fn model(&self) -> Seq<char> {
        self@
    }
}

/// [`String::from_utf8`]: the text that `bytes` encode, or `None` where they are not
/// valid UTF-8.
#[verifier::external_body]
pub(crate) fn text_of(bytes: Vec<u8>) -> (r: Option<String>)
    ensures
        r is Some <==> valid_utf8(bytes@),
        r matches Some(text) ==> text@ == decode_utf8(bytes@),
{
    String::from_utf8(bytes).ok()
}

impl Decode for String {
    /// A varint length, then that many bytes of UTF-8.
    open spec fn parse(bytes: Seq<u8>, version: Version) -> (
        Result<Seq<char>, DecodeError>,
        Seq<u8>,
    ) {
        match Vec::<u8>::parse(bytes, version) {
            (Ok(text), rest) => if valid_utf8(text) {
                (Ok(decode_utf8(text)), rest)
            } else {
                (Err(DecodeError::InvalidString), rest)
            },
            (Err(e), rest) => (Err(e), rest),
        }
    }

    fn decode(buf: &mut &[u8], version: Version) -> (r: Result<String, DecodeError>) {
        let bytes: Vec<u8> = Vec::<u8>::decode(buf, version)?;
        match text_of(bytes) {
            Some(text) => Ok(text),
            None => Err(DecodeError::InvalidString),
        }
    }
}

impl Wire for Option<u64> {
    type Model = Option<u64>;

    open spec fn model(&self) -> Option<u64> {
        *self
    }
}

impl Decode for Option<u64> {
    /// A varint: zero for `None`, otherwise one more than the value.
    open spec fn parse(bytes: Seq<u8>, version: Version) -> (
        Result<Option<u64>, DecodeError>,
        Seq<u8>,
    ) {
        match parse_varint(bytes) {
            (Ok(0), rest) => (Ok(None), rest),
            (Ok(value), rest) => (Ok(Some((value - 1) as u64)), rest),
            (Err(e), rest) => (Err(e), rest),
        }
    }

    fn decode(buf: &mut &[u8], version: Version) -> (r: Result<Option<u64>, DecodeError>) {
        let value: u64 = decode_varint(buf)?;
        if value == 0 {
            Ok(None)
        } else {
            Ok(Some(value - 1))
        }
    }
}

impl Wire for Duration {
    type Model = Duration;

    open spec fn model(&self) -> Duration {
        *self
    }
}

impl Decode for Duration {
    /// A varint of milliseconds.
    open spec fn parse(bytes: Seq<u8>, version: Version) -> (
        Result<Duration, DecodeError>,
        Seq<u8>,
    ) {
        match parse_varint(bytes) {
            (Ok(millis), rest) => (Ok((Duration { nanos: (millis * 1_000_000) as u128 })), rest),
            (Err(e), rest) => (Err(e), rest),
        }
    }

    fn decode(buf: &mut &[u8], version: Version) -> (r: Result<Duration, DecodeError>) {
        let millis: u64 = decode_varint(buf)?;
        Ok(Duration::from_millis(millis))
    }
}

/// Small values are read as they stand: a byte is itself, two bytes are a number with the higher
/// one first, a signed byte is offset by 128, and a flag is zero or one and nothing else.
pub proof fn small_values_read(a: u8, b: u8, rest: Seq<u8>, version: Version)
    ensures
        u8::parse(seq![a] + rest, version) == (Ok::<u8, DecodeError>(a), rest),
        u16::parse(seq![a, b] + rest, version) == (
            Ok::<u16, DecodeError>((a * 256 + b) as u16),
            rest,
        ),
        i8::parse(seq![a] + rest, version) == (Ok::<i8, DecodeError>((a - 128) as i8), rest),
        bool::parse(seq![a] + rest, version).0 == if a == 0 {
            Ok::<bool, DecodeError>(false)
        } else if a == 1 {
            Ok(true)
        } else {
            Err(DecodeError::InvalidValue)
        },
        u8::parse(Seq::empty(), version).0 == Err::<u8, DecodeError>(DecodeError::Short),
        u16::parse(seq![a], version).0 == Err::<u16, DecodeError>(DecodeError::Short),
        i8::parse(Seq::empty(), version).0 == Err::<i8, DecodeError>(DecodeError::Short),
        bool::parse(Seq::empty(), version).0 == Err::<bool, DecodeError>(DecodeError::Short),
{
    assert((seq![a] + rest).skip(1) =~= rest);
    assert((seq![a, b] + rest).skip(2) =~= rest);
}

} // verus!
