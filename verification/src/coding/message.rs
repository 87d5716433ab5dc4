//! Size-prefixed messages.

use vstd::prelude::*;

use crate::coding::decode::{advance, tail_of, tail_of_tail, Decode, DecodeError, Wire};
use crate::coding::encode::{followed_by, print_varint, Encode, EncodeError, RoundTrip};
use crate::coding::varint::{varint_bytes, varint_round_trip};
use crate::lite::Version;

verus! {

/// A message whose body is prefixed with its size.
pub trait Message: Wire {
    /// What reading a body gives, and what it leaves behind.
    spec fn parse_msg(bytes: Seq<u8>, version: Version) -> (
        Result<Self::Model, DecodeError>,
        Seq<u8>,
    );

    /// Read a body, without its size.
    fn decode_msg(buf: &mut &[u8], version: Version) -> (r: Result<Self, DecodeError>)
        ensures
            match r {
                Ok(v) => Self::parse_msg(old(buf)@, version).0 == Ok::<Self::Model, DecodeError>(
                    v.model(),
                ),
                Err(e) => Self::parse_msg(old(buf)@, version).0 == Err::<Self::Model, DecodeError>(
                    e,
                ),
            },
            final(buf)@ == Self::parse_msg(old(buf)@, version).1,
            tail_of(final(buf)@, old(buf)@),
    ;

    /// The body that stands for `model`, or why there is none.
    spec fn print_msg(model: Self::Model, version: Version) -> Result<Seq<u8>, EncodeError>;

    /// Append the body, without its size. The buffer stays as it is on an error.
    fn encode_msg(&self, buf: &mut Vec<u8>, version: Version) -> (r: Result<(), EncodeError>)
        ensures
            match Self::print_msg(self.model(), version) {
                Ok(bytes) => r is Ok && final(buf)@ == old(buf)@ + bytes,
                Err(e) => r == Err::<(), EncodeError>(e) && final(buf)@ == old(buf)@,
            },
    ;

    /// Whether `model` is one that the reader takes back.
    spec fn legal_msg(model: Self::Model) -> bool;

    /// What is left of `model` after a trip over the wire.
    spec fn carried_msg(model: Self::Model, version: Version) -> Self::Model;

    /// Reading back a written body gives what the wire carries, and uses all of it.
    proof fn msg_round_trip(model: Self::Model, version: Version)
        requires
            Self::legal_msg(model),
            Self::print_msg(model, version) is Ok,
            Self::print_msg(model, version)->Ok_0.len() <= usize::MAX,
        ensures
            Self::parse_msg(Self::print_msg(model, version)->Ok_0, version) == (
                Ok::<Self::Model, DecodeError>(Self::carried_msg(model, version)),
                Seq::<u8>::empty(),
            ),
    ;
}

/// Confining a read to the first `size` bytes: it must use all of them. On an error,
/// what it had not read yet stays in front of what follows.
pub open spec fn confined<M>(
    bytes: Seq<u8>,
    size: int,
    inner: (Result<M, DecodeError>, Seq<u8>),
) -> (Result<M, DecodeError>, Seq<u8>) {
    match inner.0 {
        Err(e) => (Err(e), inner.1 + bytes.skip(size)),
        Ok(model) => if inner.1.len() > 0 {
            (Err(DecodeError::Long), inner.1 + bytes.skip(size))
        } else {
            (Ok(model), bytes.skip(size))
        },
    }
}

/// Put back what a read confined to the first `size` bytes of `buf` left behind.
pub(crate) fn leave(buf: &mut &[u8], size: usize, left: &[u8])
    requires
        size <= old(buf)@.len(),
        tail_of(left@, old(buf)@.take(size as int)),
    ensures
        final(buf)@ == left@ + old(buf)@.skip(size as int),
        tail_of(final(buf)@, old(buf)@),
{
    advance(buf, size - left.len());
    assert(buf@ =~= left@ + old(buf)@.skip(size as int));
}

impl<T: Message> Decode for T {
    open spec fn parse(bytes: Seq<u8>, version: Version) -> (
        Result<T::Model, DecodeError>,
        Seq<u8>,
    ) {
        match usize::parse(bytes, version) {
            (Err(e), rest) => (Err(e), rest),
            (Ok(size), rest) => if rest.len() < size {
                (Err(DecodeError::Short), rest)
            } else {
                confined(rest, size as int, T::parse_msg(rest.take(size as int), version))
            },
        }
    }

    fn decode(buf: &mut &[u8], version: Version) -> (r: Result<T, DecodeError>) {
        broadcast use tail_of_tail;

        let size: usize = usize::decode(buf, version)?;
        if buf.len() < size {
            return Err(DecodeError::Short);
        }
        let mut body: &[u8] = &buf[0..size];
        assert(body@ =~= buf@.take(size as int));
        match T::decode_msg(&mut body, version) {
            Err(e) => {
                leave(buf, size, body);
                Err(e)
            },
            Ok(msg) => {
                if body.len() > 0 {
                    leave(buf, size, body);
                    return Err(DecodeError::Long);
                }
                advance(buf, size);
                Ok(msg)
            },
        }
    }
}

impl<T: Message> Encode for T {
    open spec fn print(model: T::Model, version: Version) -> Result<Seq<u8>, EncodeError> {
        match T::print_msg(model, version) {
            Err(e) => Err(e),
            Ok(body) => followed_by(print_varint(body.len() as int), Ok(body)),
        }
    }

    fn encode(&self, buf: &mut Vec<u8>, version: Version) -> (r: Result<(), EncodeError>) {
        let mut body: Vec<u8> = Vec::new();
        self.encode_msg(&mut body, version)?;
        assert(body@ =~= T::print_msg(self.model(), version)->Ok_0);
        body.len().encode(buf, version)?;
        buf.extend_from_slice(body.as_slice());
        assert(buf@ =~= old(buf)@ + (varint_bytes(body.len() as u64) + body@));
        Ok(())
    }
}

impl<T: Message> RoundTrip for T {
    open spec fn legal(model: T::Model) -> bool {
        T::legal_msg(model)
    }

    open spec fn carried(model: T::Model, version: Version) -> T::Model {
        T::carried_msg(model, version)
    }

    proof fn round_trip(model: T::Model, version: Version, rest: Seq<u8>) {
        let body = T::print_msg(model, version)->Ok_0;
        let size = varint_bytes(body.len() as u64);
        T::msg_round_trip(model, version);
        varint_round_trip(body.len() as u64, body + rest);
        assert((size + body) + rest =~= size + (body + rest));
        assert((body + rest).take(body.len() as int) =~= body);
        assert((body + rest).skip(body.len() as int) =~= rest);
    }
}

} // verus!
