//! What can go wrong in a session.

use vstd::prelude::*;

use crate::coding::{BoundsExceeded, DecodeError, EncodeError};

verus! {

/// A list of possible errors that can occur during the session.
#[derive(Debug, PartialEq, Eq)]
#[non_exhaustive]
pub enum Error {
    /// The underlying QUIC/WebTransport connection failed; carries the backend's message.
    Transport(String),
    /// A message off the wire could not be parsed.
    Decode(DecodeError),
    /// Version negotiation failed, or the negotiated version lacks a requested feature
    /// (e.g. a FETCH against a version without fetch support).
    Version,
    /// A required extension was not present
    RequiredExtension,
    /// An unexpected stream type was received
    UnexpectedStream,
    /// An integer was too large for the QUIC varint range.
    BoundsExceeded(BoundsExceeded),
    /// A duplicate ID was used: the broadcast/track is a duplicate.
    Duplicate,
    /// Nobody is reading any more, so the producer stopped. Not a failure.
    Cancel,
    /// It took too long to open or transmit a stream.
    Timeout,
    /// The group is older than the latest group and dropped.
    Old,
    /// An application-chosen close code. Bounded to `u16` and offset past the library's
    /// reserved range (`+ 64`) on the wire by [`Self::to_code`], so app codes never
    /// collide with protocol ones.
    App(u16),
    /// The requested broadcast or track does not exist at the peer.
    NotFound,
    /// A broadcast was requested that is neither announced nor served by a dynamic
    /// router, so there is no route to it.
    Unroutable,
    /// A frame's payload length disagreed with its declared size.
    WrongSize,
    /// The peer broke a protocol rule; the session is unusable.
    ProtocolViolation,
    /// The peer's token does not grant the requested path or operation.
    Unauthorized,
    /// A valid message arrived in a state where it is not allowed.
    UnexpectedMessage,
    /// The peer asked for a feature this endpoint does not implement.
    Unsupported,
    /// A message could not be serialized for the negotiated version.
    Encode(EncodeError),
    /// A message carried more parameters than this endpoint accepts.
    TooManyParameters,
    /// The peer acted against the role it advertised at SETUP.
    InvalidRole,
    /// The peer offered an ALPN this endpoint doesn't recognize, so no version could be
    /// negotiated. A connect-time error.
    UnknownAlpn(String),
    /// The producer was dropped without finishing, so the content is incomplete.
    Dropped,
    /// The handle was already closed by this side.
    Closed,
    /// The reader fell behind the group's byte budget: the frame it wanted was dropped
    /// to keep the group under its size limit. Named from the consumer's side (nothing is
    /// "full"); distinct from [`Self::Evicted`], which drops a whole group under the
    /// pool's memory pressure.
    Lagged,
    /// A frame declared a payload size larger than the receiver accepts.
    FrameTooLarge,
    /// A compressed payload could not be decompressed.
    Decompress,
    /// A frame's timestamp doesn't match its track's negotiated timescale: it's
    /// missing on a timed track, present on an untimed track, or carries a
    /// different scale than the track advertised.
    TimestampMismatch,
    /// The group was evicted from the cache under memory pressure. Unlike [`Self::Old`],
    /// the group was still within the publisher's window; it can be re-fetched.
    Evicted,
    /// A remote error received via a stream/session reset code.
    Remote(u32),
}

impl Clone for Error {
    fn clone(&self) -> (r: Error)
        ensures
            r == *self,
    {
        match self {
            Error::Transport(message) => Error::Transport(message.clone()),
            Error::Decode(err) => Error::Decode(*err),
            Error::Version => Error::Version,
            Error::RequiredExtension => Error::RequiredExtension,
            Error::UnexpectedStream => Error::UnexpectedStream,
            Error::BoundsExceeded(err) => Error::BoundsExceeded(*err),
            Error::Duplicate => Error::Duplicate,
            Error::Cancel => Error::Cancel,
            Error::Timeout => Error::Timeout,
            Error::Old => Error::Old,
            Error::App(code) => Error::App(*code),
            Error::NotFound => Error::NotFound,
            Error::Unroutable => Error::Unroutable,
            Error::WrongSize => Error::WrongSize,
            Error::ProtocolViolation => Error::ProtocolViolation,
            Error::Unauthorized => Error::Unauthorized,
            Error::UnexpectedMessage => Error::UnexpectedMessage,
            Error::Unsupported => Error::Unsupported,
            Error::Encode(err) => Error::Encode(*err),
            Error::TooManyParameters => Error::TooManyParameters,
            Error::InvalidRole => Error::InvalidRole,
            Error::UnknownAlpn(alpn) => Error::UnknownAlpn(alpn.clone()),
            Error::Dropped => Error::Dropped,
            Error::Closed => Error::Closed,
            Error::Lagged => Error::Lagged,
            Error::FrameTooLarge => Error::FrameTooLarge,
            Error::Decompress => Error::Decompress,
            Error::TimestampMismatch => Error::TimestampMismatch,
            Error::Evicted => Error::Evicted,
            Error::Remote(code) => Error::Remote(*code),
        }
    }
}

impl Error {
    /// The integer code that is sent over the wire.
    pub open spec fn spec_code(&self) -> u32 {
        match self {
            Error::Cancel => 0,
            Error::RequiredExtension => 1,
            Error::Old => 2,
            Error::Timeout => 3,
            Error::Transport(_) => 4,
            Error::Decode(_) => 5,
            Error::Unauthorized => 6,
            Error::Version => 9,
            Error::UnexpectedStream => 10,
            Error::BoundsExceeded(_) => 11,
            Error::Duplicate => 12,
            Error::NotFound => 13,
            Error::WrongSize => 14,
            Error::ProtocolViolation => 15,
            Error::UnexpectedMessage => 16,
            Error::Unsupported => 17,
            Error::Encode(_) => 18,
            Error::TooManyParameters => 19,
            Error::InvalidRole => 20,
            Error::UnknownAlpn(_) => 21,
            Error::Dropped => 24,
            Error::Closed => 25,
            Error::Lagged => 26,
            Error::FrameTooLarge => 27,
            Error::Decompress => 28,
            Error::TimestampMismatch => 29,
            Error::Unroutable => 30,
            Error::Evicted => 31,
            Error::App(app) => (*app + 64) as u32,
            Error::Remote(code) => *code,
        }
    }

    /// An integer code that is sent over the wire.
    #[verifier::when_used_as_spec(spec_code)]
    pub fn to_code(&self) -> (r: u32)
        ensures
            r == self.to_code(),
    {
        match self {
            Error::Cancel => 0,
            Error::RequiredExtension => 1,
            Error::Old => 2,
            Error::Timeout => 3,
            Error::Transport(_) => 4,
            Error::Decode(_) => 5,
            Error::Unauthorized => 6,
            Error::Version => 9,
            Error::UnexpectedStream => 10,
            Error::BoundsExceeded(_) => 11,
            Error::Duplicate => 12,
            Error::NotFound => 13,
            Error::WrongSize => 14,
            Error::ProtocolViolation => 15,
            Error::UnexpectedMessage => 16,
            Error::Unsupported => 17,
            Error::Encode(_) => 18,
            Error::TooManyParameters => 19,
            Error::InvalidRole => 20,
            Error::UnknownAlpn(_) => 21,
            Error::Dropped => 24,
            Error::Closed => 25,
            Error::Lagged => 26,
            Error::FrameTooLarge => 27,
            Error::Decompress => 28,
            Error::TimestampMismatch => 29,
            Error::Unroutable => 30,
            Error::Evicted => 31,
            Error::App(app) => *app as u32 + 64,
            Error::Remote(code) => *code,
        }
    }

    /// Convert a transport error into an [`Error`]: a stream reset carries the peer's
    /// code, anything else its message.
    pub fn from_transport(stream_error: Option<u32>, message: String) -> (r: Error)
        ensures
            r == match stream_error {
                Some(code) => Error::Remote(code),
                None => Error::Transport(message),
            },
    {
        match stream_error {
            Some(code) => Error::Remote(code),
            None => Error::Transport(message),
        }
    }
}

/// The codes that the library itself sends: everything but the application's own and
/// those relayed from a peer.
pub open spec fn library_error(err: Error) -> bool {
    !(err is App) && !(err is Remote)
}

/// Application codes never collide with the library's.
pub proof fn app_codes_are_apart(err: Error, app: u16)
    requires
        library_error(err),
    ensures
        err.to_code() < 64,
        Error::App(app).to_code() >= 64,
{
}

/// Two errors of the library with the same code are of the same kind, and two
/// application errors with the same code are the same.
pub proof fn codes_are_distinct(a: Error, b: Error)
    requires
        a.to_code() == b.to_code(),
        a is App && b is App || library_error(a) && library_error(b),
    ensures
        a is App ==> a == b,
        a is Cancel <==> b is Cancel,
        a is Dropped <==> b is Dropped,
        a is Transport <==> b is Transport,
        a is Decode <==> b is Decode,
        a is Encode <==> b is Encode,
        a is UnknownAlpn <==> b is UnknownAlpn,
        !(a is Transport || a is Decode || a is Encode || a is UnknownAlpn || a is BoundsExceeded)
            ==> a == b,
{
}

/// The codes that a peer knows the errors by.
pub proof fn codes_are_stable(app: u16, code: u32)
    ensures
        Error::Cancel.to_code() == 0,
        Error::RequiredExtension.to_code() == 1,
        Error::Old.to_code() == 2,
        Error::Timeout.to_code() == 3,
        Error::Unauthorized.to_code() == 6,
        Error::Version.to_code() == 9,
        Error::UnexpectedStream.to_code() == 10,
        Error::Duplicate.to_code() == 12,
        Error::NotFound.to_code() == 13,
        Error::WrongSize.to_code() == 14,
        Error::ProtocolViolation.to_code() == 15,
        Error::UnexpectedMessage.to_code() == 16,
        Error::Unsupported.to_code() == 17,
        Error::TooManyParameters.to_code() == 19,
        Error::InvalidRole.to_code() == 20,
        Error::Dropped.to_code() == 24,
        Error::Closed.to_code() == 25,
        Error::Lagged.to_code() == 26,
        Error::FrameTooLarge.to_code() == 27,
        Error::TimestampMismatch.to_code() == 29,
        Error::Unroutable.to_code() == 30,
        Error::Evicted.to_code() == 31,
        Error::App(app).to_code() == app + 64,
        Error::Remote(code).to_code() == code,
        forall|err: Error| err is Transport ==> #[trigger] err.to_code() == 4,
        forall|err: Error| err is Decode ==> #[trigger] err.to_code() == 5,
        forall|err: Error| err is BoundsExceeded ==> #[trigger] err.to_code() == 11,
        forall|err: Error| err is Encode ==> #[trigger] err.to_code() == 18,
        forall|err: Error| err is UnknownAlpn ==> #[trigger] err.to_code() == 21,
{
}

} // verus!
