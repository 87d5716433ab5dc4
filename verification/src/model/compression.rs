//! Per-frame payload compression.
//!
//! A publisher marks a track as worth compressing (e.g. a JSON catalog). The wire
//! protocol then negotiates a concrete [`Compression`] codec, and every frame on that
//! track is compressed independently so the codec doesn't carry state across the lossy,
//! out-of-order group boundary.

use std::io::{Read, Write};

use vstd::prelude::*;

use crate::bytes::copy_of;
use crate::error::Error;

verus! {

/// The largest payload that a frame may have once it is decompressed, 32 MiB.
pub const MAX_FRAME_SIZE: u64 = 33_554_432;

/// The codec used to (de)compress frame payloads, negotiated per subscription.
#[derive(Clone, Copy, Debug, PartialEq, Eq, Structural)]
pub enum Compression {
    /// Frames are sent verbatim.
    Verbatim,
    /// Raw DEFLATE (RFC 1951), no zlib/gzip header. QUIC already guarantees
    /// integrity, so the extra checksum bytes of zlib/gzip would be wasted.
    Deflate,
}

impl Default for Compression {
    fn default() -> (r: Compression)
        ensures
            r == Compression::Verbatim,
    {
        Compression::Verbatim
    }
}

/// What the DEFLATE encoder of the `flate2` crate makes of `data` at its default level.
pub uninterp spec fn deflated(data: Seq<u8>) -> Seq<u8>;

/// What the DEFLATE decoder of the `flate2` crate reads out of `data`, up to `limit`
/// bytes, or `None` where it finds the stream corrupt or incomplete before that.
pub uninterp spec fn inflated(data: Seq<u8>, limit: u64) -> Option<Seq<u8>>;

/// The first `limit` bytes of `data`.
pub open spec fn up_to(data: Seq<u8>, limit: u64) -> Seq<u8> {
    if data.len() <= limit {
        data
    } else {
        data.take(limit as int)
    }
}

/// [`flate2::write::DeflateEncoder`] over a vector, at the default level: the result is
/// named, and the crate's decoder reads back from it what was written, up to whatever
/// limit it is given.
#[verifier::external_body]
fn deflate(data: &[u8]) -> (r: Vec<u8>)
    ensures
        r@ == deflated(data@),
        forall|limit: u64| #[trigger] inflated(r@, limit) == Some(up_to(data@, limit)),
{
    let mut encoder = flate2::write::DeflateEncoder::new(Vec::new(), flate2::Compression::default());
    encoder.write_all(data).expect("deflate write to vec");
    encoder.finish().expect("deflate finish to vec")
}

/// [`flate2::read::DeflateDecoder`] over `data`, read up to `limit` bytes: the result is
/// named, and never longer than the limit.
#[verifier::external_body]
fn inflate(data: &[u8], limit: u64) -> (r: Option<Vec<u8>>)
    ensures
        match r {
            Some(out) => inflated(data@, limit) == Some(out@) && out@.len() <= limit,
            None => inflated(data@, limit) is None,
        },
{
    let mut out = Vec::new();
    match flate2::read::DeflateDecoder::new(data).take(limit).read_to_end(&mut out) {
        Ok(_) => Some(out),
        Err(_) => None,
    }
}

/// The payload that a decoder's output stands for, which is what came out when it was
/// asked for one byte more than the largest payload.
pub open spec fn inflated_payload(out: Option<Seq<u8>>) -> Result<Seq<u8>, Error> {
    match out {
        None => Err(Error::Decompress),
        Some(out) => if out.len() > MAX_FRAME_SIZE {
            Err(Error::FrameTooLarge)
        } else {
            Ok(out)
        },
    }
}

/// Accept a decoder's output as a payload, unless it failed or ran past the largest one.
pub fn accept_inflated(out: Option<Vec<u8>>) -> (r: Result<Vec<u8>, Error>)
    ensures
        match r {
            Ok(payload) => inflated_payload(
                match out {
                    Some(out) => Some(out@),
                    None => None,
                },
            ) == Ok::<Seq<u8>, Error>(payload@),
            Err(e) => inflated_payload(
                match out {
                    Some(out) => Some(out@),
                    None => None,
                },
            ) == Err::<Seq<u8>, Error>(e),
        },
{
    match out {
        None => Err(Error::Decompress),
        Some(out) => {
            if out.len() as u64 > MAX_FRAME_SIZE {
                return Err(Error::FrameTooLarge);
            }
            Ok(out)
        },
    }
}

impl Compression {
    /// Compress a whole frame payload.
    ///
    /// [`Compression::Verbatim`] returns the input unchanged. The caller decides
    /// whether the result is actually smaller; this just applies the codec. What was
    /// compressed decompresses to the input, unless that is larger than a payload may be.
    pub fn compress(&self, data: &[u8]) -> (r: Vec<u8>)
        ensures
            r@ == self.compressed(data@),
            self.decompressed(r@) == if *self == Compression::Deflate && data@.len()
                > MAX_FRAME_SIZE {
                Err::<Seq<u8>, Error>(Error::FrameTooLarge)
            } else {
                Ok(data@)
            },
    {
        match self {
            Compression::Verbatim => copy_of(data),
            Compression::Deflate => {
                let r: Vec<u8> = deflate(data);
                assert(inflated(r@, (MAX_FRAME_SIZE + 1) as u64) == Some(
                    up_to(data@, (MAX_FRAME_SIZE + 1) as u64),
                ));
                r
            },
        }
    }

    /// What [`Self::compress`] makes of `data`.
    pub open spec fn compressed(&self, data: Seq<u8>) -> Seq<u8> {
        match self {
            Compression::Verbatim => data,
            Compression::Deflate => deflated(data),
        }
    }

    /// What [`Self::decompress`] makes of `data`.
    pub open spec fn decompressed(&self, data: Seq<u8>) -> Result<Seq<u8>, Error> {
        match self {
            Compression::Verbatim => Ok(data),
            Compression::Deflate => inflated_payload(inflated(data, (MAX_FRAME_SIZE + 1) as u64)),
        }
    }

    /// Decompress a whole frame payload, rejecting anything that inflates past
    /// [`MAX_FRAME_SIZE`] so a peer can't exhaust the receiver's memory.
    pub fn decompress(&self, data: &[u8]) -> (r: Result<Vec<u8>, Error>)
        ensures
            match r {
                Ok(out) => self.decompressed(data@) == Ok::<Seq<u8>, Error>(out@),
                Err(e) => self.decompressed(data@) == Err::<Seq<u8>, Error>(e),
            },
    {
        match self {
            Compression::Verbatim => Ok(copy_of(data)),
            // Read one byte past the limit so we can tell "exactly at the cap" apart from
            // "overflowed".
            Compression::Deflate => accept_inflated(inflate(data, MAX_FRAME_SIZE + 1)),
        }
    }

    /// The varint code used on the wire.
    pub open spec fn spec_code(self) -> u64 {
        match self {
            Compression::Verbatim => 0,
            Compression::Deflate => 1,
        }
    }

    /// The varint code used on the wire.
    #[verifier::when_used_as_spec(spec_code)]
    pub fn to_code(self) -> (r: u64)
        ensures
            r == self.to_code(),
    {
        match self {
            Compression::Verbatim => 0,
            Compression::Deflate => 1,
        }
    }

    /// Parse a wire varint code, erroring on unknown codecs.
    pub fn from_code(code: u64) -> (r: Result<Compression, Error>)
        ensures
            match r {
                Ok(compression) => compression.to_code() == code,
                Err(e) => code > 1 && e == Error::Unsupported,
            },
    {
        match code {
            0 => Ok(Compression::Verbatim),
            1 => Ok(Compression::Deflate),
            _ => Err(Error::Unsupported),
        }
    }
}

/// What was decompressed is a payload unless it failed or is larger than one may be, and a payload
/// that is not compressed is what it is.
pub proof fn decompression_is_bounded(out: Seq<u8>)
    ensures
        inflated_payload(None) == Err::<Seq<u8>, Error>(Error::Decompress),
        out.len() <= MAX_FRAME_SIZE ==> inflated_payload(Some(out)) == Ok::<Seq<u8>, Error>(out),
        out.len() > MAX_FRAME_SIZE ==> inflated_payload(Some(out)) == Err::<Seq<u8>, Error>(
            Error::FrameTooLarge,
        ),
        Compression::Verbatim.compressed(out) == out,
        Compression::Verbatim.decompressed(out) == Ok::<Seq<u8>, Error>(out),
        Compression::Verbatim.to_code() != Compression::Deflate.to_code(),
{
}

} // verus!
