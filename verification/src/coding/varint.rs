//! QUIC variable-length integers.
//!
//! The two top bits of the first byte give the length (1, 2, 4 or 8 bytes); the
//! remaining bits are the value, most significant byte first. The largest value is
//! `2^62 - 1`.

use vstd::prelude::*;

use crate::coding::decode::{advance, tail_of, tail_of_self, DecodeError};

verus! {

/// The largest value that fits a QUIC varint, `2^62 - 1`.
pub const VARINT_MAX: u64 = 0x3fff_ffff_ffff_ffff;

/// Returned when an integer is too large for the QUIC varint range.
#[derive(Clone, Copy, Debug, PartialEq, Eq, Structural)]
pub struct BoundsExceeded;

/// The minimal encoding of `value`, which must not exceed [`VARINT_MAX`].
pub open spec fn varint_bytes(value: u64) -> Seq<u8> {
    if value < 0x40 {
        seq![value as u8]
    } else if value < 0x4000 {
        seq![(0x40 + value / 0x100) as u8, (value % 0x100) as u8]
    } else if value < 0x4000_0000 {
        seq![
            (0x80 + value / 0x100_0000) as u8,
            (value / 0x1_0000 % 0x100) as u8,
            (value / 0x100 % 0x100) as u8,
            (value % 0x100) as u8,
        ]
    } else {
        seq![
            (0xc0 + value / 0x100_0000_0000_0000) as u8,
            (value / 0x1_0000_0000_0000 % 0x100) as u8,
            (value / 0x100_0000_0000 % 0x100) as u8,
            (value / 0x1_0000_0000 % 0x100) as u8,
            (value / 0x100_0000 % 0x100) as u8,
            (value / 0x1_0000 % 0x100) as u8,
            (value / 0x100 % 0x100) as u8,
            (value % 0x100) as u8,
        ]
    }
}

/// The number of bytes that an encoding starting with `first` occupies.
pub open spec fn varint_len(first: u8) -> int {
    if first < 0x40 {
        1
    } else if first < 0x80 {
        2
    } else if first < 0xc0 {
        4
    } else {
        8
    }
}

/// The value of the encoding at the front of `bytes`, which holds at least
/// [`varint_len`] of its first byte.
pub open spec fn varint_value(bytes: Seq<u8>) -> int {
    let first = bytes[0];
    if first < 0x40 {
        first as int
    } else if first < 0x80 {
        (first - 0x40) * 0x100 + bytes[1]
    } else if first < 0xc0 {
        (first - 0x80) * 0x100_0000 + bytes[1] * 0x1_0000 + bytes[2] * 0x100 + bytes[3]
    } else {
        (first - 0xc0) * 0x100_0000_0000_0000 + bytes[1] * 0x1_0000_0000_0000 + bytes[2]
            * 0x100_0000_0000 + bytes[3] * 0x1_0000_0000 + bytes[4] * 0x100_0000 + bytes[5]
            * 0x1_0000 + bytes[6] * 0x100 + bytes[7]
    }
}

/// Reading a varint off the front of `bytes`: the value and what remains, or
/// `Short` with nothing consumed.
pub open spec fn parse_varint(bytes: Seq<u8>) -> (Result<u64, DecodeError>, Seq<u8>) {
    if bytes.len() == 0 || bytes.len() < varint_len(bytes[0]) {
        (Err(DecodeError::Short), bytes)
    } else {
        (Ok(varint_value(bytes) as u64), bytes.skip(varint_len(bytes[0])))
    }
}

/// Every encoding denotes a value within the varint range.
pub proof fn varint_value_in_range(bytes: Seq<u8>)
    requires
        bytes.len() > 0,
        bytes.len() >= varint_len(bytes[0]),
    ensures
        0 <= varint_value(bytes) <= VARINT_MAX,
{
}

/// A number below `2^62` is the sum of its base-256 digits.
proof fn base_256_digits(v: int)
    requires
        0 <= v <= VARINT_MAX,
    ensures
        v == (v / 0x100_0000_0000_0000) * 0x100_0000_0000_0000 + (v / 0x1_0000_0000_0000 % 0x100)
            * 0x1_0000_0000_0000 + (v / 0x100_0000_0000 % 0x100) * 0x100_0000_0000 + (v
            / 0x1_0000_0000 % 0x100) * 0x1_0000_0000 + (v / 0x100_0000 % 0x100) * 0x100_0000 + (v
            / 0x1_0000 % 0x100) * 0x1_0000 + (v / 0x100 % 0x100) * 0x100 + v % 0x100,
{
    assert(v / 0x100 == (v / 0x1_0000) * 0x100 + v / 0x100 % 0x100);
    assert(v / 0x1_0000 == (v / 0x100_0000) * 0x100 + v / 0x1_0000 % 0x100);
    assert(v / 0x100_0000 == (v / 0x1_0000_0000) * 0x100 + v / 0x100_0000 % 0x100);
    assert(v / 0x1_0000_0000 == (v / 0x100_0000_0000) * 0x100 + v / 0x1_0000_0000 % 0x100);
    assert(v / 0x100_0000_0000 == (v / 0x1_0000_0000_0000) * 0x100 + v / 0x100_0000_0000 % 0x100);
    assert(v / 0x1_0000_0000_0000 == (v / 0x100_0000_0000_0000) * 0x100 + v / 0x1_0000_0000_0000
        % 0x100);
}

/// The written encoding of a value denotes it.
proof fn varint_bytes_value(value: u64)
    requires
        value <= VARINT_MAX,
    ensures
        varint_bytes(value).len() == varint_len(varint_bytes(value)[0]),
        varint_value(varint_bytes(value)) == value,
{
    base_256_digits(value as int);
    let bytes = varint_bytes(value);
    if value < 0x40 {
    } else if value < 0x4000 {
    } else if value < 0x4000_0000 {
        assert(0x80 <= bytes[0] < 0xc0);
    } else {
        assert(0xc0 <= bytes[0]);
    }
}

/// Reading back a written varint gives the value, and leaves what follows it.
pub proof fn varint_round_trip(value: u64, rest: Seq<u8>)
    requires
        value <= VARINT_MAX,
    ensures
        parse_varint(varint_bytes(value) + rest) == (Ok::<u64, DecodeError>(value), rest),
{
    varint_bytes_value(value);
    varint_value_local(varint_bytes(value), rest);
}

/// What follows an encoding does not matter to its value.
proof fn varint_value_local(bytes: Seq<u8>, rest: Seq<u8>)
    requires
        bytes.len() > 0,
        bytes.len() == varint_len(bytes[0]),
    ensures
        parse_varint(bytes + rest) == (Ok::<u64, DecodeError>(varint_value(bytes) as u64), rest),
{
    let all = bytes + rest;
    assert(forall|i: int| 0 <= i < bytes.len() ==> all[i] == bytes[i]);
    assert(varint_value(all) == varint_value(bytes));
    assert(all.skip(bytes.len() as int) =~= rest);
}

/// A varint cut short is [`DecodeError::Short`]: retry once more bytes arrive.
pub proof fn varint_prefix_is_short(value: u64, cut: int)
    requires
        value <= VARINT_MAX,
        0 <= cut < varint_bytes(value).len(),
    ensures
        parse_varint(varint_bytes(value).take(cut)).0 == Err::<u64, DecodeError>(
            DecodeError::Short,
        ),
{
    varint_bytes_value(value);
}

/// No shorter encoding than the written one denotes the same value.
pub proof fn varint_bytes_minimal(bytes: Seq<u8>)
    requires
        bytes.len() > 0,
        bytes.len() == varint_len(bytes[0]),
    ensures
        varint_bytes(varint_value(bytes) as u64).len() <= bytes.len(),
{
}

/// Read a varint off the front of `buf`.
pub fn decode_varint(buf: &mut &[u8]) -> (r: Result<u64, DecodeError>)
    ensures
        (r, final(buf)@) == parse_varint(old(buf)@),
        tail_of(final(buf)@, old(buf)@),
{
    broadcast use tail_of_self;

    if buf.len() == 0 {
        return Err(DecodeError::Short);
    }
    let first: u8 = buf[0];
    if first < 0x40 {
        advance(buf, 1);
        return Ok(first as u64);
    }
    if first < 0x80 {
        if buf.len() < 2 {
            return Err(DecodeError::Short);
        }
        let value: u64 = (first as u64 - 0x40) * 0x100 + buf[1] as u64;
        advance(buf, 2);
        return Ok(value);
    }
    if first < 0xc0 {
        if buf.len() < 4 {
            return Err(DecodeError::Short);
        }
        let value: u64 = (first as u64 - 0x80) * 0x100_0000 + buf[1] as u64 * 0x1_0000 + buf[2]
            as u64 * 0x100 + buf[3] as u64;
        advance(buf, 4);
        return Ok(value);
    }
    if buf.len() < 8 {
        return Err(DecodeError::Short);
    }
    let value: u64 = (first as u64 - 0xc0) * 0x100_0000_0000_0000 + buf[1] as u64
        * 0x1_0000_0000_0000 + buf[2] as u64 * 0x100_0000_0000 + buf[3] as u64 * 0x1_0000_0000
        + buf[4] as u64 * 0x100_0000 + buf[5] as u64 * 0x1_0000 + buf[6] as u64 * 0x100
        + buf[7] as u64;
    advance(buf, 8);
    Ok(value)
}

/// Append the minimal encoding of `value` to `buf`, which stays as it is when the
/// value is out of range.
pub fn encode_varint(value: u64, buf: &mut Vec<u8>) -> (r: Result<(), BoundsExceeded>)
    ensures
        r is Ok <==> value <= VARINT_MAX,
        r is Ok ==> final(buf)@ == old(buf)@ + varint_bytes(value),
        r is Err ==> final(buf)@ == old(buf)@,
{
    if value > VARINT_MAX {
        return Err(BoundsExceeded);
    }
    if value < 0x40 {
        buf.push(value as u8);
    } else if value < 0x4000 {
        buf.push((0x40 + value / 0x100) as u8);
        buf.push((value % 0x100) as u8);
    } else if value < 0x4000_0000 {
        buf.push((0x80 + value / 0x100_0000) as u8);
        buf.push((value / 0x1_0000 % 0x100) as u8);
        buf.push((value / 0x100 % 0x100) as u8);
        buf.push((value % 0x100) as u8);
    } else {
        buf.push((0xc0 + value / 0x100_0000_0000_0000) as u8);
        buf.push((value / 0x1_0000_0000_0000 % 0x100) as u8);
        buf.push((value / 0x100_0000_0000 % 0x100) as u8);
        buf.push((value / 0x1_0000_0000 % 0x100) as u8);
        buf.push((value / 0x100_0000 % 0x100) as u8);
        buf.push((value / 0x1_0000 % 0x100) as u8);
        buf.push((value / 0x100 % 0x100) as u8);
        buf.push((value % 0x100) as u8);
    }
    assert(buf@ =~= old(buf)@ + varint_bytes(value));
    Ok(())
}

/// The zigzag mapping of a signed integer onto the naturals: 0, -1, 1, -2, 2, ...
pub open spec fn zigzag(value: int) -> int {
    if value >= 0 {
        2 * value
    } else {
        -2 * value - 1
    }
}

/// The signed integer whose zigzag mapping is `code`.
pub open spec fn unzigzag(code: int) -> int {
    if code % 2 == 0 {
        code / 2
    } else {
        -((code + 1) / 2)
    }
}

/// The zigzag mapping loses nothing, in either direction.
pub proof fn zigzag_round_trip(value: int, code: int)
    requires
        code >= 0,
    ensures
        zigzag(value) >= 0,
        unzigzag(zigzag(value)) == value,
        zigzag(unzigzag(code)) == code,
{
}

/// An integer within the QUIC varint range.
#[derive(Clone, Copy, Debug, PartialEq, Eq, Structural, Hash)]
pub struct VarInt {
    value: u64,
}

impl VarInt {
    #[verifier::type_invariant]
    closed spec fn in_range(self) -> bool {
        self.value <= VARINT_MAX
    }

    /// The integer.
    pub closed spec fn spec_value(self) -> u64 {
        self.value
    }

    /// The varint for `value`, or `None` past the range.
    pub fn from_u64(value: u64) -> (r: Option<VarInt>)
        ensures
            r is Some <==> value <= VARINT_MAX,
            r matches Some(v) ==> v.spec_value() == value,
    {
        if value <= VARINT_MAX {
            Some(VarInt { value })
        } else {
            None
        }
    }

    /// The varint for `value`, or `None` past the range.
    pub fn from_u128(value: u128) -> (r: Option<VarInt>)
        ensures
            r is Some <==> value <= VARINT_MAX,
            r matches Some(v) ==> v.spec_value() == value,
    {
        if value <= VARINT_MAX as u128 {
            Some(VarInt { value: value as u64 })
        } else {
            None
        }
    }

    /// The integer, which is always within the range.
    pub fn into_inner(self) -> (r: u64)
        ensures
            r == self.spec_value(),
            r <= VARINT_MAX,
    {
        proof {
            use_type_invariant(self);
        }
        self.value
    }

    /// The zigzag code of `value`, or an error where that exceeds the range.
    pub fn from_zigzag(value: i64) -> (r: Result<VarInt, BoundsExceeded>)
        ensures
            r is Ok <==> zigzag(value as int) <= VARINT_MAX,
            r matches Ok(v) ==> v.spec_value() == zigzag(value as int),
    {
        let code: u64 = if value >= 0 {
            2 * (value as u64)
        } else {
            2 * ((-(value + 1)) as u64) + 1
        };
        match VarInt::from_u64(code) {
            Some(v) => Ok(v),
            None => Err(BoundsExceeded),
        }
    }

    /// The signed integer whose zigzag code this is.
    pub fn to_zigzag(self) -> (r: i64)
        ensures
            r == unzigzag(self.spec_value() as int),
    {
        proof {
            use_type_invariant(self);
        }
        if self.value % 2 == 0 {
            (self.value / 2) as i64
        } else {
            -(((self.value + 1) / 2) as i64)
        }
    }
}

/// Steps of either sign get short codes: the sign is in the lowest bit, the size in the others.
pub proof fn zigzag_keeps_small_steps_small(value: int)
    ensures
        value >= 0 ==> zigzag(value) == value + value,
        value < 0 ==> zigzag(value) + 1 == -value - value,
        zigzag(value) % 2 == 0 <==> value >= 0,
{
}

} // verus!
