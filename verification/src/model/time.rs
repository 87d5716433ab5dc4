//! Timestamps at a per-track scale, and the clock that stamps frames without one.

use std::cmp::Ordering;

use vstd::prelude::*;
use vstd::string::*;

use crate::coding::varint::VARINT_MAX;
use crate::random::random_between;
use crate::text::{decimal, decimal_string};

verus! {

/// Returned when a [`Timestamp`] operation would exceed the QUIC VarInt range
/// (`2^62 - 1`), overflow during scale conversion or arithmetic, or attempt
/// arithmetic between timestamps with mismatched scales.
#[derive(Debug, Clone, Copy, PartialEq, Eq, Structural)]
pub struct TimeOverflow;

/// A span of time, in nanoseconds.
#[derive(Debug, Clone, Copy, PartialEq, Eq, Structural, Hash)]
pub struct Duration {
    pub nanos: u128,
}

impl Duration {
    /// The empty span.
    pub fn zero() -> (r: Duration)
        ensures
            r.nanos == 0,
    {
        Duration { nanos: 0 }
    }

    /// A span of whole seconds.
    pub fn from_secs(secs: u64) -> (r: Duration)
        ensures
            r.nanos == secs * 1_000_000_000,
    {
        Duration { nanos: secs as u128 * 1_000_000_000 }
    }

    /// A span of whole milliseconds.
    pub fn from_millis(millis: u64) -> (r: Duration)
        ensures
            r.nanos == millis * 1_000_000,
    {
        Duration { nanos: millis as u128 * 1_000_000 }
    }

    /// The whole seconds in this span.
    pub fn as_secs(self) -> (r: u128)
        ensures
            r == self.nanos / 1_000_000_000,
    {
        self.nanos / 1_000_000_000
    }

    /// The whole milliseconds in this span.
    pub fn as_millis(self) -> (r: u128)
        ensures
            r == self.nanos / 1_000_000,
    {
        self.nanos / 1_000_000
    }

    /// The shorter of two spans.
    pub fn min(self, other: Duration) -> (r: Duration)
        ensures
            r == if other.nanos < self.nanos { other } else { self },
    {
        if other.nanos < self.nanos {
            other
        } else {
            self
        }
    }
}

impl Default for Duration {
    fn default() -> (r: Duration)
        ensures
            r.nanos == 0,
    {
        Duration { nanos: 0 }
    }
}

/// A point on a monotonic clock, in nanoseconds since that clock's start.
#[derive(Debug, Clone, Copy, PartialEq, Eq, Structural, Hash)]
pub struct Instant {
    pub nanos: u128,
}

impl Instant {
    /// The time from `earlier` to this point, zero if `earlier` is later.
    pub open spec fn spec_since(self, earlier: Instant) -> Duration {
        Duration {
            nanos: if self.nanos >= earlier.nanos {
                (self.nanos - earlier.nanos) as u128
            } else {
                0
            },
        }
    }

    /// The time from `earlier` to this point, zero if `earlier` is later.
    #[verifier::when_used_as_spec(spec_since)]
    pub fn since(self, earlier: Instant) -> (r: Duration)
        ensures
            r == self.spec_since(earlier),
    {
        if self.nanos >= earlier.nanos {
            Duration { nanos: self.nanos - earlier.nanos }
        } else {
            Duration { nanos: 0 }
        }
    }
}

/// Units per second used by a track for frame timestamps.
///
/// Zero is impossible, so the arithmetic on [`Timestamp`] can divide by the scale
/// without ever risking a divide by zero. Use the named scales ([`Self::second`],
/// [`Self::milli`], [`Self::micro`], [`Self::nano`]) instead of writing raw integers at
/// call sites; for runtime values, use [`Self::new`].
#[derive(Debug, Clone, Copy, PartialEq, Eq, Structural, Hash)]
pub struct Timescale {
    units: u64,
}

impl Timescale {
    #[verifier::type_invariant]
    closed spec fn non_zero(self) -> bool {
        self.units != 0
    }

    /// One unit per second.
    pub fn second() -> (r: Timescale)
        ensures
            r == Timescale::of(1),
            r.as_u64() == 1,
    {
        Timescale { units: 1 }
    }

    /// 1,000 units per second.
    pub fn milli() -> (r: Timescale)
        ensures
            r == Timescale::of(1_000),
            r.as_u64() == 1_000,
    {
        Timescale { units: 1_000 }
    }

    /// 1,000,000 units per second. Common default for media tracks.
    pub fn micro() -> (r: Timescale)
        ensures
            r == Timescale::of(1_000_000),
            r.as_u64() == 1_000_000,
    {
        Timescale { units: 1_000_000 }
    }

    /// 1,000,000,000 units per second.
    pub fn nano() -> (r: Timescale)
        ensures
            r == Timescale::of(1_000_000_000),
            r.as_u64() == 1_000_000_000,
    {
        Timescale { units: 1_000_000_000 }
    }

    /// The raw units-per-second value.
    pub closed spec fn spec_units(self) -> u64 {
        self.units
    }

    /// The scale with the given units per second.
    pub closed spec fn of(units: u64) -> Timescale {
        Timescale { units }
    }

    /// Construct a timescale from a raw value (units per second).
    ///
    /// Returns [`TimeOverflow`] if `units_per_second` is `0` (would divide by zero)
    /// or exceeds `2^62 - 1` (the QUIC varint range, matching [`Timestamp`] values).
    pub fn new(units_per_second: u64) -> (r: Result<Timescale, TimeOverflow>)
        ensures
            r is Ok <==> 0 < units_per_second <= VARINT_MAX,
            r matches Ok(scale) ==> scale == Timescale::of(units_per_second) && scale.as_u64()
                == units_per_second,
    {
        if units_per_second > VARINT_MAX || units_per_second == 0 {
            return Err(TimeOverflow);
        }
        Ok(Timescale { units: units_per_second })
    }

    /// The timescale with the given units per second, which must not be zero. Unlike
    /// [`Self::new`] it takes values beyond the QUIC varint range; [`Self::as_u64`] gives them
    /// back.
    pub fn from_nonzero(units_per_second: u64) -> (r: Timescale)
        requires
            units_per_second != 0,
        ensures
            r == Timescale::of(units_per_second),
            r.as_u64() == units_per_second,
    {
        Timescale { units: units_per_second }
    }

    /// The raw units-per-second value (always non-zero).
    #[verifier::when_used_as_spec(spec_units)]
    pub fn as_u64(self) -> (r: u64)
        ensures
            r == self.as_u64(),
            r != 0,
    {
        proof {
            use_type_invariant(self);
        }
        self.units
    }
}

impl Default for Timescale {
    /// Milliseconds ([`Timescale::milli`]).
    fn default() -> (r: Timescale)
        ensures
            r == Timescale::of(1_000),
            r.as_u64() == 1_000,
    {
        Timescale::milli()
    }
}

impl Timescale {
    /// The scale that a raw value denotes has that value.
    pub proof fn of_units(units: u64)
        ensures
            Timescale::of(units).as_u64() == units,
    {
    }

    /// A scale is determined by its units.
    pub proof fn units_of(self)
        ensures
            Timescale::of(self.as_u64()) == self,
    {
    }

    /// The name of the scale, as developers see it.
    pub open spec fn spec_debug(self) -> Seq<char> {
        if self.as_u64() == 1 {
            "Timescale::SECOND"@
        } else if self.as_u64() == 1_000 {
            "Timescale::MILLI"@
        } else if self.as_u64() == 1_000_000 {
            "Timescale::MICRO"@
        } else if self.as_u64() == 1_000_000_000 {
            "Timescale::NANO"@
        } else {
            "Timescale("@ + decimal(self.as_u64() as nat) + ")"@
        }
    }

    /// The name of the scale, as developers see it.
    pub fn debug_string(self) -> (r: String)
        ensures
            r@ == self.spec_debug(),
    {
        if self.units == 1 {
            "Timescale::SECOND".to_owned()
        } else if self.units == 1_000 {
            "Timescale::MILLI".to_owned()
        } else if self.units == 1_000_000 {
            "Timescale::MICRO".to_owned()
        } else if self.units == 1_000_000_000 {
            "Timescale::NANO".to_owned()
        } else {
            let number: String = decimal_string(self.units as u128);
            "Timescale(".to_owned().concat(number.as_str()).concat(")")
        }
    }

    /// The units per second in decimal.
    pub fn display_string(self) -> (r: String)
        ensures
            r@ == decimal(self.as_u64() as nat),
    {
        decimal_string(self.units as u128)
    }
}

/// A timestamp in a track's timescale (units per second).
///
/// All timestamps within a track are relative, so zero for one track is not zero for
/// another. The underlying value is constrained to fit within a QUIC VarInt
/// (`2^62 - 1`); the scale is carried alongside so frames from different sources can
/// be compared and converted without lossy detours through a single fixed scale.
///
/// # An instant, not a number
///
/// There are no arithmetic operators: adding two instants is meaningless. Use
/// [`Self::checked_add`] / [`Self::checked_sub`], which require both operands to share
/// a scale. To combine timestamps from different scales, [`Self::convert`] first.
///
/// # Equality vs ordering
///
/// Equality is structural: one second and a thousand milliseconds differ, because they
/// encode as different pairs on the wire. The order is temporal, across scales; where
/// two timestamps name the same moment it breaks the tie by scale, so that it agrees
/// with equality.
#[derive(Debug, Clone, Copy, PartialEq, Eq, Structural, Hash)]
pub struct Timestamp {
    value: u64,
    scale: Timescale,
}

impl Timestamp {
    #[verifier::type_invariant]
    closed spec fn in_range(self) -> bool {
        self.value <= VARINT_MAX
    }

    /// The raw value in the timestamp's own scale.
    pub closed spec fn spec_value(self) -> u64 {
        self.value
    }

    /// The scale attached to this timestamp.
    pub closed spec fn spec_scale(self) -> Timescale {
        self.scale
    }

    /// The timestamp with the given raw value and scale.
    pub closed spec fn of(value: u64, scale: Timescale) -> Timestamp {
        Timestamp { value, scale }
    }

    /// What every timestamp satisfies.
    pub open spec fn valid(self) -> bool {
        self.value() <= VARINT_MAX && self.scale().as_u64() != 0
    }

    /// A timestamp is determined by its value and scale.
    pub proof fn parts(self, value: u64, scale: Timescale)
        ensures
            Timestamp::of(self.value(), self.scale()) == self,
            Timestamp::of(value, scale).value() == value,
            Timestamp::of(value, scale).scale() == scale,
    {
    }

    /// The value re-expressed at `units` per second, rounded down.
    pub open spec fn rescaled(self, units: int) -> int {
        self.value() * units / self.scale().as_u64() as int
    }

    /// Whether this timestamp comes before `other`.
    pub open spec fn before(self, other: Timestamp) -> bool {
        let lhs = self.value() * other.scale().as_u64();
        let rhs = other.value() * self.scale().as_u64();
        lhs < rhs || (lhs == rhs && self.scale().as_u64() < other.scale().as_u64())
    }

    /// The zero timestamp: value `0` at one unit per second. The scale is not
    /// incidental: this is not interchangeable with `0` at another scale.
    pub fn zero() -> (r: Timestamp)
        ensures
            r.value() == 0,
            r.scale() == Timescale::of(1),
            r.valid(),
    {
        Timestamp { value: 0, scale: Timescale::second() }
    }

    /// Construct a timestamp directly from a raw value at the given scale.
    /// Returns [`TimeOverflow`] if `value` exceeds `2^62 - 1`.
    pub fn new(value: u64, scale: Timescale) -> (r: Result<Timestamp, TimeOverflow>)
        ensures
            r is Ok <==> value <= VARINT_MAX,
            r matches Ok(t) ==> t == Timestamp::of(value, scale) && t.value() == value && t.scale()
                == scale && t.valid(),
    {
        proof {
            use_type_invariant(scale);
        }
        if value <= VARINT_MAX {
            Ok(Timestamp { value, scale })
        } else {
            Err(TimeOverflow)
        }
    }

    /// Twin of [`Self::new`] for values known to be in range.
    pub fn new_const(value: u64, scale: Timescale) -> (r: Timestamp)
        requires
            value <= VARINT_MAX,
        ensures
            r == Timestamp::of(value, scale),
            r.value() == value,
            r.scale() == scale,
            r.valid(),
    {
        proof {
            use_type_invariant(scale);
        }
        Timestamp { value, scale }
    }

    /// Construct a timestamp from a raw value and a `units_per_second` scale.
    /// Returns [`TimeOverflow`] if the scale is zero or either is out of range.
    pub fn from_scale(value: u64, units_per_second: u64) -> (r: Result<Timestamp, TimeOverflow>)
        ensures
            r is Ok <==> value <= VARINT_MAX && 0 < units_per_second <= VARINT_MAX,
            r matches Ok(t) ==> t.value() == value && t.scale().as_u64() == units_per_second
                && t.valid(),
    {
        Timestamp::new(value, Timescale::new(units_per_second)?)
    }

    /// Convert a number of seconds to a timestamp at one unit per second.
    pub fn from_secs(seconds: u64) -> (r: Result<Timestamp, TimeOverflow>)
        ensures
            r is Ok <==> seconds <= VARINT_MAX,
            r matches Ok(t) ==> t.value() == seconds && t.scale().as_u64() == 1 && t.valid(),
    {
        Timestamp::new(seconds, Timescale::second())
    }

    /// Convert a number of milliseconds to a timestamp at 1,000 units per second.
    pub fn from_millis(millis: u64) -> (r: Result<Timestamp, TimeOverflow>)
        ensures
            r is Ok <==> millis <= VARINT_MAX,
            r matches Ok(t) ==> t.value() == millis && t.scale().as_u64() == 1_000 && t.valid(),
    {
        Timestamp::new(millis, Timescale::milli())
    }

    /// Convert a number of microseconds to a timestamp at 1,000,000 units per second.
    pub fn from_micros(micros: u64) -> (r: Result<Timestamp, TimeOverflow>)
        ensures
            r is Ok <==> micros <= VARINT_MAX,
            r matches Ok(t) ==> t.value() == micros && t.scale().as_u64() == 1_000_000
                && t.valid(),
    {
        Timestamp::new(micros, Timescale::micro())
    }

    /// Convert a number of nanoseconds to a timestamp at 1,000,000,000 units per second.
    pub fn from_nanos(nanos: u64) -> (r: Result<Timestamp, TimeOverflow>)
        ensures
            r is Ok <==> nanos <= VARINT_MAX,
            r matches Ok(t) ==> t.value() == nanos && t.scale().as_u64() == 1_000_000_000
                && t.valid(),
    {
        Timestamp::new(nanos, Timescale::nano())
    }

    /// The raw value in the timestamp's own scale.
    #[verifier::when_used_as_spec(spec_value)]
    pub fn value(self) -> (r: u64)
        ensures
            r == self.value(),
            r <= VARINT_MAX,
    {
        proof {
            use_type_invariant(self);
        }
        self.value
    }

    /// The scale (units per second) attached to this timestamp.
    #[verifier::when_used_as_spec(spec_scale)]
    pub fn scale(self) -> (r: Timescale)
        ensures
            r == self.scale(),
            self.valid(),
    {
        proof {
            use_type_invariant(self);
            use_type_invariant(self.scale);
        }
        self.scale
    }

    /// Whether the raw value is zero. Does not consider scale.
    pub fn is_zero(self) -> (r: bool)
        ensures
            r == (self.value() == 0),
    {
        self.value == 0
    }

    /// What [`Self::convert`] gives.
    pub open spec fn spec_convert(self, new_scale: Timescale) -> Result<Timestamp, TimeOverflow> {
        if self.scale() == new_scale {
            Ok(self)
        } else if self.rescaled(new_scale.as_u64() as int) <= VARINT_MAX {
            Ok(Timestamp::of(self.rescaled(new_scale.as_u64() as int) as u64, new_scale))
        } else {
            Err(TimeOverflow)
        }
    }

    /// Re-express this timestamp at a new scale, rounding down. Returns
    /// [`TimeOverflow`] if the new value would exceed `2^62 - 1`.
    pub fn convert(self, new_scale: Timescale) -> (r: Result<Timestamp, TimeOverflow>)
        ensures
            r == self.spec_convert(new_scale),
            r matches Ok(t) ==> t.scale() == new_scale && t.valid(),
    {
        proof {
            use_type_invariant(self);
            use_type_invariant(new_scale);
            self.scale.units_of();
            new_scale.units_of();
        }
        let from: u64 = self.scale.as_u64();
        let to: u64 = new_scale.as_u64();
        if from == to {
            return Ok(self);
        }
        let product: u128 = widening_mul(self.value, to);
        let scaled: u128 = product / (from as u128);
        assert(scaled == self.rescaled(new_scale.as_u64() as int));
        if scaled <= VARINT_MAX as u128 {
            Ok(Timestamp { value: scaled as u64, scale: new_scale })
        } else {
            Err(TimeOverflow)
        }
    }

    /// The value re-expressed at `target`, rounded down.
    pub fn as_scale(self, target: Timescale) -> (r: u128)
        ensures
            r == self.rescaled(target.as_u64() as int),
    {
        let from: u64 = self.scale.as_u64();
        let product: u128 = widening_mul(self.value, target.as_u64());
        product / (from as u128)
    }

    /// The value re-expressed in seconds.
    pub fn as_secs(self) -> (r: u64)
        ensures
            r == self.value() / self.scale().as_u64(),
    {
        self.value / self.scale.as_u64()
    }

    /// The value re-expressed in milliseconds.
    pub fn as_millis(self) -> (r: u128)
        ensures
            r == self.rescaled(1_000),
    {
        self.as_scale(Timescale::milli())
    }

    /// The value re-expressed in microseconds.
    pub fn as_micros(self) -> (r: u128)
        ensures
            r == self.rescaled(1_000_000),
    {
        self.as_scale(Timescale::micro())
    }

    /// The value re-expressed in nanoseconds.
    pub fn as_nanos(self) -> (r: u128)
        ensures
            r == self.rescaled(1_000_000_000),
    {
        self.as_scale(Timescale::nano())
    }

    /// Add two timestamps. Returns [`TimeOverflow`] if the sum exceeds `2^62 - 1` or
    /// if the scales differ.
    pub fn checked_add(self, rhs: Timestamp) -> (r: Result<Timestamp, TimeOverflow>)
        ensures
            r is Ok <==> self.scale() == rhs.scale() && self.value() + rhs.value() <= VARINT_MAX,
            r matches Ok(t) ==> t.value() == self.value() + rhs.value() && t.scale()
                == self.scale() && t.valid(),
    {
        proof {
            use_type_invariant(self);
            use_type_invariant(rhs);
            self.scale.units_of();
            rhs.scale.units_of();
        }
        if self.scale.as_u64() != rhs.scale.as_u64() {
            return Err(TimeOverflow);
        }
        Timestamp::new(self.value + rhs.value, self.scale)
    }

    /// Subtract `rhs` from `self`. Returns [`TimeOverflow`] if `rhs > self` or if the
    /// scales differ.
    pub fn checked_sub(self, rhs: Timestamp) -> (r: Result<Timestamp, TimeOverflow>)
        ensures
            r is Ok <==> self.scale() == rhs.scale() && rhs.value() <= self.value(),
            r matches Ok(t) ==> t.value() == self.value() - rhs.value() && t.scale()
                == self.scale() && t.valid(),
    {
        proof {
            use_type_invariant(self);
            use_type_invariant(rhs);
            self.scale.units_of();
            rhs.scale.units_of();
        }
        if self.scale.as_u64() != rhs.scale.as_u64() {
            return Err(TimeOverflow);
        }
        if rhs.value > self.value {
            return Err(TimeOverflow);
        }
        Timestamp::new(self.value - rhs.value, self.scale)
    }
}

/// The full product of two 64-bit integers.
fn widening_mul(a: u64, b: u64) -> (r: u128)
    ensures
        r == a * b,
{
    assert(a * b <= u64::MAX * u64::MAX) by (nonlinear_arith)
        requires
            0 <= a <= u64::MAX,
            0 <= b <= u64::MAX,
    ;
    a as u128 * b as u128
}

impl Timestamp {
    /// Temporal comparison, normalizing across scales.
    ///
    /// Equal scales compare raw values directly; otherwise both sides are brought to a
    /// common scale. A would-be cross-scale tie breaks by scale.
    pub fn cmp(&self, other: &Timestamp) -> (r: Ordering)
        ensures
            match r {
                Ordering::Less => self.before(*other),
                Ordering::Equal => *self == *other,
                Ordering::Greater => other.before(*self),
            },
    {
        proof {
            use_type_invariant(self.scale);
            use_type_invariant(other.scale);
            self.scale.units_of();
            other.scale.units_of();
            timestamp_order_total(*self, *other);
        }
        let lhs: u128 = widening_mul(self.value, other.scale.as_u64());
        let rhs: u128 = widening_mul(other.value, self.scale.as_u64());
        if lhs < rhs {
            return Ordering::Less;
        }
        if rhs < lhs {
            return Ordering::Greater;
        }
        if self.scale.as_u64() < other.scale.as_u64() {
            return Ordering::Less;
        }
        if other.scale.as_u64() < self.scale.as_u64() {
            return Ordering::Greater;
        }
        Ordering::Equal
    }

    /// The later of two timestamps; `other` where neither is later.
    pub fn max(self, other: Timestamp) -> (r: Timestamp)
        ensures
            r == if other.before(self) { self } else { other },
    {
        match self.cmp(&other) {
            Ordering::Greater => self,
            Ordering::Equal => other,
            Ordering::Less => {
                proof {
                    use_type_invariant(self.scale);
                    use_type_invariant(other.scale);
                    timestamp_order_total(self, other);
                }
                other
            },
        }
    }

    /// A nanosecond-scale timestamp of the given length, or [`TimeOverflow`] past
    /// `2^62 - 1` nanoseconds.
    pub fn try_from_duration(duration: Duration) -> (r: Result<Timestamp, TimeOverflow>)
        ensures
            r is Ok <==> duration.nanos <= VARINT_MAX,
            r matches Ok(t) ==> t.value() == duration.nanos && t.scale().as_u64() == 1_000_000_000
                && t.valid(),
    {
        if duration.nanos <= VARINT_MAX as u128 {
            Timestamp::from_nanos(duration.nanos as u64)
        } else {
            Err(TimeOverflow)
        }
    }

    /// The length that this timestamp denotes: whole seconds, and the nanoseconds past
    /// them.
    pub fn to_duration(self) -> (r: Duration)
        ensures
            r.nanos == (self.value() / self.scale().as_u64()) * 1_000_000_000 + self.rescaled(
                1_000_000_000,
            ) % 1_000_000_000,
    {
        let secs: u64 = self.as_secs();
        let nanos: u128 = self.as_nanos() % 1_000_000_000;
        Duration { nanos: secs as u128 * 1_000_000_000 + nanos }
    }

    /// The text that developers see: the largest unit that needs no decimal places.
    pub open spec fn spec_debug(self) -> Seq<char> {
        let nanos = self.rescaled(1_000_000_000);
        if nanos % 1_000_000_000 == 0 {
            decimal((nanos / 1_000_000_000) as nat) + "s"@
        } else if nanos % 1_000_000 == 0 {
            decimal((nanos / 1_000_000) as nat) + "ms"@
        } else if nanos % 1_000 == 0 {
            decimal((nanos / 1_000) as nat) + "\u{b5}s"@
        } else {
            decimal(nanos as nat) + "ns"@
        }
    }

    /// The text that developers see: the largest unit that needs no decimal places.
    pub fn debug_string(self) -> (r: String)
        ensures
            r@ == self.spec_debug(),
    {
        let nanos: u128 = self.as_nanos();
        if nanos % 1_000_000_000 == 0 {
            decimal_string(nanos / 1_000_000_000).concat("s")
        } else if nanos % 1_000_000 == 0 {
            decimal_string(nanos / 1_000_000).concat("ms")
        } else if nanos % 1_000 == 0 {
            decimal_string(nanos / 1_000).concat("\u{b5}s")
        } else {
            decimal_string(nanos).concat("ns")
        }
    }
}

impl PartialOrd for Timestamp {
    fn partial_cmp(&self, other: &Timestamp) -> (r: Option<Ordering>) {
        Some(self.cmp(other))
    }
}

impl vstd::std_specs::cmp::PartialOrdSpecImpl for Timestamp {
    open spec fn obeys_partial_cmp_spec() -> bool {
        true
    }

    open spec fn partial_cmp_spec(&self, other: &Timestamp) -> Option<Ordering> {
        if self.before(*other) {
            Some(Ordering::Less)
        } else if *self == *other {
            Some(Ordering::Equal)
        } else {
            Some(Ordering::Greater)
        }
    }
}

/// The order on timestamps is total, and two timestamps tie only when they are equal.
pub proof fn timestamp_order_total(a: Timestamp, b: Timestamp)
    requires
        a.scale().as_u64() != 0,
        b.scale().as_u64() != 0,
    ensures
        a == b ==> !a.before(b) && !b.before(a),
        a != b ==> (a.before(b) <==> !b.before(a)),
{
    a.parts(0, a.scale());
    b.parts(0, b.scale());
    a.scale().units_of();
    b.scale().units_of();
    if a.scale().as_u64() == b.scale().as_u64() && a.value() * b.scale().as_u64() == b.value()
        * a.scale().as_u64() {
        let k = a.scale().as_u64() as int;
        let x = a.value() as int;
        let y = b.value() as int;
        assert(x == y) by (nonlinear_arith)
            requires
                k != 0,
                x * k == y * k,
        ;
    }
}

/// The order on timestamps is transitive.
pub proof fn timestamp_order_transitive(a: Timestamp, b: Timestamp, c: Timestamp)
    requires
        a.valid(),
        b.valid(),
        c.valid(),
        a.before(b),
        b.before(c),
    ensures
        a.before(c),
{
    let (av, as_) = (a.value() as int, a.scale().as_u64() as int);
    let (bv, bs) = (b.value() as int, b.scale().as_u64() as int);
    let (cv, cs) = (c.value() as int, c.scale().as_u64() as int);
    assert(av * bs <= bv * as_ && bv * cs <= cv * bs);
    assert(av * cs <= cv * as_) by (nonlinear_arith)
        requires
            av * bs <= bv * as_,
            bv * cs <= cv * bs,
            as_ > 0,
            bs > 0,
            cs > 0,
            av >= 0,
            bv >= 0,
            cv >= 0,
    {
        assert((av * bs) * cs <= (bv * as_) * cs);
        assert((bv * cs) * as_ <= (cv * bs) * as_);
        assert((av * cs) * bs <= (cv * as_) * bs);
    }
    if av * cs == cv * as_ {
        assert(av * bs == bv * as_ && bv * cs == cv * bs) by (nonlinear_arith)
            requires
                av * cs == cv * as_,
                av * bs <= bv * as_,
                bv * cs <= cv * bs,
                as_ > 0,
                bs > 0,
                cs > 0,
        {
            assert((av * bs) * cs <= (bv * as_) * cs);
            assert((bv * cs) * as_ <= (cv * bs) * as_);
            assert((av * cs) * bs == (cv * as_) * bs);
            assert((av * bs) * cs == (bv * as_) * cs);
            assert((bv * cs) * as_ == (cv * bs) * as_);
        }
    }
}

/// Where two timestamps share a scale, the order is that of their values.
pub proof fn timestamp_order_same_scale(a: Timestamp, b: Timestamp)
    requires
        a.valid(),
        b.valid(),
        a.scale() == b.scale(),
    ensures
        a.before(b) <==> a.value() < b.value(),
{
    let k = a.scale().as_u64() as int;
    let x = a.value() as int;
    let y = b.value() as int;
    assert(x * k < y * k <==> x < y) by (nonlinear_arith)
        requires
            k > 0,
    ;
}

/// Converting never moves a timestamp later, and moves it back by less than one unit
/// of the new scale.
pub proof fn timestamp_convert_rounds_down(t: Timestamp, units: int)
    requires
        t.valid(),
        units >= 0,
    ensures
        t.rescaled(units) * t.scale().as_u64() <= t.value() * units,
        t.value() * units < (t.rescaled(units) + 1) * t.scale().as_u64(),
{
    let product = t.value() * units;
    let d = t.scale().as_u64() as int;
    assert((product / d) * d <= product && product < (product / d + 1) * d) by (nonlinear_arith)
        requires
            d > 0,
    ;
}

/// Converting to a finer scale, a whole multiple of the original, and back gives the
/// original timestamp.
pub proof fn timestamp_convert_round_trip(t: Timestamp, finer: Timescale, factor: int)
    requires
        t.valid(),
        factor > 0,
        finer.as_u64() == factor * t.scale().as_u64(),
        t.spec_convert(finer) is Ok,
    ensures
        t.spec_convert(finer)->Ok_0.spec_convert(t.scale()) == Ok::<Timestamp, TimeOverflow>(t),
{
    let units = t.scale().as_u64() as int;
    let value = t.value() as int;
    t.parts(0, t.scale());
    if t.scale() != finer {
        assert(value * (factor * units) / units == value * factor) by (nonlinear_arith)
            requires
                units > 0,
        ;
        let there = t.spec_convert(finer)->Ok_0;
        there.parts(t.rescaled(finer.as_u64() as int) as u64, finer);
        assert(there.value() == value * factor);
        assert(value * factor * units / (factor * units) == value) by (nonlinear_arith)
            requires
                units > 0,
                factor > 0,
        ;
    }
}

/// `std::time::Instant`, a point on the system's monotonic clock.
#[verifier::external_type_specification]
#[verifier::external_body]
pub struct ExStdInstant(std::time::Instant);

/// Epoch the wall-clock timestamps are measured from: 2020-01-01T00:00:00Z, in seconds
/// after the Unix epoch.
pub const ANCHOR_EPOCH_SECS: u64 = 1_577_836_800;

/// Where [`Clock::start`] puts the anchor: far enough from zero to leave room for points
/// before it.
pub const ANCHOR_NANOS: u128 = 18_446_744_073_709_551_616;

/// The process's monotonic clock, and the wall-clock time taken for one point on it. It
/// stamps frames which arrive without a timestamp.
#[derive(Debug, Clone, Copy)]
pub struct Clock {
    /// The machine's own reading at the anchor.
    pub started: std::time::Instant,
    /// The anchor on this clock.
    pub anchor: Instant,
    /// Nanoseconds after the Unix epoch that the anchor stands for.
    pub system: i128,
}

/// [`web_async::time::Instant::now`]: the current point on the monotonic clock. Nothing
/// is promised of it.
#[verifier::external_body]
fn monotonic_now() -> std::time::Instant {
    web_async::time::Instant::now().into()
}

/// [`web_async::time::Instant::elapsed`]: how long ago `since` was when this is called, in
/// nanoseconds. That is up to the machine, so nothing is promised of it.
#[verifier::external_body]
fn elapsed_nanos(since: &std::time::Instant) -> u128 {
    web_async::time::Instant::from(*since).elapsed().as_nanos()
}

/// [`std::time::SystemTime::elapsed`] of the Unix epoch: how long ago it was when this is
/// called, in nanoseconds, or how far ahead it lies in the error. That is up to the machine, so
/// nothing is promised of it.
#[verifier::external_body]
fn since_epoch() -> Result<u128, u128> {
    match std::time::UNIX_EPOCH.elapsed() {
        Ok(after) => Ok(after.as_nanos()),
        Err(before) => Err(before.duration().as_nanos()),
    }
}

/// The timestamp that a wall-clock time stands for, given in nanoseconds after the Unix
/// epoch: milliseconds after 2020, zero before that.
pub open spec fn wall_clock_stamp(system: int) -> Result<Timestamp, TimeOverflow> {
    let since = system - ANCHOR_EPOCH_SECS * 1_000_000_000;
    let millis = if since > 0 {
        since / 1_000_000
    } else {
        0
    };
    if millis <= VARINT_MAX {
        Ok(Timestamp::of(millis as u64, Timescale::of(1_000)))
    } else {
        Err(TimeOverflow)
    }
}

impl Clock {
    /// Start a clock now.
    ///
    /// To deter anyone from reading a timestamp as wall-clock time, a random amount of
    /// time below 69.42 seconds is subtracted from the anchor.
    pub fn start() -> (r: Clock)
        ensures
            r.anchor.nanos == ANCHOR_NANOS,
            exists|reading: Result<u128, u128>, jitter: u64|
                jitter < 69_420 && r.system == #[trigger] moved_back(reading, jitter),
    {
        let system: Result<u128, u128> = since_epoch();
        let jitter: u64 = random_between(0, 69_420);
        Clock {
            started: monotonic_now(),
            anchor: Instant { nanos: ANCHOR_NANOS },
            system: jittered(system, jitter),
        }
    }

    /// The point `forward` nanoseconds after the anchor, or `back` nanoseconds before it when
    /// there is no `forward`. A point that the clock cannot show is taken as the nearest one
    /// that it can.
    pub fn point(&self, forward: Option<u128>, back: u128) -> (r: Instant)
        ensures
            r.nanos == match forward {
                Some(nanos) => if self.anchor.nanos + nanos <= u128::MAX {
                    self.anchor.nanos + nanos
                } else {
                    u128::MAX as int
                },
                None => if self.anchor.nanos >= back {
                    self.anchor.nanos - back
                } else {
                    0
                },
            },
    {
        let anchor: u128 = self.anchor.nanos;
        let nanos: u128 = match forward {
            Some(nanos) => if nanos <= u128::MAX - anchor {
                anchor + nanos
            } else {
                u128::MAX
            },
            None => if anchor >= back {
                anchor - back
            } else {
                0
            },
        };
        Instant { nanos }
    }

    /// Read the clock. The reading is up to the machine, but never before the anchor.
    pub fn read(&self) -> (r: Instant)
        ensures
            r.nanos >= self.anchor.nanos,
    {
        self.point(Some(elapsed_nanos(&self.started)), 0)
    }

    /// The wall-clock time at the point `at`, in nanoseconds after the Unix epoch.
    pub open spec fn moment(&self, at: Instant) -> int {
        self.system + at.nanos - self.anchor.nanos
    }

    /// The timestamp of the point `at`: milliseconds after 2020, zero before that, none past
    /// the varint range.
    pub open spec fn stamped(&self, at: Instant) -> Result<Timestamp, TimeOverflow> {
        wall_clock_stamp(self.moment(at))
    }

    /// The timestamp of the moment `forward` nanoseconds after the anchor, or `back`
    /// nanoseconds before it when there is no `forward`.
    fn stamp(&self, forward: Option<u128>, back: u128) -> (r: Result<Timestamp, TimeOverflow>)
        ensures
            r == wall_clock_stamp(
                match forward {
                    Some(nanos) => self.system + nanos,
                    None => self.system - back,
                },
            ),
    {
        let epoch: i128 = ANCHOR_EPOCH_SECS as i128 * 1_000_000_000;
        let limit: u128 = (VARINT_MAX as u128 + 1) * 1_000_000;
        match forward {
            Some(nanos) => {
                if self.system >= epoch {
                    let base: u128 = (self.system - epoch) as u128;
                    if nanos >= limit || base >= limit {
                        return Err(TimeOverflow);
                    }
                    let millis: u128 = (base + nanos) / 1_000_000;
                    if millis > VARINT_MAX as u128 {
                        return Err(TimeOverflow);
                    }
                    return Timestamp::from_millis(millis as u64);
                }
                let behind: u128 = if self.system >= 0 {
                    (epoch - self.system) as u128
                } else {
                    epoch as u128 + (-(self.system + 1)) as u128 + 1
                };
                if nanos <= behind {
                    return Timestamp::from_millis(0);
                }
                let millis: u128 = (nanos - behind) / 1_000_000;
                if millis > VARINT_MAX as u128 {
                    return Err(TimeOverflow);
                }
                Timestamp::from_millis(millis as u64)
            },
            None => {
                if self.system <= epoch {
                    return Timestamp::from_millis(0);
                }
                let ahead: u128 = (self.system - epoch) as u128;
                if ahead <= back {
                    return Timestamp::from_millis(0);
                }
                let millis: u128 = (ahead - back) / 1_000_000;
                if millis > VARINT_MAX as u128 {
                    return Err(TimeOverflow);
                }
                Timestamp::from_millis(millis as u64)
            },
        }
    }
}

/// Timestamps do not run backwards: of two readings of one clock, the later one is stamped with
/// no smaller value. Both are in milliseconds, and a reading before 2020 gives zero.
///
/// [`Timestamp::now`] stamps a reading it takes, [`Timestamp::from_instant`] one it is given.
pub proof fn clock_never_runs_backwards(clock: Clock, earlier: Instant, later: Instant)
    requires
        earlier.nanos <= later.nanos,
    ensures
        ({
            let first = clock.stamped(earlier);
            let second = clock.stamped(later);
            &&& second is Ok ==> {
                &&& first is Ok
                &&& first->Ok_0.value() <= second->Ok_0.value()
                &&& first->Ok_0.scale() == Timescale::of(1_000)
                &&& second->Ok_0.scale() == Timescale::of(1_000)
            }
            &&& clock.moment(earlier) <= ANCHOR_EPOCH_SECS * 1_000_000_000 ==> (first matches Ok(
                stamp,
            ) && stamp.value() == 0)
        }),
{
    let epoch = ANCHOR_EPOCH_SECS * 1_000_000_000;
    let first = clock.moment(earlier) - epoch;
    let second = clock.moment(later) - epoch;
    let x = (if first > 0 { first / 1_000_000 } else { 0 }) as u64;
    let y = (if second > 0 { second / 1_000_000 } else { 0 }) as u64;
    Timestamp::of(0, Timescale::of(1_000)).parts(x, Timescale::of(1_000));
    Timestamp::of(0, Timescale::of(1_000)).parts(y, Timescale::of(1_000));
}

/// The wall-clock reading `system`, in nanoseconds after the Unix epoch or before it in the
/// error, moved back by `jitter` milliseconds. Readings beyond what leaves room for arithmetic
/// are clamped.
pub open spec fn moved_back(system: Result<u128, u128>, jitter: u64) -> int {
    match system {
        Ok(after) => if after <= i128::MAX / 2 {
            after - jitter * 1_000_000
        } else {
            i128::MAX / 2 - jitter * 1_000_000
        },
        Err(before) => if before <= i128::MAX / 4 {
            -before - jitter * 1_000_000
        } else {
            -(i128::MAX / 4) - jitter * 1_000_000
        },
    }
}

/// The wall-clock reading `system` moved back by `jitter` milliseconds. See [`moved_back`].
pub fn jittered(system: Result<u128, u128>, jitter: u64) -> (r: i128)
    requires
        jitter < 69_420,
    ensures
        r == moved_back(system, jitter),
{
    let jitter: i128 = jitter as i128 * 1_000_000;
    match system {
        Ok(after) => {
            let after: i128 = if after <= (i128::MAX / 2) as u128 {
                after as i128
            } else {
                i128::MAX / 2
            };
            after - jitter
        },
        Err(before) => {
            let before: i128 = if before <= (i128::MAX / 4) as u128 {
                before as i128
            } else {
                i128::MAX / 4
            };
            -before - jitter
        },
    }
}

impl Timestamp {
    /// Current point on the clock, in milliseconds.
    ///
    /// This is the one-way bridge from a local clock to a track timestamp: there is
    /// deliberately no inverse. Used to stamp frames that arrive without one.
    pub fn now(clock: &Clock) -> (r: Result<Timestamp, TimeOverflow>)
        ensures
            r matches Ok(t) ==> t.scale() == Timescale::of(1_000) && t.valid(),
            exists|at: Instant|
                at.nanos >= clock.anchor.nanos && r == #[trigger] clock.stamped(at),
    {
        let at: Instant = clock.read();
        Timestamp::from_instant(clock, at)
    }

    /// The timestamp of a point on `clock`, in milliseconds, anchored at 2020-01-01 plus the
    /// jitter of `clock`.
    ///
    /// A wall clock before 2020 is taken as zero; one past the varint range is an error.
    /// One-way only: there is no inverse, since the anchor is jittered to keep a timestamp
    /// from being read back as a clock.
    pub fn from_instant(clock: &Clock, at: Instant) -> (r: Result<Timestamp, TimeOverflow>)
        ensures
            r == clock.stamped(at),
            r matches Ok(t) ==> t.scale() == Timescale::of(1_000) && t.valid(),
    {
        let anchor: u128 = clock.anchor.nanos;
        let r: Result<Timestamp, TimeOverflow> = if at.nanos >= anchor {
            clock.stamp(Some(at.nanos - anchor), 0)
        } else {
            clock.stamp(None, anchor - at.nanos)
        };
        proof {
            match r {
                Ok(t) => {
                    t.parts(t.value(), Timescale::of(1_000));
                    Timescale::of_units(1_000);
                },
                Err(_) => {},
            }
        }
        r
    }
}

/// A conversion gives a timestamp at the new scale that is the same point in time, rounded down to
/// a unit of that scale, and fails exactly if that leaves the varint range.
pub proof fn timestamp_convert_keeps_the_time(t: Timestamp, scale: Timescale)
    requires
        t.valid(),
    ensures
        ({
            let units = t.scale().as_u64() as int;
            let r = t.spec_convert(scale);
            &&& r matches Ok(at) ==> {
                &&& at.scale() == scale
                &&& at.value() * units <= t.value() * scale.as_u64()
                &&& t.value() * scale.as_u64() < (at.value() + 1) * units
            }
            &&& r is Err ==> t.value() * scale.as_u64() >= (VARINT_MAX + 1) * units
            &&& scale == t.scale() ==> r == Ok::<Timestamp, TimeOverflow>(t)
        }),
{
    let units = t.scale().as_u64() as int;
    timestamp_convert_rounds_down(t, scale.as_u64() as int);
    let value = t.rescaled(scale.as_u64() as int);
    assert(value >= 0) by (nonlinear_arith)
        requires
            value == t.value() * scale.as_u64() / units,
            units > 0,
            t.value() * scale.as_u64() >= 0,
    ;
    if t.scale() == scale {
        let x = t.value() as int;
        assert(x * units < (x + 1) * units) by (nonlinear_arith)
            requires
                units > 0,
        ;
    } else if value <= VARINT_MAX {
        t.parts(value as u64, scale);
    } else {
        assert(value * units >= (VARINT_MAX + 1) * units) by (nonlinear_arith)
            requires
                value >= VARINT_MAX + 1,
                units > 0,
        ;
    }
}

/// Timestamps of different scales are ordered by the time they stand for; only where that is the
/// same does the scale decide.
pub proof fn timestamp_order_is_by_time(a: Timestamp, b: Timestamp)
    ensures
        a.value() * b.scale().as_u64() < b.value() * a.scale().as_u64() ==> a.before(b)
            && !b.before(a),
        a.value() * b.scale().as_u64() == b.value() * a.scale().as_u64() ==> a.before(b) == (
        a.scale().as_u64() < b.scale().as_u64()),
{
}

/// A clock counts milliseconds since 2020: a stamp is the number of whole ones that have passed,
/// and there is none once they no longer fit a varint.
pub proof fn clock_counts_milliseconds(clock: Clock, at: Instant)
    requires
        clock.system + at.nanos - clock.anchor.nanos >= 1_577_836_800_000_000_000,
    ensures
        ({
            let since = clock.system + at.nanos - clock.anchor.nanos - 1_577_836_800_000_000_000;
            &&& clock.stamped(at) matches Ok(stamp) ==> stamp.value() * 1_000_000 <= since && since
                < (stamp.value() + 1) * 1_000_000
            &&& clock.stamped(at) is Ok <==> since < (VARINT_MAX + 1) * 1_000_000
        }),
{
    let since = clock.system + at.nanos - clock.anchor.nanos - 1_577_836_800_000_000_000;
    let millis = since / 1_000_000;
    if millis <= VARINT_MAX {
        Timestamp::of(0, Timescale::of(1_000)).parts(millis as u64, Timescale::of(1_000));
    }
}

/// A clock is set back by the jitter and no further, unless the machine's reading is beyond all
/// reason.
pub proof fn jitter_only_sets_back(reading: u128, jitter: u64)
    requires
        reading <= 0x1000_0000_0000_0000_0000_0000_0000_0000,
    ensures
        moved_back(Ok(reading), jitter) == reading - jitter * 1_000_000,
        moved_back(Err(reading), jitter) == -reading - jitter * 1_000_000,
{
}

/// The time between two points is never negative.
pub proof fn elapsed_time_saturates(a: Instant, b: Instant)
    ensures
        a.nanos >= b.nanos ==> b.nanos + a.since(b).nanos == a.nanos,
        a.nanos <= b.nanos ==> a.since(b).nanos == 0,
{
}

} // verus!
