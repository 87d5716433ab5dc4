//! Origins: the identities that relays stamp onto the route of a broadcast.

use vstd::prelude::*;
use vstd::std_specs::iter::IteratorSpec;

use crate::coding::decode::{tail_of_self, tail_of_tail, Decode, DecodeError, Wire};
use crate::coding::encode::{followed_by, print_varint, Encode, EncodeError, RoundTrip};
use crate::coding::list::{
    carried_list, decode_list, encode_list, list_round_trip, models, parse_list, parse_list_len, print_list,
};
use crate::coding::varint::{parse_varint, varint_bytes, varint_round_trip, varint_value_in_range, VARINT_MAX};
use crate::lite::Version;
use crate::model::cache::Pool;
use crate::model::handles::Producer;
use crate::random::random_between;
use crate::text::{decimal, decimal_string};

verus! {

broadcast use {tail_of_self, tail_of_tail};

/// A relay origin, identified by a 62-bit varint on the wire.
///
/// Local origins are built with [`Origin::new`] or [`Origin::random`], both of
/// which guarantee a non-zero id so loop detection can work. Remote peers may
/// still send `0`; it is legal on the wire but cannot be used for loop detection.
#[derive(Debug, Clone, Copy, PartialEq, Eq, Structural, Hash)]
pub struct Origin {
    id: u64,
}

/// Returned when a local origin id is zero or outside the 62-bit wire range.
#[derive(Debug, Clone, Copy, PartialEq, Eq, Structural)]
#[non_exhaustive]
pub struct InvalidOrigin;

impl InvalidOrigin {
    /// What went wrong, in words.
    pub fn message(self) -> (r: &'static str)
        ensures
            r@ == "local origin id must be non-zero and below 2^62"@,
    {
        "local origin id must be non-zero and below 2^62"
    }
}

impl Origin {
    #[verifier::type_invariant]
    closed spec fn in_range(self) -> bool {
        self.id <= VARINT_MAX
    }

    /// The origin's wire id.
    pub closed spec fn spec_id(self) -> u64 {
        self.id
    }

    /// The origin with the given wire id.
    pub closed spec fn of(id: u64) -> Origin {
        Origin { id }
    }

    /// An origin is determined by its id.
    pub proof fn id_of(self)
        ensures
            Origin::of(self.id()) == self,
    {
    }

    /// Placeholder for hop entries whose actual id is not on the wire (Lite03).
    /// Also used for remote peers that choose the legal but loop-blind id 0.
    pub fn unknown() -> (r: Origin)
        ensures
            r == Origin::of(0),
            r.id() == 0,
    {
        Origin { id: 0 }
    }

    /// Build an origin from a stable id.
    ///
    /// The id must be non-zero and fit in the 62-bit QUIC varint range. Wire
    /// decode accepts remote id 0, but local origins should not use it because
    /// downstream peers cannot exclude it for loop detection.
    pub fn new(id: u64) -> (r: Result<Origin, InvalidOrigin>)
        ensures
            r is Ok <==> 0 < id <= VARINT_MAX,
            r matches Ok(origin) ==> origin == Origin::of(id) && origin.id() == id,
    {
        if id == 0 || id > VARINT_MAX {
            return Err(InvalidOrigin);
        }
        Ok(Origin { id })
    }

    /// Generate a fresh origin with a random non-zero id below `2^53`. Use this for any
    /// origin that does not need a stable identity across restarts.
    ///
    /// The wire format allows 62 bits, but older clients decode the id as a 53-bit
    /// number and throw on anything larger.
    pub fn random() -> (r: Origin)
        ensures
            0 < r.id() < 0x20_0000_0000_0000,
    {
        Origin { id: random_between(1, 0x20_0000_0000_0000) }
    }

    /// Return the origin's wire id.
    #[verifier::when_used_as_spec(spec_id)]
    pub fn id(self) -> (r: u64)
        ensures
            r == self.id(),
            r <= VARINT_MAX,
            self == Origin::of(r),
    {
        proof {
            use_type_invariant(self);
        }
        self.id
    }

    /// Consume this origin to create a producer that carries its id, with an unbounded cache
    /// pool. Use [`Info::produce`] to configure the pool.
    pub fn produce(self) -> (r: Producer)
        ensures
            r.info == self,
            r.pool.capacity is None,
            r.reach.root@ == Seq::<Seq<char>>::empty(),
            r.reach.scope@ == seq![Seq::<Seq<char>>::empty()],
    {
        Info::new(self).produce()
    }

    /// The id in decimal.
    pub fn display_string(self) -> (r: String)
        ensures
            r@ == decimal(self.id() as nat),
    {
        decimal_string(self.id as u128)
    }
}

impl Wire for Origin {
    type Model = Origin;

    open spec fn model(&self) -> Origin {
        *self
    }
}

impl Decode for Origin {
    /// The id, zero included.
    open spec fn parse(bytes: Seq<u8>, version: Version) -> (Result<Origin, DecodeError>, Seq<u8>) {
        match parse_varint(bytes) {
            (Ok(id), rest) => (Ok(Origin::of(id)), rest),
            (Err(e), rest) => (Err(e), rest),
        }
    }

    fn decode(buf: &mut &[u8], version: Version) -> (r: Result<Origin, DecodeError>) {
        let id: u64 = u64::decode(buf, version)?;
        proof {
            varint_value_in_range(old(buf)@);
        }
        Ok(Origin { id })
    }
}

impl Encode for Origin {
    open spec fn print(model: Origin, version: Version) -> Result<Seq<u8>, EncodeError> {
        print_varint(model.id() as int)
    }

    fn encode(&self, buf: &mut Vec<u8>, version: Version) -> (r: Result<(), EncodeError>) {
        self.id.encode(buf, version)
    }
}

impl RoundTrip for Origin {
    open spec fn legal(model: Origin) -> bool {
        true
    }

    open spec fn carried(model: Origin, version: Version) -> Origin {
        model
    }

    proof fn round_trip(model: Origin, version: Version, rest: Seq<u8>) {
        varint_round_trip(model.id(), rest);
    }
}

/// Maximum number of origins (hops) an [`OriginList`] can hold.
///
/// Caps pathological or loop-induced announcements at a reasonable cluster
/// diameter; appending past this limit returns [`TooManyOrigins`] rather than
/// silently truncating.
pub const MAX_HOPS: usize = 32;

/// Bounded list of [`Origin`] entries, typically the hop chain of a broadcast.
///
/// Never holds more than [`MAX_HOPS`]. Construct via [`OriginList::new`] +
/// [`OriginList::push`], or fall back to [`OriginList::try_from_vec`].
#[derive(Debug, PartialEq, Eq)]
pub struct OriginList {
    list: Vec<Origin>,
}

/// Returned when an operation would grow an [`OriginList`] past its hop-count cap.
#[derive(Debug, Clone, Copy, PartialEq, Eq, Structural)]
#[non_exhaustive]
pub struct TooManyOrigins;

impl TooManyOrigins {
    /// What went wrong, in words.
    pub fn message(self) -> (r: &'static str)
        ensures
            r@ == "too many origins (max 32)"@,
    {
        "too many origins (max 32)"
    }
}

impl View for OriginList {
    type V = Seq<Origin>;

    closed spec fn view(&self) -> Seq<Origin> {
        self.list@
    }
}

impl Clone for OriginList {
    fn clone(&self) -> (r: OriginList)
        ensures
            r@ == self@,
            r@.len() <= MAX_HOPS,
    {
        proof {
            use_type_invariant(self);
        }
        let mut list: Vec<Origin> = Vec::new();
        let mut i: usize = 0;
        while i < self.list.len()
            invariant
                i <= self.list.len(),
                list@ == self.list@.take(i as int),
            decreases self.list.len() - i,
        {
            list.push(self.list[i]);
            i += 1;
            assert(list@ =~= self.list@.take(i as int));
        }
        assert(list@ =~= self.list@);
        OriginList { list }
    }
}

impl Default for OriginList {
    fn default() -> (r: OriginList)
        ensures
            r@ == Seq::<Origin>::empty(),
    {
        OriginList { list: Vec::new() }
    }
}

impl OriginList {
    #[verifier::type_invariant]
    closed spec fn bounded(self) -> bool {
        self.list@.len() <= MAX_HOPS
    }

    /// Create an empty list.
    pub fn new() -> (r: OriginList)
        ensures
            r@ == Seq::<Origin>::empty(),
    {
        OriginList { list: Vec::new() }
    }

    /// Append an [`Origin`]. Returns [`TooManyOrigins`] if the list is full.
    pub fn push(&mut self, origin: Origin) -> (r: Result<(), TooManyOrigins>)
        ensures
            r is Ok <==> old(self)@.len() < MAX_HOPS,
            r is Ok ==> final(self)@ == old(self)@.push(origin),
            r is Err ==> final(self)@ == old(self)@,
            final(self)@.len() <= MAX_HOPS,
    {
        proof {
            use_type_invariant(&*self);
        }
        if self.list.len() >= MAX_HOPS {
            return Err(TooManyOrigins);
        }
        let mut list: Vec<Origin> = Vec::new();
        std::mem::swap(&mut list, &mut self.list);
        list.push(origin);
        self.list = list;
        Ok(())
    }

    /// Replace the first entry equal to `target` with `replacement`, returning
    /// true if a match was found. The length is unchanged.
    pub fn replace_first(&mut self, target: Origin, replacement: Origin) -> (r: bool)
        ensures
            r == old(self)@.contains(target),
            !r ==> final(self)@ == old(self)@,
            r ==> exists|i: int|
                #![trigger old(self)@[i]]
                {
                    &&& 0 <= i < old(self)@.len()
                    &&& old(self)@[i] == target
                    &&& forall|j: int| 0 <= j < i ==> old(self)@[j] != target
                    &&& final(self)@ == old(self)@.update(i, replacement)
                },
    {
        proof {
            use_type_invariant(&*self);
        }
        let mut i: usize = 0;
        while i < self.list.len()
            invariant
                i <= self.list.len() <= MAX_HOPS,
                self.list@ == old(self)@,
                forall|j: int| 0 <= j < i ==> self.list@[j] != target,
            decreases self.list.len() - i,
        {
            if self.list[i] == target {
                let mut list: Vec<Origin> = Vec::new();
                std::mem::swap(&mut list, &mut self.list);
                list.set(i, replacement);
                self.list = list;
                assert(old(self)@[i as int] == target);
                return true;
            }
            i += 1;
        }
        false
    }

    /// Returns true if any entry matches `origin`.
    pub fn contains(&self, origin: &Origin) -> (r: bool)
        ensures
            r == self@.contains(*origin),
    {
        let mut i: usize = 0;
        while i < self.list.len()
            invariant
                i <= self.list.len(),
                forall|j: int| 0 <= j < i ==> self.list@[j] != *origin,
            decreases self.list.len() - i,
        {
            if self.list[i] == *origin {
                return true;
            }
            i += 1;
        }
        false
    }

    /// Returns true if any entry has the given id.
    pub fn contains_id(&self, id: u64) -> (r: bool)
        ensures
            r == self@.contains(Origin::of(id)),
    {
        let mut i: usize = 0;
        while i < self.list.len()
            invariant
                i <= self.list.len(),
                forall|j: int| 0 <= j < i ==> self.list@[j] != Origin::of(id),
            decreases self.list.len() - i,
        {
            if self.list[i].id == id {
                return true;
            }
            i += 1;
        }
        false
    }

    /// Number of entries currently in the list (always `<= MAX_HOPS`).
    pub fn len(&self) -> (r: usize)
        ensures
            r == self@.len(),
            r <= MAX_HOPS,
    {
        proof {
            use_type_invariant(self);
        }
        self.list.len()
    }

    /// Whether the list contains no entries.
    pub fn is_empty(&self) -> (r: bool)
        ensures
            r == (self@.len() == 0),
    {
        self.list.len() == 0
    }

    /// Iterate over the entries in hop order (oldest first).
    pub fn iter(&self) -> (r: std::slice::Iter<'_, Origin>)
        ensures
            IteratorSpec::remaining(&r) == self@.map_values(|origin: Origin| &origin),
    {
        self.list.iter()
    }

    /// Borrow the entries as a slice.
    pub fn as_slice(&self) -> (r: &[Origin])
        ensures
            r@ == self@,
    {
        self.list.as_slice()
    }

    /// The list with the given entries, unless there are too many.
    pub fn try_from_vec(list: Vec<Origin>) -> (r: Result<OriginList, TooManyOrigins>)
        ensures
            r is Ok <==> list@.len() <= MAX_HOPS,
            r matches Ok(origins) ==> origins@ == list@,
    {
        if list.len() > MAX_HOPS {
            return Err(TooManyOrigins);
        }
        Ok(OriginList { list })
    }

    /// Whether two lists hold the same entries in the same order.
    pub fn same(&self, other: &OriginList) -> (r: bool)
        ensures
            r == (self@ == other@),
    {
        if self.list.len() != other.list.len() {
            return false;
        }
        let mut i: usize = 0;
        while i < self.list.len()
            invariant
                i <= self.list.len(),
                self.list.len() == other.list.len(),
                forall|j: int| 0 <= j < i ==> self.list@[j] == other.list@[j],
            decreases self.list.len() - i,
        {
            if self.list[i] != other.list[i] {
                return false;
            }
            i += 1;
        }
        assert(self@ =~= other@);
        true
    }
}

impl Wire for OriginList {
    type Model = Seq<Origin>;

    open spec fn model(&self) -> Seq<Origin> {
        self@
    }
}

impl Decode for OriginList {
    /// A varint count of at most [`MAX_HOPS`], then that many origins.
    open spec fn parse(bytes: Seq<u8>, version: Version) -> (
        Result<Seq<Origin>, DecodeError>,
        Seq<u8>,
    ) {
        match parse_varint(bytes) {
            (Err(e), rest) => (Err(e), rest),
            (Ok(count), rest) => if count > MAX_HOPS {
                (Err(DecodeError::BoundsExceeded), rest)
            } else {
                parse_list::<Origin>(rest, count as nat, version)
            },
        }
    }

    fn decode(buf: &mut &[u8], version: Version) -> (r: Result<OriginList, DecodeError>) {
        let count: u64 = u64::decode(buf, version)?;
        if count > MAX_HOPS as u64 {
            return Err(DecodeError::BoundsExceeded);
        }
        let ghost rest = buf@;
        let list: Vec<Origin> = decode_list::<Origin>(buf, count, version)?;
        proof {
            assert(models(list@) =~= list@);
            parse_list_len::<Origin>(rest, count as nat, version);
        }
        Ok(OriginList { list })
    }
}

impl Encode for OriginList {
    /// A varint count, then the origins.
    open spec fn print(model: Seq<Origin>, version: Version) -> Result<Seq<u8>, EncodeError> {
        followed_by(print_varint(model.len() as int), print_list::<Origin>(model, version))
    }

    fn encode(&self, buf: &mut Vec<u8>, version: Version) -> (r: Result<(), EncodeError>) {
        let mut body: Vec<u8> = Vec::new();
        (self.list.len() as u64).encode(&mut body, version)?;
        assert(models(self.list@) =~= self@);
        encode_list::<Origin>(&self.list, &mut body, version)?;
        buf.append(&mut body);
        proof {
            let count = varint_bytes(self@.len() as u64);
            let list = print_list::<Origin>(self@, version)->Ok_0;
            assert(old(buf)@ + (Seq::<u8>::empty() + count + list) =~= old(buf)@ + (count + list));
        }
        Ok(())
    }
}

impl RoundTrip for OriginList {
    open spec fn legal(model: Seq<Origin>) -> bool {
        model.len() <= MAX_HOPS
    }

    open spec fn carried(model: Seq<Origin>, version: Version) -> Seq<Origin> {
        model
    }

    proof fn round_trip(model: Seq<Origin>, version: Version, rest: Seq<u8>) {
        let count = varint_bytes(model.len() as u64);
        let list = print_list::<Origin>(model, version)->Ok_0;
        varint_round_trip(model.len() as u64, list + rest);
        assert((count + list) + rest =~= count + (list + rest));
        list_round_trip::<Origin>(model, version, rest);
        assert(carried_list::<Origin>(model, version) =~= model);
    }
}

/// An origin's identity plus the cache pool its broadcasts inherit.
///
/// The construction config for an origin, and the parent handle every broadcast carries.
#[derive(Clone, Copy, Debug, PartialEq, Eq, Structural)]
#[non_exhaustive]
pub struct Info {
    /// The origin's wire identity, appended to broadcast hop chains for loop detection and
    /// shortest-path routing.
    pub id: Origin,
    /// The cache pool broadcasts under this origin register their groups with. Unbounded by
    /// default.
    pub pool: Pool,
}

impl Default for Info {
    /// An unknown origin (id `0`, no loop detection) with an unbounded pool. This is what a
    /// standalone broadcast (no relay origin) inherits.
    fn default() -> (r: Info)
        ensures
            r.id == Origin::of(0),
            r.pool.capacity is None,
    {
        Info { id: Origin::unknown(), pool: Pool::default() }
    }
}

impl Info {
    /// Config for the given origin id with an unbounded cache pool.
    pub fn new(id: Origin) -> (r: Info)
        ensures
            r.id == id,
            r.pool.capacity is None,
    {
        Info { id, pool: Pool::default() }
    }

    /// Set the cache pool this origin's broadcasts inherit, returning `self` for chaining.
    pub fn with_pool(self, pool: Pool) -> (r: Info)
        ensures
            r == (Info { pool, ..self }),
    {
        Info { pool, ..self }
    }

    /// Consume this config to create an origin producer.
    pub fn produce(self) -> (r: Producer)
        ensures
            r.info == self.id,
            r.pool == self.pool,
            r.reach.root@ == Seq::<Seq<char>>::empty(),
            r.reach.scope@ == seq![Seq::<Seq<char>>::empty()],
    {
        Producer::new(self)
    }
}

} // verus!
