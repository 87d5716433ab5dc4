//! How routes to one broadcast are ranked.

use vstd::prelude::*;
use vstd::utf8::*;

use crate::model::origin::{Origin, OriginList};
use crate::path::{join_path, Path};

verus! {

/// Where the hash of a route starts.
pub const SEED: u64 = 0x420C_0DEC_B00B;

/// What the hash of a route is multiplied by: the standard FNV-64 prime.
pub const FNV_PRIME: u64 = 0x0000_0100_0000_01b3;

/// The hash once one more byte has been mixed in.
pub open spec fn fnv_step(hash: u64, byte: u8) -> u64 {
    (((hash ^ (byte as u64)) * FNV_PRIME) % 0x1_0000_0000_0000_0000) as u64
}

/// The hash once all of `bytes` have been mixed in.
pub open spec fn fnv(hash: u64, bytes: Seq<u8>) -> u64
    decreases bytes.len(),
{
    if bytes.len() == 0 {
        hash
    } else {
        fnv_step(fnv(hash, bytes.drop_last()), bytes.last())
    }
}

/// The bytes of an id, the lowest first.
pub open spec fn le_bytes(id: u64) -> Seq<u8> {
    Seq::new(8, |i: int| le_byte(id, i))
}

/// Byte `i` of an id, counted from the lowest.
pub open spec fn le_byte(id: u64, i: int) -> u8
    decreases i,
{
    if i <= 0 {
        (id % 256) as u8
    } else {
        le_byte((id / 256) as u64, i - 1)
    }
}

/// The bytes of all ids in a chain.
pub open spec fn hop_bytes(hops: Seq<Origin>) -> Seq<u8>
    decreases hops.len(),
{
    if hops.len() == 0 {
        seq![]
    } else {
        hop_bytes(hops.drop_last()) + le_bytes(hops.last().id())
    }
}

/// Ordering key used to pick the active route among broadcasts at the same path.
///
/// Lower wins. Shorter hop chains sort first (routing prefers the shortest path); remaining
/// ties break on a deterministic hash of the broadcast name and hop chain. Every node in the
/// cluster, given the same candidate routes, converges on the same winner: the hops are
/// forwarded unchanged, and the hash is build-stable. Mixing the name in spreads equal routes
/// across different upstreams rather than funneling onto one.
#[derive(Clone, Copy, Debug, PartialEq, Eq, Structural)]
pub struct RouteKey {
    pub hops: usize,
    pub hash: u64,
}

impl RouteKey {
    /// Whether this key sorts before `other`.
    pub open spec fn spec_less(self, other: RouteKey) -> bool {
        self.hops < other.hops || self.hops == other.hops && self.hash < other.hash
    }

    /// Whether this key sorts before `other`.
    #[verifier::when_used_as_spec(spec_less)]
    pub fn less(self, other: RouteKey) -> (r: bool)
        ensures
            r == self.less(other),
    {
        self.hops < other.hops || self.hops == other.hops && self.hash < other.hash
    }
}

/// The ordering key of a route with the given hop chain, at the given path.
pub open spec fn key_of(path: Seq<Seq<char>>, hops: Seq<Origin>) -> RouteKey {
    RouteKey {
        hops: hops.len() as usize,
        hash: fnv(fnv(SEED, encode_utf8(join_path(path))), hop_bytes(hops)),
    }
}

fn mix(hash: u64, byte: u8) -> (r: u64)
    ensures
        r == fnv_step(hash, byte),
{
    (hash ^ (byte as u64)).wrapping_mul(FNV_PRIME)
}

/// Mixing bytes in two steps is mixing them in one.
proof fn fnv_append(hash: u64, a: Seq<u8>, b: Seq<u8>)
    ensures
        fnv(hash, a + b) == fnv(fnv(hash, a), b),
    decreases b.len(),
{
    if b.len() == 0 {
        assert(a + b =~= a);
    } else {
        assert((a + b).drop_last() =~= a + b.drop_last());
        fnv_append(hash, a, b.drop_last());
    }
}

/// The ordering key of a route.
pub fn route_key(path: &Path, hops: &OriginList) -> (r: RouteKey)
    ensures
        r == key_of(path@, hops@),
{
    let text: String = path.to_text();
    let bytes: &[u8] = text.as_str().as_bytes();
    let mut hash: u64 = SEED;
    let mut i: usize = 0;
    while i < bytes.len()
        invariant
            i <= bytes@.len(),
            hash == fnv(SEED, bytes@.take(i as int)),
        decreases bytes@.len() - i,
    {
        hash = mix(hash, bytes[i]);
        assert(bytes@.take(i + 1).drop_last() =~= bytes@.take(i as int));
        i += 1;
    }
    assert(bytes@.take(i as int) =~= bytes@);
    let ghost name = hash;
    let list: &[Origin] = hops.as_slice();
    let mut h: usize = 0;
    assert(list@.take(0) =~= seq![]);
    while h < list.len()
        invariant
            h <= list@.len(),
            hash == fnv(name, hop_bytes(list@.take(h as int))),
        decreases list@.len() - h,
    {
        let ghost before = hash;
        let id: u64 = list[h].id();
        let mut rest: u64 = id;
        let mut k: usize = 0;
        while k < 8
            invariant
                k <= 8,
                hash == fnv(before, le_bytes(id).take(k as int)),
                forall|j: int| 0 <= j < 8 - k ==> le_byte(id, j + k) == #[trigger] le_byte(rest, j),
            decreases 8 - k,
        {
            assert(le_byte(id, 0 + k) == le_byte(rest, 0));
            hash = mix(hash, (rest % 256) as u8);
            assert(le_bytes(id).take(k + 1).drop_last() =~= le_bytes(id).take(k as int));
            assert forall|j: int| 0 <= j < 8 - k - 1 implies le_byte(id, j + k + 1)
                == #[trigger] le_byte((rest / 256) as u64, j) by {
                assert(le_byte(id, (j + 1) + k) == le_byte(rest, j + 1));
            }
            rest = rest / 256;
            k += 1;
        }
        assert(le_bytes(id).take(8) =~= le_bytes(id));
        proof {
            assert(list@.take(h + 1).drop_last() =~= list@.take(h as int));
            fnv_append(name, hop_bytes(list@.take(h as int)), le_bytes(id));
        }
        h += 1;
    }
    assert(list@.take(h as int) =~= list@);
    RouteKey { hops: list.len(), hash }
}

/// Route keys are totally ordered: of two different ones, exactly one sorts first.
pub proof fn route_keys_are_ordered(a: RouteKey, b: RouteKey, c: RouteKey)
    ensures
        !a.less(a),
        a != b ==> a.less(b) != b.less(a),
        a.less(b) && b.less(c) ==> a.less(c),
        a.hops < b.hops ==> a.less(b),
        a.hops == b.hops ==> a.less(b) == (a.hash < b.hash),
{
}

/// A shorter hop chain always sorts first.
pub proof fn shorter_route_first(path: Seq<Seq<char>>, a: Seq<Origin>, b: Seq<Origin>)
    requires
        a.len() < b.len() <= usize::MAX,
    ensures
        key_of(path, a).less(key_of(path, b)),
{
}

} // verus!
