//! Bags of `id -> raw bytes` parameters.

use vstd::prelude::*;

use crate::coding::decode::{tail_of, tail_of_self, tail_of_tail, Decode, DecodeError, Wire};
use crate::coding::encode::{followed_by, print_varint, Encode, EncodeError, RoundTrip};
use crate::coding::varint::{encode_varint, parse_varint, varint_bytes, varint_round_trip, VARINT_MAX};
use crate::lite::Version;

verus! {

broadcast use {tail_of_self, tail_of_tail};

/// The most parameters that a message may carry.
pub const MAX_PARAMS: u64 = 64;

/// Parameters in order: their ids and values.
pub type Entries = Seq<(u64, Seq<u8>)>;

/// Whether `entries` hold a parameter with the given id.
pub open spec fn has_param(entries: Entries, id: u64) -> bool {
    exists|i: int| 0 <= i < entries.len() && (#[trigger] entries[i]).0 == id
}

/// Whether no id occurs twice.
pub open spec fn distinct_params(entries: Entries) -> bool {
    forall|i: int, j: int|
        0 <= i < j < entries.len() ==> (#[trigger] entries[i]).0 != (#[trigger] entries[j]).0
}

/// The value of the parameter with the given id.
pub open spec fn param(entries: Entries, id: u64) -> Option<Seq<u8>>
    decreases entries.len(),
{
    if entries.len() == 0 {
        None
    } else if entries[0].0 == id {
        Some(entries[0].1)
    } else {
        param(entries.skip(1), id)
    }
}

/// `entries` with the parameter `id` set to `value`: in its place where it was, else at
/// the end.
pub open spec fn with_param(entries: Entries, id: u64, value: Seq<u8>) -> Entries {
    if has_param(entries, id) {
        entries.map_values(
            |entry: (u64, Seq<u8>)|
                if entry.0 == id {
                    (id, value)
                } else {
                    entry
                },
        )
    } else {
        entries.push((id, value))
    }
}

/// A parameter read back is what was set; the others are untouched.
pub proof fn param_of_with_param(entries: Entries, id: u64, value: Seq<u8>, other: u64)
    ensures
        param(with_param(entries, id, value), other) == if other == id {
            Some(value)
        } else {
            param(entries, other)
        },
    decreases entries.len(),
{
    let set = with_param(entries, id, value);
    if entries.len() == 0 {
        assert(set.skip(1) =~= seq![]);
    } else {
        let rest = entries.skip(1);
        if has_param(entries, id) {
            if has_param(rest, id) {
                assert(set.skip(1) =~= with_param(rest, id, value));
                param_of_with_param(rest, id, value, other);
            } else {
                let i = choose|i: int| 0 <= i < entries.len() && (#[trigger] entries[i]).0 == id;
                if i > 0 {
                    assert(rest[i - 1].0 == id);
                }
                assert(entries[0].0 == id);
                assert forall|j: int| 0 <= j < rest.len() implies set.skip(1)[j] == rest[j] by {
                    assert(rest[j].0 != id);
                }
                assert(set.skip(1) =~= rest);
            }
        } else {
            assert(entries[0].0 != id);
            assert forall|j: int| 0 <= j < rest.len() implies (#[trigger] rest[j]).0 != id by {
                assert(entries[j + 1].0 != id);
            }
            assert(set.skip(1) =~= with_param(rest, id, value));
            param_of_with_param(rest, id, value, other);
        }
    }
}

/// A parameter has a value exactly if there is one with its id.
pub proof fn param_iff_has(entries: Entries, id: u64)
    ensures
        param(entries, id) is Some <==> has_param(entries, id),
    decreases entries.len(),
{
    if entries.len() > 0 {
        let rest = entries.skip(1);
        param_iff_has(rest, id);
        if has_param(rest, id) {
            let i = choose|i: int| 0 <= i < rest.len() && (#[trigger] rest[i]).0 == id;
            assert(entries[i + 1].0 == id);
        }
        if has_param(entries, id) && entries[0].0 != id {
            let i = choose|i: int| 0 <= i < entries.len() && (#[trigger] entries[i]).0 == id;
            assert(rest[i - 1].0 == id);
        }
    }
}

struct Parameter {
    id: u64,
    value: Vec<u8>,
}

/// A bag of `id -> raw bytes` parameters, the body shared by SETUP (and any other
/// parameterized message). Encoded as a varint count followed by `id, length, value`
/// triples; duplicate ids are rejected on decode.
pub struct Parameters {
    list: Vec<Parameter>,
}

impl Default for Parameters {
    fn default() -> (r: Parameters)
        ensures
            r.entries() == Seq::<(u64, Seq<u8>)>::empty(),
    {
        let r: Parameters = Parameters { list: Vec::new() };
        assert(r.entries() =~= Seq::<(u64, Seq<u8>)>::empty());
        r
    }
}

spec fn entry_of(parameter: Parameter) -> (u64, Seq<u8>) {
    (parameter.id, parameter.value@)
}

impl Parameters {
    /// The parameters, in the order in which they travel.
    pub closed spec fn entries(self) -> Entries {
        self.list@.map_values(|parameter: Parameter| entry_of(parameter))
    }

    #[verifier::type_invariant]
    closed spec fn well_formed(self) -> bool {
        distinct_params(self.entries())
    }

    /// The position of a parameter.
    fn find(&self, id: u64) -> (r: Option<usize>)
        ensures
            match r {
                Some(i) => i < self.list@.len() && self.list@[i as int].id == id,
                None => !has_param(self.entries(), id),
            },
    {
        let mut i: usize = 0;
        while i < self.list.len()
            invariant
                i <= self.list.len(),
                forall|j: int| 0 <= j < i ==> (#[trigger] self.entries()[j]).0 != id,
            decreases self.list.len() - i,
        {
            assert(self.entries()[i as int].0 == self.list@[i as int].id);
            if self.list[i].id == id {
                return Some(i);
            }
            i += 1;
        }
        None
    }

    /// Set a parameter to a raw byte value, replacing any existing entry.
    pub fn set_bytes(&mut self, id: u64, value: Vec<u8>)
        ensures
            final(self).entries() == with_param(old(self).entries(), id, value@),
    {
        proof {
            use_type_invariant(&*self);
        }
        let ghost before = self.entries();
        match self.find(id) {
            Some(i) => {
                let ghost bytes = value@;
                let ghost list = self.list@;
                let mut list: Vec<Parameter> = Vec::new();
                std::mem::swap(&mut list, &mut self.list);
                list.set(i, Parameter { id, value });
                proof {
                    let after = list@.map_values(|parameter: Parameter| entry_of(parameter));
                    assert(before[i as int].0 == id);
                    assert forall|j: int| 0 <= j < before.len() implies after[j] == with_param(
                        before,
                        id,
                        bytes,
                    )[j] by {
                        if j != i {
                            assert(before[j].0 != id);
                        }
                    }
                    assert(after =~= with_param(before, id, bytes));
                    assert forall|a: int, b: int| 0 <= a < b < after.len() implies (
                    #[trigger] after[a]).0 != (#[trigger] after[b]).0 by {
                        assert(after[a].0 == before[a].0);
                        assert(after[b].0 == before[b].0);
                    }
                }
                self.list = list;
            },
            None => {
                let ghost bytes = value@;
                let mut list: Vec<Parameter> = Vec::new();
                std::mem::swap(&mut list, &mut self.list);
                list.push(Parameter { id, value });
                proof {
                    let after = list@.map_values(|parameter: Parameter| entry_of(parameter));
                    assert(after =~= before.push((id, bytes)));
                }
                self.list = list;
            },
        }
    }

    /// Borrow a parameter's raw byte value, if present.
    pub fn get_bytes(&self, id: u64) -> (r: Option<&[u8]>)
        ensures
            match r {
                Some(value) => param(self.entries(), id) == Some(value@),
                None => param(self.entries(), id) is None,
            },
    {
        proof {
            use_type_invariant(self);
            param_iff_has(self.entries(), id);
        }
        match self.find(id) {
            Some(i) => {
                proof {
                    assert(self.entries()[i as int] == (id, self.list@[i as int].value@));
                    param_at(self.entries(), i as int);
                }
                Some(self.list[i].value.as_slice())
            },
            None => None,
        }
    }

    /// Set a parameter to a varint value, replacing any existing entry.
    pub fn set_varint(&mut self, id: u64, value: u64)
        requires
            value <= VARINT_MAX,
        ensures
            final(self).entries() == with_param(old(self).entries(), id, varint_bytes(value)),
    {
        let mut buf: Vec<u8> = Vec::new();
        let _ = encode_varint(value, &mut buf);
        assert(buf@ =~= varint_bytes(value));
        self.set_bytes(id, buf);
    }

    /// Decode a parameter as a single varint, if present. Errors if trailing bytes remain.
    pub fn get_varint(&self, id: u64) -> (r: Result<Option<u64>, DecodeError>)
        ensures
            r == param_varint(self.entries(), id),
    {
        match self.get_bytes(id) {
            None => Ok(None),
            Some(bytes) => {
                let mut bytes: &[u8] = bytes;
                let value: u64 = u64::decode(&mut bytes, Version::Lite05)?;
                if bytes.len() > 0 {
                    return Err(DecodeError::Long);
                }
                Ok(Some(value))
            },
        }
    }
}

/// The parameter with the given id, read as a single varint.
pub open spec fn param_varint(entries: Entries, id: u64) -> Result<Option<u64>, DecodeError> {
    match param(entries, id) {
        None => Ok(None),
        Some(bytes) => match parse_varint(bytes) {
            (Err(e), _) => Err(e),
            (Ok(value), rest) => if rest.len() > 0 {
                Err(DecodeError::Long)
            } else {
                Ok(Some(value))
            },
        },
    }
}

/// With distinct ids, the value of a parameter is the one that stands with its id.
pub proof fn param_at(entries: Entries, i: int)
    requires
        distinct_params(entries),
        0 <= i < entries.len(),
    ensures
        param(entries, entries[i].0) == Some(entries[i].1),
    decreases entries.len(),
{
    if i > 0 {
        let rest = entries.skip(1);
        assert(entries[0].0 != entries[i].0);
        assert(rest[i - 1] == entries[i]);
        assert forall|a: int, b: int| 0 <= a < b < rest.len() implies (#[trigger] rest[a]).0 != (
        #[trigger] rest[b]).0 by {
            assert(entries[a + 1].0 != entries[b + 1].0);
        }
        param_at(rest, i - 1);
    }
}

/// Reading `count` more parameters after those `seen`.
pub open spec fn parse_params(bytes: Seq<u8>, count: nat, seen: Entries, version: Version) -> (
    Result<Entries, DecodeError>,
    Seq<u8>,
)
    decreases count,
{
    if count == 0 {
        (Ok(seen), bytes)
    } else {
        match parse_varint(bytes) {
            (Err(e), rest) => (Err(e), rest),
            (Ok(kind), rest) => if has_param(seen, kind) {
                (Err(DecodeError::Duplicate), rest)
            } else {
                match Vec::<u8>::parse(rest, version) {
                    (Err(e), rest) => (Err(e), rest),
                    (Ok(value), rest) => parse_params(
                        rest,
                        (count - 1) as nat,
                        seen.push((kind, value)),
                        version,
                    ),
                }
            },
        }
    }
}

/// Writing parameters, one after the other.
pub open spec fn print_params(entries: Entries, version: Version) -> Result<Seq<u8>, EncodeError>
    decreases entries.len(),
{
    if entries.len() == 0 {
        Ok(seq![])
    } else {
        followed_by(
            followed_by(
                print_varint(entries[0].0 as int),
                Vec::<u8>::print(entries[0].1, version),
            ),
            print_params(entries.skip(1), version),
        )
    }
}

impl Wire for Parameters {
    type Model = Entries;

    open spec fn model(&self) -> Entries {
        self.entries()
    }
}

impl Decode for Parameters {
    open spec fn parse(bytes: Seq<u8>, version: Version) -> (Result<Entries, DecodeError>, Seq<u8>) {
        match parse_varint(bytes) {
            (Err(e), rest) => (Err(e), rest),
            (Ok(count), rest) => if count > MAX_PARAMS {
                (Err(DecodeError::TooMany), rest)
            } else {
                parse_params(rest, count as nat, seq![], version)
            },
        }
    }

    fn decode(buf: &mut &[u8], version: Version) -> (r: Result<Parameters, DecodeError>) {
        let mut params: Parameters = Parameters::default();
        let count: u64 = u64::decode(buf, version)?;
        if count > MAX_PARAMS {
            return Err(DecodeError::TooMany);
        }
        let ghost start = buf@;
        let mut i: u64 = 0;
        while i < count
            invariant
                i <= count,
                count <= MAX_PARAMS,
                tail_of(buf@, old(buf)@),
                parse_varint(old(buf)@) == (Ok::<u64, DecodeError>(count), start),
                parse_params(start, count as nat, seq![], version) == parse_params(
                    buf@,
                    (count - i) as nat,
                    params.entries(),
                    version,
                ),
            decreases count - i,
        {
            let ghost seen = params.entries();
            let kind: u64 = u64::decode(buf, version)?;
            proof {
                param_iff_has(seen, kind);
            }
            if params.get_bytes(kind).is_some() {
                return Err(DecodeError::Duplicate);
            }
            let value: Vec<u8> = Vec::<u8>::decode(buf, version)?;
            params.set_bytes(kind, value);
            i += 1;
        }
        Ok(params)
    }
}

impl Encode for Parameters {
    open spec fn print(model: Entries, version: Version) -> Result<Seq<u8>, EncodeError> {
        if model.len() > MAX_PARAMS {
            Err(EncodeError::TooMany)
        } else {
            followed_by(print_varint(model.len() as int), print_params(model, version))
        }
    }

    fn encode(&self, buf: &mut Vec<u8>, version: Version) -> (r: Result<(), EncodeError>) {
        let ghost all = self.entries();
        if self.list.len() as u64 > MAX_PARAMS {
            return Err(EncodeError::TooMany);
        }
        let mut body: Vec<u8> = Vec::new();
        self.list.len().encode(&mut body, version)?;
        let ghost count = varint_bytes(all.len() as u64);
        assert(body@ =~= count);
        let mut i: usize = 0;
        assert(all.skip(0) =~= all);
        while i < self.list.len()
            invariant
                i <= self.list.len(),
                self.list.len() <= MAX_PARAMS,
                all == self.entries(),
                buf@ == old(buf)@,
                followed_by(Ok(count), print_params(all, version)) == followed_by(
                    Ok(body@),
                    print_params(all.skip(i as int), version),
                ),
                count == varint_bytes(all.len() as u64),
            decreases self.list.len() - i,
        {
            let ghost before = body@;
            let ghost entry = all[i as int];
            let ghost tail = print_params(all.skip(i + 1), version);
            assert(all.skip(i as int)[0] == entry);
            assert(all.skip(i as int).skip(1) =~= all.skip(i + 1));
            assert(entry == (self.list@[i as int].id, self.list@[i as int].value@));
            self.list[i].id.encode(&mut body, version)?;
            self.list[i].value.encode(&mut body, version)?;
            i += 1;
            proof {
                let first = print_varint(entry.0 as int)->Ok_0;
                let second = Vec::<u8>::print(entry.1, version)->Ok_0;
                match tail {
                    Ok(bytes) => {
                        assert(before + ((first + second) + bytes) =~= ((before + first) + second)
                            + bytes);
                    },
                    _ => {},
                }
            }
        }
        assert(body@ + seq![] =~= body@);
        buf.append(&mut body);
        Ok(())
    }
}

proof fn params_round_trip(
    entries: Entries,
    seen: Entries,
    version: Version,
    rest: Seq<u8>,
)
    requires
        distinct_params(seen + entries),
        print_params(entries, version) is Ok,
        print_params(entries, version)->Ok_0.len() <= usize::MAX,
    ensures
        parse_params(
            print_params(entries, version)->Ok_0 + rest,
            entries.len(),
            seen,
            version,
        ) == (Ok::<Entries, DecodeError>(seen + entries), rest),
    decreases entries.len(),
{
    if entries.len() == 0 {
        assert(seen + entries =~= seen);
        assert(Seq::<u8>::empty() + rest =~= rest);
    } else {
        let entry = entries[0];
        let a = print_varint(entry.0 as int)->Ok_0;
        let b = Vec::<u8>::print(entry.1, version)->Ok_0;
        let c = print_params(entries.skip(1), version)->Ok_0;
        assert(((a + b) + c) + rest =~= a + (b + (c + rest)));
        varint_round_trip(entry.0, b + (c + rest));
        Vec::<u8>::round_trip(entry.1, version, c + rest);
        assert(!has_param(seen, entry.0)) by {
            assert((seen + entries)[seen.len() as int] == entry);
            assert forall|i: int| 0 <= i < seen.len() implies (#[trigger] seen[i]).0 != entry.0 by {
                assert((seen + entries)[i] == seen[i]);
            }
        }
        assert(seen.push(entry) + entries.skip(1) =~= seen + entries);
        params_round_trip(entries.skip(1), seen.push(entry), version, rest);
    }
}

impl RoundTrip for Parameters {
    open spec fn legal(model: Entries) -> bool {
        distinct_params(model)
    }

    open spec fn carried(model: Entries, version: Version) -> Entries {
        model
    }

    proof fn round_trip(model: Entries, version: Version, rest: Seq<u8>) {
        let a = print_varint(model.len() as int)->Ok_0;
        let b = print_params(model, version)->Ok_0;
        assert((a + b) + rest =~= a + (b + rest));
        varint_round_trip(model.len() as u64, b + rest);
        assert(Seq::<(u64, Seq<u8>)>::empty() + model =~= model);
        params_round_trip(model, seq![], version, rest);
    }
}

} // verus!
