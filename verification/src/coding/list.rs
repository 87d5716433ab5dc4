//! Runs of values without a prefix of their own.

use vstd::prelude::*;

use crate::coding::decode::{tail_of, tail_of_self, tail_of_tail, Decode, DecodeError, Wire};
use crate::coding::encode::{followed_by, Encode, EncodeError, RoundTrip};
use crate::lite::Version;

verus! {

broadcast use {tail_of_self, tail_of_tail};

/// What the values of a list stand for.
pub open spec fn models<T: Wire>(values: Seq<T>) -> Seq<T::Model> {
    values.map_values(|value: T| value.model())
}

/// What a trip over the wire leaves of each value of a list.
pub open spec fn carried_list<T: RoundTrip>(
    values: Seq<T::Model>,
    version: Version,
) -> Seq<T::Model> {
    values.map_values(|value: T::Model| T::carried(value, version))
}

/// Put what was read already in front of what reading on gives.
pub open spec fn prepend<M>(
    read: Seq<M>,
    more: (Result<Seq<M>, DecodeError>, Seq<u8>),
) -> (Result<Seq<M>, DecodeError>, Seq<u8>) {
    match more {
        (Ok(list), rest) => (Ok(read + list), rest),
        (Err(e), rest) => (Err(e), rest),
    }
}

/// Reading `count` values, one after the other.
pub open spec fn parse_list<T: Decode>(bytes: Seq<u8>, count: nat, version: Version) -> (
    Result<Seq<T::Model>, DecodeError>,
    Seq<u8>,
)
    decreases count,
{
    if count == 0 {
        (Ok(seq![]), bytes)
    } else {
        match T::parse(bytes, version) {
            (Err(e), rest) => (Err(e), rest),
            (Ok(first), rest) => prepend(
                seq![first],
                parse_list::<T>(rest, (count - 1) as nat, version),
            ),
        }
    }
}

/// Writing values, one after the other.
pub open spec fn print_list<T: Encode>(list: Seq<T::Model>, version: Version) -> Result<
    Seq<u8>,
    EncodeError,
>
    decreases list.len(),
{
    if list.len() == 0 {
        Ok(seq![])
    } else {
        followed_by(T::print(list[0], version), print_list::<T>(list.skip(1), version))
    }
}

/// Reading `count` values gives that many.
pub proof fn parse_list_len<T: Decode>(bytes: Seq<u8>, count: nat, version: Version)
    ensures
        parse_list::<T>(bytes, count, version).0 matches Ok(list) ==> list.len() == count,
    decreases count,
{
    if count > 0 {
        match T::parse(bytes, version) {
            (Ok(_), rest) => parse_list_len::<T>(rest, (count - 1) as nat, version),
            _ => {},
        }
    }
}

/// Read `count` values, one after the other.
pub fn decode_list<T: Decode>(buf: &mut &[u8], count: u64, version: Version) -> (r: Result<
    Vec<T>,
    DecodeError,
>)
    ensures
        match r {
            Ok(list) => parse_list::<T>(old(buf)@, count as nat, version).0 == Ok::<
                Seq<T::Model>,
                DecodeError,
            >(models(list@)),
            Err(e) => parse_list::<T>(old(buf)@, count as nat, version).0 == Err::<
                Seq<T::Model>,
                DecodeError,
            >(e),
        },
        final(buf)@ == parse_list::<T>(old(buf)@, count as nat, version).1,
        tail_of(final(buf)@, old(buf)@),
{
    let mut list: Vec<T> = Vec::new();
    let mut i: u64 = 0;
    let ghost start = buf@;
    assert(models(list@) =~= seq![]);
    assert(prepend(models(list@), parse_list::<T>(start, count as nat, version)) =~= parse_list::<
        T,
    >(start, count as nat, version)) by {
        match parse_list::<T>(start, count as nat, version) {
            (Ok(all), _) => {
                assert(models(list@) + all =~= all);
            },
            _ => {},
        }
    }
    while i < count
        invariant
            i <= count,
            start == old(buf)@,
            tail_of(buf@, start),
            parse_list::<T>(start, count as nat, version) == prepend(
                models(list@),
                parse_list::<T>(buf@, (count - i) as nat, version),
            ),
        decreases count - i,
    {
        let ghost before = models(list@);
        let ghost more = parse_list::<T>(buf@, (count - i) as nat, version);
        match T::decode(buf, version) {
            Err(e) => {
                return Err(e);
            },
            Ok(value) => {
                let ghost model = value.model();
                list.push(value);
                i += 1;
                proof {
                    assert(models(list@) =~= before.push(model));
                    match parse_list::<T>(buf@, (count - i) as nat, version) {
                        (Ok(tail), _) => {
                            assert(before + (seq![model] + tail) =~= before.push(model) + tail);
                        },
                        _ => {},
                    }
                }
            },
        }
    }
    assert(models(list@) + seq![] =~= models(list@));
    Ok(list)
}

/// Append values, one after the other. The buffer stays as it is on an error.
pub fn encode_list<T: Encode>(list: &Vec<T>, buf: &mut Vec<u8>, version: Version) -> (r: Result<
    (),
    EncodeError,
>)
    ensures
        match print_list::<T>(models(list@), version) {
            Ok(bytes) => r is Ok && final(buf)@ == old(buf)@ + bytes,
            Err(e) => r == Err::<(), EncodeError>(e) && final(buf)@ == old(buf)@,
        },
{
    let mut body: Vec<u8> = Vec::new();
    let mut i: usize = 0;
    let ghost all = models(list@);
    assert(all.skip(0) =~= all);
    assert(followed_by(Ok(body@), print_list::<T>(all, version)) =~= print_list::<T>(all, version))
        by {
        match print_list::<T>(all, version) {
            Ok(bytes) => {
                assert(body@ + bytes =~= bytes);
            },
            _ => {},
        }
    }
    while i < list.len()
        invariant
            i <= list.len(),
            buf@ == old(buf)@,
            all == models(list@),
            print_list::<T>(all, version) == followed_by(
                Ok(body@),
                print_list::<T>(all.skip(i as int), version),
            ),
        decreases list.len() - i,
    {
        let ghost before = body@;
        let ghost tail = print_list::<T>(all.skip(i + 1), version);
        assert(all.skip(i as int)[0] == list@[i as int].model());
        assert(all.skip(i as int).skip(1) =~= all.skip(i + 1));
        list[i].encode(&mut body, version)?;
        i += 1;
        proof {
            let first = T::print(list@[i - 1].model(), version)->Ok_0;
            match tail {
                Ok(bytes) => {
                    assert(before + (first + bytes) =~= (before + first) + bytes);
                },
                _ => {},
            }
        }
    }
    assert(body@ + seq![] =~= body@);
    buf.append(&mut body);
    Ok(())
}

/// Reading back a written list gives what the wire carries of each value, and leaves
/// what follows it.
pub proof fn list_round_trip<T: RoundTrip>(list: Seq<T::Model>, version: Version, rest: Seq<u8>)
    requires
        forall|i: int| 0 <= i < list.len() ==> T::legal(#[trigger] list[i]),
        print_list::<T>(list, version) is Ok,
        print_list::<T>(list, version)->Ok_0.len() <= usize::MAX,
    ensures
        parse_list::<T>(print_list::<T>(list, version)->Ok_0 + rest, list.len(), version) == (
            Ok::<Seq<T::Model>, DecodeError>(carried_list::<T>(list, version)),
            rest,
        ),
    decreases list.len(),
{
    if list.len() == 0 {
        assert(Seq::<u8>::empty() + rest =~= rest);
        assert(carried_list::<T>(list, version) =~= seq![]);
    } else {
        let first = T::print(list[0], version)->Ok_0;
        let tail = print_list::<T>(list.skip(1), version)->Ok_0;
        assert((first + tail) + rest =~= first + (tail + rest));
        T::round_trip(list[0], version, tail + rest);
        assert forall|i: int| 0 <= i < list.skip(1).len() implies T::legal(
            #[trigger] list.skip(1)[i],
        ) by {
            assert(list.skip(1)[i] == list[i + 1]);
        }
        list_round_trip::<T>(list.skip(1), version, rest);
        assert(seq![T::carried(list[0], version)] + carried_list::<T>(list.skip(1), version)
            =~= carried_list::<T>(list, version));
    }
}

} // verus!
