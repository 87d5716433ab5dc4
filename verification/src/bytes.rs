//! Copies of byte ranges.

use vstd::prelude::*;

verus! {

/// The bytes of `data`, in a vector of their own.
pub(crate) fn copy_of(data: &[u8]) -> (r: Vec<u8>)
    ensures
        r@ == data@,
{
    let mut out: Vec<u8> = Vec::new();
    out.extend_from_slice(data);
    assert(out@ =~= data@);
    out
}

/// The bytes of `data` from `start` up to but not including `end`.
pub(crate) fn copy_range(data: &Vec<u8>, start: usize, end: usize) -> (r: Vec<u8>)
    requires
        start <= end <= data@.len(),
    ensures
        r@ == data@.subrange(start as int, end as int),
{
    let all: &[u8] = data.as_slice();
    let mut out: Vec<u8> = Vec::new();
    out.extend_from_slice(&all[start..end]);
    assert(out@ =~= data@.subrange(start as int, end as int));
    out
}

} // verus!
