//! The pinned name hash behind hash-based partitioning.
//!
//! Hash-based sharding only works when every shard, in every process, maps a
//! test name to the same 64-bit value. The algorithm is therefore pinned:
//! XXH64 with seed 0, fed the name through `std::hash::Hash` for `str`.

use vstd::prelude::*;

verus! {

/// The pinned 64-bit digest of a test name: XXH64 (seed 0) of the name as
/// `std::hash::Hash` feeds it. A function of the characters alone, identical
/// across processes and machines.
pub uninterp spec fn xxhash64_of(test_name: Seq<char>) -> u64;

/// Relies on `twox_hash::XxHash64`: `Default` is `with_seed(0)`, and the
/// digest that `finish` returns depends only on the bytes written, so the
/// result is a function of the name's characters alone.
#[verifier::external_body]
pub(crate) fn xxhash64_name(test_name: &str) -> (r: u64)
    ensures
        r == xxhash64_of(test_name@),
{
    let mut hasher = twox_hash::XxHash64::default();
    std::hash::Hash::hash(test_name, &mut hasher);
    std::hash::Hasher::finish(&hasher)
}

} // verus!
