//! The partitioning laws: what the shard grammar and the two strategies
//! guarantee, stated once and proved over the specification functions that
//! the executable contracts use.

use crate::decimal::{decimal_digits, is_digit_char, lemma_decimal_digits_value};
use crate::hashing::xxhash64_of;
use crate::partition::{
    count_prefix, hash_prefix, lemma_slash_split_point_at, spec_parse, spec_parse_pair,
    starts_with, HashPartitioner, PartitionStrategy, Partitioner, PartitionerBuilder,
    PartitionerBuilderParseError,
};
use vstd::arithmetic::div_mod::lemma_mod_bound;
use vstd::prelude::*;

verus! {

/// A rendered shard pair `M/N` parses back to `(M, N)` whenever
/// `1 <= M <= N`.
pub proof fn lemma_pair_round_trip(shard: u64, total_shards: u64, strategy: PartitionStrategy)
    requires
        1 <= shard <= total_shards,
    ensures
        spec_parse_pair(
            decimal_digits(shard as int) + seq!['/'] + decimal_digits(total_shards as int),
            strategy,
        ) == Ok::<(u64, u64), PartitionerBuilderParseError>((shard, total_shards)),
{
    let m = decimal_digits(shard as int);
    let t = decimal_digits(total_shards as int);
    lemma_decimal_digits_value(shard as int);
    lemma_decimal_digits_value(total_shards as int);
    let rest = m + seq!['/'] + t;
    assert(rest[m.len() as int] == '/');
    assert forall|j: int| 0 <= j < m.len() implies rest[j] != '/' by {
        assert(rest[j] == m[j]);
        assert(is_digit_char(m[j]));
    }
    lemma_slash_split_point_at(rest, m.len() as int);
    assert(rest.take(m.len() as int) =~= m);
    assert(rest.skip(m.len() as int + 1) =~= t);
}

/// Parsing round-trip: for every valid pair `1 <= shard <= total_shards`,
/// rendering the pair in either strategy's configuration syntax and parsing
/// it back yields exactly the corresponding specification.
pub proof fn lemma_parse_round_trip(shard: u64, total_shards: u64)
    requires
        1 <= shard <= total_shards,
    ensures
        spec_parse(
            hash_prefix() + decimal_digits(shard as int) + seq!['/'] + decimal_digits(
                total_shards as int,
            ),
        ) == Ok::<PartitionerBuilder, PartitionerBuilderParseError>(
            PartitionerBuilder::Hash { shard, total_shards },
        ),
        spec_parse(
            count_prefix() + decimal_digits(shard as int) + seq!['/'] + decimal_digits(
                total_shards as int,
            ),
        ) == Ok::<PartitionerBuilder, PartitionerBuilderParseError>(
            PartitionerBuilder::Count { shard, total_shards },
        ),
{
    let m = decimal_digits(shard as int);
    let t = decimal_digits(total_shards as int);
    lemma_decimal_digits_value(shard as int);
    lemma_decimal_digits_value(total_shards as int);
    lemma_pair_round_trip(shard, total_shards, PartitionStrategy::Hash);
    lemma_pair_round_trip(shard, total_shards, PartitionStrategy::Count);
    let s_h = hash_prefix() + m + seq!['/'] + t;
    assert(s_h.take(5) =~= hash_prefix());
    assert(s_h.skip(5) =~= m + seq!['/'] + t);
    let s_c = count_prefix() + m + seq!['/'] + t;
    assert(s_c[0] == 'c');
    if starts_with(s_c, hash_prefix()) {
        assert(s_c.take(5)[0] == s_c[0]);
        assert(false);
    }
    assert(s_c.take(6) =~= count_prefix());
    assert(s_c.skip(6) =~= m + seq!['/'] + t);
}

/// Count partition exhaustiveness and exclusivity: for every index, exactly
/// one shard in `1..=total_shards` owns it — the shard
/// `index % total_shards + 1`, whatever the test's name.
pub proof fn lemma_count_partition(total_shards: u64, test_name: Seq<char>, index: int)
    requires
        1 <= total_shards,
        0 <= index,
    ensures
        1 <= index % (total_shards as int) + 1 <= total_shards,
        forall|shard: u64|
            1 <= shard <= total_shards ==> ((PartitionerBuilder::Count {
                shard,
                total_shards,
            }).spec_matches(test_name, index) <==> shard == index % (total_shards as int) + 1),
{
    lemma_mod_bound(index, total_shards as int);
}

/// Hash partition exhaustiveness and exclusivity: for every test name,
/// exactly one shard in `1..=total_shards` owns it — the shard
/// `xxhash64_of(name) % total_shards + 1`, whatever the test's index.
pub proof fn lemma_hash_partition(total_shards: u64, test_name: Seq<char>, index: int)
    requires
        1 <= total_shards,
    ensures
        1 <= (xxhash64_of(test_name) as int) % (total_shards as int) + 1 <= total_shards,
        forall|shard: u64|
            1 <= shard <= total_shards ==> ((PartitionerBuilder::Hash {
                shard,
                total_shards,
            }).spec_matches(test_name, index) <==> shard == (xxhash64_of(test_name) as int) % (
            total_shards as int) + 1),
{
    lemma_mod_bound(xxhash64_of(test_name) as int, total_shards as int);
}

/// Hash determinism across instances: two hash-based engines configured
/// alike decide alike for every test name, whatever index each is handed.
pub proof fn lemma_hash_determinism(
    a: HashPartitioner,
    b: HashPartitioner,
    test_name: Seq<char>,
    index_a: int,
    index_b: int,
)
    requires
        a.shard_minus_one == b.shard_minus_one,
        a.total_shards == b.total_shards,
    ensures
        a.matches_spec(test_name, index_a) == b.matches_spec(test_name, index_b),
{
}

/// Single-shard degenerate case: with one shard in total, every test
/// matches, under both strategies.
pub proof fn lemma_single_shard_matches_all(test_name: Seq<char>, index: int)
    requires
        0 <= index,
    ensures
        (PartitionerBuilder::Count { shard: 1, total_shards: 1 }).spec_matches(test_name, index),
        (PartitionerBuilder::Hash { shard: 1, total_shards: 1 }).spec_matches(test_name, index),
{
    lemma_mod_bound(index, 1);
    lemma_mod_bound(xxhash64_of(test_name) as int, 1);
}

} // verus!
