//! Shard specifications, their strict parser, and the two partitioners.
//!
//! A configuration string `hash:<shard>/<total_shards>` or
//! `count:<shard>/<total_shards>` is parsed into a [`PartitionerBuilder`],
//! an immutable, validated specification. The builder manufactures a
//! stateless [`Partitioner`] that answers, per test, whether the configured
//! shard owns it: by the test's ordinal position (count-based) or by a
//! pinned hash of its name (hash-based).

use crate::decimal::{decimal_value, is_u64_decimal, parse_u64_decimal};
use crate::hashing::{xxhash64_name, xxhash64_of};
use vstd::prelude::*;
use vstd::string::StrSliceExecFns;

verus! {

/// Which partitioning strategy a configuration string named; errors carry it
/// so that the expected format (`hash:M/N` or `count:M/N`) can be reported.
#[derive(Clone, Copy, Debug, PartialEq, Eq, Structural)]
pub enum PartitionStrategy {
    /// Positional, `count:` strategy.
    Count,
    /// Name-hashing, `hash:` strategy.
    Hash,
}

/// Why a configuration string was rejected. Each variant is returned on
/// exactly one class of malformed input, and never after a specification was
/// successfully constructed.
#[derive(Clone, Debug, PartialEq, Eq, Structural)]
pub enum PartitionerBuilderParseError {
    /// The input began with neither `hash:` nor `count:`.
    UnrecognizedPrefix,
    /// No `/` separator followed the strategy prefix.
    MissingSeparator { strategy: PartitionStrategy },
    /// The shard field was not a decimal `u64` (empty, non-digit, overflow).
    InvalidShard { strategy: PartitionStrategy },
    /// The total-shards field was not a decimal `u64`.
    InvalidTotalShards { strategy: PartitionStrategy },
    /// The shard was 0 or exceeded the total number of shards.
    ShardOutOfRange { strategy: PartitionStrategy, shard: u64, total_shards: u64 },
}

/// A builder for creating `Partitioner` instances.
///
/// The relationship between `PartitionerBuilder` and `Partitioner` is
/// similar to that between `std`'s `BuildHasher` and `Hasher`.
#[derive(Clone, Debug, PartialEq, Eq, Structural)]
#[non_exhaustive]
pub enum PartitionerBuilder {
    /// Partition based on counting test numbers.
    Count {
        /// The shard this is in, counting up from 1.
        shard: u64,
        /// The total number of shards.
        total_shards: u64,
    },
    /// Partition based on hashing. Individual partitions are stateless.
    Hash {
        /// The shard this is in, counting up from 1.
        shard: u64,
        /// The total number of shards.
        total_shards: u64,
    },
}

impl PartitionerBuilder {
    /// The 1-based shard this specification selects.
    pub open spec fn shard(&self) -> u64 {
        match *self {
            PartitionerBuilder::Count { shard, .. } => shard,
            PartitionerBuilder::Hash { shard, .. } => shard,
        }
    }

    /// The total number of shards of this specification.
    pub open spec fn total_shards(&self) -> u64 {
        match *self {
            PartitionerBuilder::Count { total_shards, .. } => total_shards,
            PartitionerBuilder::Hash { total_shards, .. } => total_shards,
        }
    }

    /// The construction-time invariant: `1 <= shard <= total_shards`.
    pub open spec fn valid(&self) -> bool {
        1 <= self.shard() <= self.total_shards()
    }

    /// Which tests the configured shard owns: by position modulo the shard
    /// count, or by the pinned hash of the name modulo the shard count.
    pub open spec fn spec_matches(&self, test_name: Seq<char>, index: int) -> bool {
        match *self {
            PartitionerBuilder::Count { shard, total_shards } => index % (total_shards as int)
                == shard - 1,
            PartitionerBuilder::Hash { shard, total_shards } => (xxhash64_of(test_name) as int) % (
            total_shards as int) == shard - 1,
        }
    }
}

/// The characters of the `hash:` strategy prefix.
pub open spec fn hash_prefix() -> Seq<char> {
    seq!['h', 'a', 's', 'h', ':']
}

/// The characters of the `count:` strategy prefix.
pub open spec fn count_prefix() -> Seq<char> {
    seq!['c', 'o', 'u', 'n', 't', ':']
}

/// `s` begins with the characters of `p`.
pub open spec fn starts_with(s: Seq<char>, p: Seq<char>) -> bool {
    p.len() <= s.len() && s.take(p.len() as int) == p
}

/// The index of the first `/` in `s`, or `s.len()` if there is none.
pub open spec fn slash_split_point(s: Seq<char>) -> int
    decreases s.len(),
{
    if s.len() == 0 {
        0
    } else if s[0] == '/' {
        0
    } else {
        1 + slash_split_point(s.skip(1))
    }
}

/// `slash_split_point` is in bounds, lands on a `/` unless there is none,
/// and nothing before it is a `/`.
pub proof fn lemma_slash_split_point(s: Seq<char>)
    ensures
        0 <= slash_split_point(s) <= s.len(),
        slash_split_point(s) < s.len() ==> s[slash_split_point(s)] == '/',
        forall|j: int| 0 <= j < slash_split_point(s) ==> s[j] != '/',
    decreases s.len(),
{
    if s.len() != 0 && s[0] != '/' {
        let t = s.skip(1);
        lemma_slash_split_point(t);
        assert forall|j: int| 0 <= j < slash_split_point(s) implies s[j] != '/' by {
            if j > 0 {
                assert(t[j - 1] == s[j]);
            }
        }
        if slash_split_point(s) < s.len() {
            assert(t[slash_split_point(t)] == s[slash_split_point(s)]);
        }
    }
}

/// The split point is determined by its two properties: any position that
/// holds a `/` with no `/` before it is the split point.
pub proof fn lemma_slash_split_point_at(s: Seq<char>, k: int)
    requires
        0 <= k < s.len(),
        s[k] == '/',
        forall|j: int| 0 <= j < k ==> s[j] != '/',
    ensures
        slash_split_point(s) == k,
{
    lemma_slash_split_point(s);
    let p = slash_split_point(s);
    if p < k {
        assert(s[p] != '/');
        assert(false);
    }
    if p > k {
        assert(s[k] != '/');
        assert(false);
    }
}

/// The mathematical reading of a shard pair `M/N`: split at the first `/`,
/// read both sides as decimal `u64`s, and demand `1 <= M <= N`. Everything
/// after the first `/` is the total-shards field, so a second `/` makes that
/// field non-numeric and the pair is rejected.
pub open spec fn spec_parse_pair(input: Seq<char>, strategy: PartitionStrategy) -> Result<
    (u64, u64),
    PartitionerBuilderParseError,
> {
    let k = slash_split_point(input);
    if k == input.len() {
        Err(PartitionerBuilderParseError::MissingSeparator { strategy })
    } else {
        let shard_str = input.take(k);
        let total_str = input.skip(k + 1);
        if !is_u64_decimal(shard_str) {
            Err(PartitionerBuilderParseError::InvalidShard { strategy })
        } else if !is_u64_decimal(total_str) {
            Err(PartitionerBuilderParseError::InvalidTotalShards { strategy })
        } else {
            let shard = decimal_value(shard_str) as u64;
            let total_shards = decimal_value(total_str) as u64;
            if 1 <= shard && shard <= total_shards {
                Ok((shard, total_shards))
            } else {
                Err(
                    PartitionerBuilderParseError::ShardOutOfRange {
                        strategy,
                        shard,
                        total_shards,
                    },
                )
            }
        }
    }
}

/// The mathematical reading of a whole configuration string: a strategy
/// prefix, then a shard pair.
pub open spec fn spec_parse(s: Seq<char>) -> Result<
    PartitionerBuilder,
    PartitionerBuilderParseError,
> {
    if starts_with(s, hash_prefix()) {
        match spec_parse_pair(s.skip(hash_prefix().len() as int), PartitionStrategy::Hash) {
            Ok((shard, total_shards)) => Ok(PartitionerBuilder::Hash { shard, total_shards }),
            Err(e) => Err(e),
        }
    } else if starts_with(s, count_prefix()) {
        match spec_parse_pair(s.skip(count_prefix().len() as int), PartitionStrategy::Count) {
            Ok((shard, total_shards)) => Ok(PartitionerBuilder::Count { shard, total_shards }),
            Err(e) => Err(e),
        }
    } else {
        Err(PartitionerBuilderParseError::UnrecognizedPrefix)
    }
}

/// Finds the first `/` of `s`, if any.
fn find_slash(s: &str) -> (r: Option<usize>)
    ensures
        match r {
            Some(k) => k < s@.len() && s@[k as int] == '/' && (forall|j: int|
                0 <= j < k ==> s@[j] != '/'),
            None => forall|j: int| 0 <= j < s@.len() ==> s@[j] != '/',
        },
{
    let n = s.unicode_len();
    let mut i: usize = 0;
    while i < n
        invariant
            n == s@.len(),
            0 <= i <= n,
            forall|j: int| 0 <= j < i ==> s@[j] != '/',
        decreases n - i,
    {
        let c = s.get_char(i);
        if c == '/' {
            return Some(i);
        }
        i = i + 1;
    }
    None
}

/// Parses a shard pair `M/N`, shared by both strategy prefixes; `strategy`
/// only flows into the errors, naming the expected format.
pub fn parse_shards(input: &str, strategy: PartitionStrategy) -> (r: Result<
    (u64, u64),
    PartitionerBuilderParseError,
>)
    ensures
        r == spec_parse_pair(input@, strategy),
{
    let n = input.unicode_len();
    let k = match find_slash(input) {
        Some(k) => k,
        None => {
            proof {
                lemma_slash_split_point(input@);
            }
            return Err(PartitionerBuilderParseError::MissingSeparator { strategy });
        },
    };
    proof {
        lemma_slash_split_point_at(input@, k as int);
    }
    let shard_str = input.substring_char(0, k);
    let total_str = input.substring_char(k + 1, n);
    proof {
        assert(shard_str@ =~= input@.take(k as int));
        assert(total_str@ =~= input@.skip(k as int + 1));
    }
    let shard = match parse_u64_decimal(shard_str) {
        Some(v) => v,
        None => {
            return Err(PartitionerBuilderParseError::InvalidShard { strategy });
        },
    };
    let total_shards = match parse_u64_decimal(total_str) {
        Some(v) => v,
        None => {
            return Err(PartitionerBuilderParseError::InvalidTotalShards { strategy });
        },
    };
    if shard < 1 || shard > total_shards {
        return Err(PartitionerBuilderParseError::ShardOutOfRange { strategy, shard, total_shards });
    }
    Ok((shard, total_shards))
}

/// `s` begins with the five characters `hash:`.
fn has_hash_prefix(s: &str) -> (r: bool)
    ensures
        r == starts_with(s@, hash_prefix()),
{
    let n = s.unicode_len();
    if n < 5 {
        return false;
    }
    let c0 = s.get_char(0);
    let c1 = s.get_char(1);
    let c2 = s.get_char(2);
    let c3 = s.get_char(3);
    let c4 = s.get_char(4);
    let r = c0 == 'h' && c1 == 'a' && c2 == 's' && c3 == 'h' && c4 == ':';
    proof {
        if r {
            assert(s@.take(5) =~= hash_prefix());
        } else if starts_with(s@, hash_prefix()) {
            assert(s@.take(5)[0] == s@[0]);
            assert(s@.take(5)[1] == s@[1]);
            assert(s@.take(5)[2] == s@[2]);
            assert(s@.take(5)[3] == s@[3]);
            assert(s@.take(5)[4] == s@[4]);
            assert(false);
        }
    }
    r
}

/// `s` begins with the six characters `count:`.
fn has_count_prefix(s: &str) -> (r: bool)
    ensures
        r == starts_with(s@, count_prefix()),
{
    let n = s.unicode_len();
    if n < 6 {
        return false;
    }
    let c0 = s.get_char(0);
    let c1 = s.get_char(1);
    let c2 = s.get_char(2);
    let c3 = s.get_char(3);
    let c4 = s.get_char(4);
    let c5 = s.get_char(5);
    let r = c0 == 'c' && c1 == 'o' && c2 == 'u' && c3 == 'n' && c4 == 't' && c5 == ':';
    proof {
        if r {
            assert(s@.take(6) =~= count_prefix());
        } else if starts_with(s@, count_prefix()) {
            assert(s@.take(6)[0] == s@[0]);
            assert(s@.take(6)[1] == s@[1]);
            assert(s@.take(6)[2] == s@[2]);
            assert(s@.take(6)[3] == s@[3]);
            assert(s@.take(6)[4] == s@[4]);
            assert(s@.take(6)[5] == s@[5]);
            assert(false);
        }
    }
    r
}

impl PartitionerBuilder {
    /// Parses a configuration string, `hash:<shard>/<total_shards>` or
    /// `count:<shard>/<total_shards>`, into a validated specification:
    /// `Ok` exactly on strings of the grammar whose pair is in range, and
    /// the error named by `spec_parse` otherwise.
    pub fn from_str(s: &str) -> (r: Result<PartitionerBuilder, PartitionerBuilderParseError>)
        ensures
            r == spec_parse(s@),
            r matches Ok(p) ==> p.valid(),
    {
        if has_hash_prefix(s) {
            let n = s.unicode_len();
            let rest = s.substring_char(5, n);
            proof {
                assert(rest@ =~= s@.skip(5));
            }
            match parse_shards(rest, PartitionStrategy::Hash) {
                Ok((shard, total_shards)) => Ok(PartitionerBuilder::Hash { shard, total_shards }),
                Err(e) => Err(e),
            }
        } else if has_count_prefix(s) {
            let n = s.unicode_len();
            let rest = s.substring_char(6, n);
            proof {
                assert(rest@ =~= s@.skip(6));
            }
            match parse_shards(rest, PartitionStrategy::Count) {
                Ok((shard, total_shards)) => Ok(PartitionerBuilder::Count { shard, total_shards }),
                Err(e) => Err(e),
            }
        } else {
            Err(PartitionerBuilderParseError::UnrecognizedPrefix)
        }
    }
}

impl core::str::FromStr for PartitionerBuilder {
    type Err = PartitionerBuilderParseError;

    fn from_str(s: &str) -> Result<Self, Self::Err> {
        PartitionerBuilder::from_str(s)
    }
}

/// Represents an individual partitioner, typically scoped to a test binary.
pub trait Partitioner {
    /// The partitioner's construction-time invariant.
    spec fn wf(&self) -> bool;

    /// Which tests this partitioner's shard owns.
    spec fn matches_spec(&self, test_name: Seq<char>, index: int) -> bool;

    /// Returns true if the given test name matches the partition.
    fn test_matches(&self, test_name: &str, index: usize) -> (r: bool)
        requires
            self.wf(),
        ensures
            r == self.matches_spec(test_name@, index as int),
    ;
}

/// Owns every index congruent to `shard - 1` modulo the shard count.
#[derive(Clone, Debug)]
pub struct CountPartitioner {
    /// The configured shard, shifted to count from 0.
    pub shard_minus_one: u64,
    /// The total number of shards.
    pub total_shards: u64,
}

impl CountPartitioner {
    /// Copies a validated `(shard, total_shards)` pair into an engine.
    pub fn new(shard: u64, total_shards: u64) -> (r: Self)
        requires
            1 <= shard <= total_shards,
        ensures
            r.shard_minus_one == shard - 1,
            r.total_shards == total_shards,
            r.wf(),
    {
        let shard_minus_one = shard - 1;
        Self { shard_minus_one, total_shards }
    }
}

impl Partitioner for CountPartitioner {
    open spec fn wf(&self) -> bool {
        0 < self.total_shards && self.shard_minus_one < self.total_shards
    }

    open spec fn matches_spec(&self, test_name: Seq<char>, index: int) -> bool {
        index % (self.total_shards as int) == self.shard_minus_one as int
    }

    fn test_matches(&self, test_name: &str, index: usize) -> (r: bool) {
        (index as u64) % self.total_shards == self.shard_minus_one
    }
}

/// Owns every name whose pinned hash is congruent to `shard - 1` modulo the
/// shard count; the ordinal index is ignored.
#[derive(Clone, Debug)]
pub struct HashPartitioner {
    /// The configured shard, shifted to count from 0.
    pub shard_minus_one: u64,
    /// The total number of shards.
    pub total_shards: u64,
}

impl HashPartitioner {
    /// Copies a validated `(shard, total_shards)` pair into an engine.
    pub fn new(shard: u64, total_shards: u64) -> (r: Self)
        requires
            1 <= shard <= total_shards,
        ensures
            r.shard_minus_one == shard - 1,
            r.total_shards == total_shards,
            r.wf(),
    {
        let shard_minus_one = shard - 1;
        Self { shard_minus_one, total_shards }
    }
}

impl Partitioner for HashPartitioner {
    open spec fn wf(&self) -> bool {
        0 < self.total_shards && self.shard_minus_one < self.total_shards
    }

    open spec fn matches_spec(&self, test_name: Seq<char>, index: int) -> bool {
        (xxhash64_of(test_name) as int) % (self.total_shards as int)
            == self.shard_minus_one as int
    }

    fn test_matches(&self, test_name: &str, index: usize) -> (r: bool) {
        let h = xxhash64_name(test_name);
        h % self.total_shards == self.shard_minus_one
    }
}

/// A partitioner of either strategy, as [`PartitionerBuilder::build`]
/// manufactures it.
#[derive(Clone, Debug)]
pub enum AnyPartitioner {
    /// A count-based engine.
    Count(CountPartitioner),
    /// A hash-based engine.
    Hash(HashPartitioner),
}

impl Partitioner for AnyPartitioner {
    open spec fn wf(&self) -> bool {
        match *self {
            AnyPartitioner::Count(p) => p.wf(),
            AnyPartitioner::Hash(p) => p.wf(),
        }
    }

    open spec fn matches_spec(&self, test_name: Seq<char>, index: int) -> bool {
        match *self {
            AnyPartitioner::Count(p) => p.matches_spec(test_name, index),
            AnyPartitioner::Hash(p) => p.matches_spec(test_name, index),
        }
    }

    fn test_matches(&self, test_name: &str, index: usize) -> (r: bool) {
        match self {
            AnyPartitioner::Count(p) => p.test_matches(test_name, index),
            AnyPartitioner::Hash(p) => p.test_matches(test_name, index),
        }
    }
}

impl PartitionerBuilder {
    /// Creates a new `Partitioner` from this `PartitionerBuilder`: an engine
    /// that owns exactly the tests `spec_matches` describes.
    pub fn build(&self) -> (r: Box<AnyPartitioner>)
        requires
            self.valid(),
        ensures
            r.wf(),
            forall|test_name: Seq<char>, index: int| #[trigger]
                r.matches_spec(test_name, index) == self.spec_matches(test_name, index),
    {
        match self {
            PartitionerBuilder::Count { shard, total_shards } => Box::new(
                AnyPartitioner::Count(CountPartitioner::new(*shard, *total_shards)),
            ),
            PartitionerBuilder::Hash { shard, total_shards } => Box::new(
                AnyPartitioner::Hash(HashPartitioner::new(*shard, *total_shards)),
            ),
        }
    }
}

} // verus!
