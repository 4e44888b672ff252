//! Deterministic partitioning of a test suite across parallel shards.
//!
//! A configuration string such as `hash:1/2` or `count:1/2` is parsed into a
//! [`PartitionerBuilder`], which manufactures a stateless [`Partitioner`]
//! deciding, for each test, whether it belongs to the configured shard: by
//! the test's ordinal position (count-based) or by a pinned hash of its name
//! (hash-based).

pub mod decimal;
pub mod hashing;
pub mod laws;
pub mod partition;

pub use partition::AnyPartitioner;
pub use partition::CountPartitioner;
pub use partition::HashPartitioner;
pub use partition::PartitionStrategy;
pub use partition::Partitioner;
pub use partition::PartitionerBuilder;
pub use partition::PartitionerBuilderParseError;
