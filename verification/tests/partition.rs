use test_partition::decimal::parse_u64_decimal;
use test_partition::partition::parse_shards;
use test_partition::PartitionStrategy;
use test_partition::Partitioner;
use test_partition::PartitionerBuilder;
use test_partition::PartitionerBuilderParseError;
use test_partition::{CountPartitioner, HashPartitioner};

#[test]
fn partitioner_builder_from_str() {
    let successes = vec![
        (
            "hash:1/2",
            PartitionerBuilder::Hash {
                shard: 1,
                total_shards: 2,
            },
        ),
        (
            "hash:1/1",
            PartitionerBuilder::Hash {
                shard: 1,
                total_shards: 1,
            },
        ),
        (
            "hash:99/200",
            PartitionerBuilder::Hash {
                shard: 99,
                total_shards: 200,
            },
        ),
    ];

    let failures = vec![
        "foo",
        "hash",
        "hash:",
        "hash:1",
        "hash:1/",
        "hash:0/2",
        "hash:3/2",
        "hash:m/2",
        "hash:1/n",
        "hash:1/2/3",
    ];

    for (input, output) in successes {
        assert_eq!(
            PartitionerBuilder::from_str(input).unwrap_or_else(|err| panic!(
                "expected input '{}' to succeed, failed with: {:?}",
                input, err
            )),
            output,
            "success case '{}' matches",
            input,
        );
    }

    for input in failures {
        PartitionerBuilder::from_str(input)
            .expect_err(&format!("expected input '{}' to fail", input));
    }
}

#[test]
fn from_str_trait_parses_too() {
    let spec: PartitionerBuilder = "hash:1/2".parse().expect("valid configuration");
    assert_eq!(
        spec,
        PartitionerBuilder::Hash {
            shard: 1,
            total_shards: 2,
        }
    );
}

#[test]
fn from_str_count_round_trip() {
    assert_eq!(
        PartitionerBuilder::from_str("count:3/7"),
        Ok(PartitionerBuilder::Count {
            shard: 3,
            total_shards: 7,
        })
    );
    assert_eq!(
        PartitionerBuilder::from_str("count:1/1"),
        Ok(PartitionerBuilder::Count {
            shard: 1,
            total_shards: 1,
        })
    );
}

#[test]
fn from_str_error_variants() {
    assert_eq!(
        PartitionerBuilder::from_str("foo"),
        Err(PartitionerBuilderParseError::UnrecognizedPrefix)
    );
    assert_eq!(
        PartitionerBuilder::from_str("hash"),
        Err(PartitionerBuilderParseError::UnrecognizedPrefix)
    );
    assert_eq!(
        PartitionerBuilder::from_str("hash:"),
        Err(PartitionerBuilderParseError::MissingSeparator {
            strategy: PartitionStrategy::Hash,
        })
    );
    assert_eq!(
        PartitionerBuilder::from_str("count:12"),
        Err(PartitionerBuilderParseError::MissingSeparator {
            strategy: PartitionStrategy::Count,
        })
    );
    assert_eq!(
        PartitionerBuilder::from_str("hash:m/2"),
        Err(PartitionerBuilderParseError::InvalidShard {
            strategy: PartitionStrategy::Hash,
        })
    );
    assert_eq!(
        PartitionerBuilder::from_str("hash:/2"),
        Err(PartitionerBuilderParseError::InvalidShard {
            strategy: PartitionStrategy::Hash,
        })
    );
    assert_eq!(
        PartitionerBuilder::from_str("hash:1/n"),
        Err(PartitionerBuilderParseError::InvalidTotalShards {
            strategy: PartitionStrategy::Hash,
        })
    );
    assert_eq!(
        PartitionerBuilder::from_str("hash:1/"),
        Err(PartitionerBuilderParseError::InvalidTotalShards {
            strategy: PartitionStrategy::Hash,
        })
    );
    assert_eq!(
        PartitionerBuilder::from_str("count:0/2"),
        Err(PartitionerBuilderParseError::ShardOutOfRange {
            strategy: PartitionStrategy::Count,
            shard: 0,
            total_shards: 2,
        })
    );
    assert_eq!(
        PartitionerBuilder::from_str("hash:3/2"),
        Err(PartitionerBuilderParseError::ShardOutOfRange {
            strategy: PartitionStrategy::Hash,
            shard: 3,
            total_shards: 2,
        })
    );
}

#[test]
fn from_str_second_separator_spoils_total() {
    // Everything after the first `/` is the total-shards field, so a second
    // `/` makes it non-numeric.
    assert_eq!(
        PartitionerBuilder::from_str("hash:1/2/3"),
        Err(PartitionerBuilderParseError::InvalidTotalShards {
            strategy: PartitionStrategy::Hash,
        })
    );
}

#[test]
fn from_str_strict_decimal_fields() {
    // Only plain digit runs: no sign, no whitespace.
    assert_eq!(
        PartitionerBuilder::from_str("hash:+1/2"),
        Err(PartitionerBuilderParseError::InvalidShard {
            strategy: PartitionStrategy::Hash,
        })
    );
    assert_eq!(
        PartitionerBuilder::from_str("hash: 1/2"),
        Err(PartitionerBuilderParseError::InvalidShard {
            strategy: PartitionStrategy::Hash,
        })
    );
    assert_eq!(
        PartitionerBuilder::from_str(" hash:1/2"),
        Err(PartitionerBuilderParseError::UnrecognizedPrefix)
    );
    // Leading zeros are ordinary decimal notation.
    assert_eq!(
        PartitionerBuilder::from_str("count:007/9"),
        Ok(PartitionerBuilder::Count {
            shard: 7,
            total_shards: 9,
        })
    );
}

#[test]
fn from_str_u64_bounds() {
    assert_eq!(
        PartitionerBuilder::from_str("hash:18446744073709551615/18446744073709551615"),
        Ok(PartitionerBuilder::Hash {
            shard: u64::MAX,
            total_shards: u64::MAX,
        })
    );
    assert_eq!(
        PartitionerBuilder::from_str("hash:1/18446744073709551616"),
        Err(PartitionerBuilderParseError::InvalidTotalShards {
            strategy: PartitionStrategy::Hash,
        })
    );
    assert_eq!(
        PartitionerBuilder::from_str("hash:18446744073709551616/2"),
        Err(PartitionerBuilderParseError::InvalidShard {
            strategy: PartitionStrategy::Hash,
        })
    );
}

#[test]
fn parse_shards_pair() {
    assert_eq!(
        parse_shards("5/9", PartitionStrategy::Count),
        Ok((5, 9))
    );
    assert_eq!(
        parse_shards("59", PartitionStrategy::Count),
        Err(PartitionerBuilderParseError::MissingSeparator {
            strategy: PartitionStrategy::Count,
        })
    );
}

#[test]
fn parse_u64_decimal_fields() {
    assert_eq!(parse_u64_decimal("42"), Some(42));
    assert_eq!(parse_u64_decimal("0"), Some(0));
    assert_eq!(parse_u64_decimal("18446744073709551615"), Some(u64::MAX));
    assert_eq!(parse_u64_decimal("18446744073709551616"), None);
    assert_eq!(parse_u64_decimal(""), None);
    assert_eq!(parse_u64_decimal("4x2"), None);
    assert_eq!(parse_u64_decimal("-4"), None);
}

#[test]
fn count_partitioner_concrete_scenario() {
    // total_shards = 2: shard 1 owns the even indices, shard 2 the odd ones.
    let shard_one = PartitionerBuilder::Count {
        shard: 1,
        total_shards: 2,
    }
    .build();
    let shard_two = PartitionerBuilder::Count {
        shard: 2,
        total_shards: 2,
    }
    .build();
    for index in [0usize, 2, 4, 6, 100] {
        assert!(shard_one.test_matches("any::name", index));
        assert!(!shard_two.test_matches("any::name", index));
    }
    for index in [1usize, 3, 5, 7, 101] {
        assert!(!shard_one.test_matches("any::name", index));
        assert!(shard_two.test_matches("any::name", index));
    }
}

#[test]
fn count_partition_exhaustive_and_exclusive() {
    // Every index is owned by exactly one of the shards 1..=total_shards.
    for total_shards in 1u64..=5 {
        let engines: Vec<_> = (1..=total_shards)
            .map(|shard| CountPartitioner::new(shard, total_shards))
            .collect();
        for index in 0usize..50 {
            let owners = engines
                .iter()
                .filter(|e| e.test_matches("some::test", index))
                .count();
            assert_eq!(owners, 1, "index {} with {} shards", index, total_shards);
        }
    }
}

#[test]
fn hash_partition_exhaustive_and_exclusive() {
    // Every name is owned by exactly one of the shards 1..=total_shards, and
    // repeated queries agree.
    let names = ["a", "b", "c", "tests::parse::works", "x::y::z"];
    for total_shards in 1u64..=5 {
        let engines: Vec<_> = (1..=total_shards)
            .map(|shard| HashPartitioner::new(shard, total_shards))
            .collect();
        for name in names {
            let owners = engines.iter().filter(|e| e.test_matches(name, 0)).count();
            assert_eq!(owners, 1, "name {} with {} shards", name, total_shards);
            for e in &engines {
                assert_eq!(e.test_matches(name, 1), e.test_matches(name, 2));
            }
        }
    }
}

#[test]
fn hash_determinism_across_instances() {
    // Two independently constructed hash engines with the same configuration
    // decide alike for every name.
    let first = PartitionerBuilder::Hash {
        shard: 1,
        total_shards: 2,
    }
    .build();
    let second = PartitionerBuilder::Hash {
        shard: 1,
        total_shards: 2,
    }
    .build();
    for name in ["a", "b", "c", "long::test::name::here"] {
        assert_eq!(
            first.test_matches(name, 0),
            second.test_matches(name, 99),
            "engines disagree on '{}'",
            name
        );
    }
}

#[test]
fn single_shard_matches_everything() {
    let count = PartitionerBuilder::Count {
        shard: 1,
        total_shards: 1,
    }
    .build();
    let hash = PartitionerBuilder::Hash {
        shard: 1,
        total_shards: 1,
    }
    .build();
    for (index, name) in [(0usize, "a"), (1, "b"), (17, "c"), (1000, "d::e")] {
        assert!(count.test_matches(name, index));
        assert!(hash.test_matches(name, index));
    }
}

#[test]
fn build_from_parsed_specification() {
    let spec = PartitionerBuilder::from_str("count:2/3").expect("valid configuration");
    let engine = spec.build();
    assert!(engine.test_matches("ignored", 1));
    assert!(!engine.test_matches("ignored", 0));
    assert!(!engine.test_matches("ignored", 2));
    assert!(engine.test_matches("ignored", 4));
}
