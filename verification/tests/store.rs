use nitinol_sqlite_adaptor::config::{parse_u64, PoolConfig};
use nitinol_sqlite_adaptor::errors::{translate, Operation, StoreError};
use nitinol_sqlite_adaptor::journal::Journal;
use nitinol_sqlite_adaptor::migrate::{migration_set, pending_after};
use nitinol_sqlite_adaptor::record::EventRecord;

fn record(aggregate_id: &str, sequence_id: i64, key: &str, bytes: &[u8], at: i64) -> EventRecord {
    EventRecord {
        aggregate_id: aggregate_id.to_owned(),
        sequence_id,
        registry_key: key.to_owned(),
        bytes: bytes.to_vec(),
        created_at: at,
    }
}

#[test]
fn write_then_read_returns_all_five_fields() {
    let mut journal = Journal::new();
    let rec = record("test-entity-1", 0, "entity.created", b"{\"kind\":1}", 1700000000);
    assert!(journal.write(rec.clone()).is_ok());
    let back = journal.read("test-entity-1", 0).expect("written record must be readable");
    assert_eq!(back.aggregate_id, "test-entity-1");
    assert_eq!(back.sequence_id, 0);
    assert_eq!(back.registry_key, "entity.created");
    assert_eq!(back.bytes, b"{\"kind\":1}".to_vec());
    assert_eq!(back.created_at, 1700000000);
    assert_eq!(back, rec);
}

#[test]
fn duplicate_pair_is_a_write_conflict_and_first_record_survives() {
    let mut journal = Journal::new();
    let first = record("agg", 7, "a", b"one", 1);
    let second = record("agg", 7, "b", b"two", 2);
    assert!(journal.write(first.clone()).is_ok());
    let err = journal.write(second).expect_err("same (aggregate_id, sequence_id) must conflict");
    assert!(matches!(err, StoreError::Write(_)));
    let back = journal.read("agg", 7).expect("first record must remain readable");
    assert_eq!(back, first);
}

#[test]
fn range_read_orders_by_sequence_ascending() {
    let mut journal = Journal::new();
    for seq in [2i64, 5, 1, 3] {
        let rec = record("agg", seq, "k", &[seq as u8], seq);
        assert!(journal.write(rec).is_ok());
    }
    let got = journal.read_to("agg", 1, 5).expect("range read never fails");
    let seqs: Vec<i64> = got.iter().map(|r| r.sequence_id).collect();
    assert_eq!(seqs, vec![1, 2, 3, 5]);
}

#[test]
fn range_bounds_are_inclusive_and_empty_range_is_not_an_error() {
    let mut journal = Journal::new();
    assert!(journal.write(record("agg", 0, "k", b"lo", 0)).is_ok());
    assert!(journal.write(record("agg", 10, "k", b"hi", 0)).is_ok());

    let both = journal.read_to("agg", 0, 10).expect("range read never fails");
    let seqs: Vec<i64> = both.iter().map(|r| r.sequence_id).collect();
    assert_eq!(seqs, vec![0, 10]);

    let inner = journal.read_to("agg", 1, 9).expect("range read never fails");
    assert!(inner.is_empty());

    let beyond = journal.read_to("agg", 11, 20).expect("range read never fails");
    assert!(beyond.is_empty());
}

#[test]
fn range_read_is_per_aggregate() {
    let mut journal = Journal::new();
    assert!(journal.write(record("a", 1, "k", b"x", 0)).is_ok());
    assert!(journal.write(record("b", 1, "k", b"y", 0)).is_ok());
    let got = journal.read_to("a", 0, 10).expect("range read never fails");
    assert_eq!(got.len(), 1);
    assert_eq!(got[0].aggregate_id, "a");
}

#[test]
fn point_read_miss_is_a_read_failure() {
    let journal = Journal::new();
    let err = journal.read("nobody", 3).expect_err("a pair never written must fail");
    assert!(matches!(err, StoreError::Read(_)));
}

#[test]
fn point_read_does_not_confuse_sequences_or_aggregates() {
    let mut journal = Journal::new();
    assert!(journal.write(record("a", 1, "k", b"x", 0)).is_ok());
    assert!(journal.read("a", 2).is_err());
    assert!(journal.read("b", 1).is_err());
    assert!(journal.read("a", 1).is_ok());
}

#[test]
fn migration_plan_is_idempotent() {
    let all = migration_set();
    assert_eq!(all.len(), 1);
    assert_eq!(all[0].version, 1);
    assert!(all[0].statement.contains("PRIMARY KEY(id, sequence_id)"));

    let first_run = pending_after(&all, 0);
    assert_eq!(first_run.len(), 1);
    assert_eq!(first_run[0].version, 1);
    assert_eq!(first_run[0].statement, all[0].statement);

    let second_run = pending_after(&all, 1);
    assert!(second_run.is_empty());
}

#[test]
fn second_setup_leaves_records_in_place() {
    let mut journal = Journal::new();
    let rec = record("kept", 4, "k", b"payload", 9);
    assert!(journal.write(rec.clone()).is_ok());
    let all = migration_set();
    let replay = pending_after(&all, all[all.len() - 1].version);
    assert!(replay.is_empty());
    assert_eq!(journal.read("kept", 4).expect("records survive a re-setup"), rec);
}

#[test]
fn parse_u64_reads_exact_decimal_values() {
    assert_eq!(parse_u64("0"), Some(0));
    assert_eq!(parse_u64("5000"), Some(5000));
    assert_eq!(parse_u64("18446744073709551615"), Some(u64::MAX));
    assert_eq!(parse_u64(""), None);
    assert_eq!(parse_u64("12a"), None);
    assert_eq!(parse_u64("-3"), None);
    assert_eq!(parse_u64(" 7"), None);
    assert_eq!(parse_u64("18446744073709551616"), None);
    assert_eq!(parse_u64("99999999999999999999999999"), None);
}

#[test]
fn pool_config_resolves_values_and_defaults() {
    let c = PoolConfig::from_env_values(None, None);
    assert_eq!(c.acquire_timeout_ms, 5000);
    assert_eq!(c.max_connections, 8);

    let c = PoolConfig::from_env_values(Some("250".to_owned()), Some("32".to_owned()));
    assert_eq!(c.acquire_timeout_ms, 250);
    assert_eq!(c.max_connections, 32);

    let c = PoolConfig::from_env_values(Some("fast".to_owned()), Some("4294967296".to_owned()));
    assert_eq!(c.acquire_timeout_ms, 5000);
    assert_eq!(c.max_connections, 8);
}

#[test]
fn translate_wraps_the_cause_into_the_operation_kind() {
    let e = translate(Operation::Setup, "no such file".to_owned());
    assert!(matches!(e, StoreError::Setup(_)));
    assert_eq!(e.message(), "no such file");
    let e = translate(Operation::Write, "constraint".to_owned());
    assert!(matches!(e, StoreError::Write(_)));
    let e = translate(Operation::Read, "gone".to_owned());
    assert!(matches!(e, StoreError::Read(_)));
}

#[test]
fn record_equality_is_field_by_field() {
    let a = record("x", 1, "k", b"b", 2);
    let mut b = a.clone();
    assert!(a.equal_to(&b));
    b.created_at = 3;
    assert!(!a.equal_to(&b));
    let c = a.duplicate();
    assert!(a.equal_to(&c));
}
