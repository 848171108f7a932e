use ancdb::db::Database;
use ancdb::error::AncError;
use ancdb::model::TxMode;

fn with_table(id: u32, keys: &[i64]) -> Database {
    let mut db = Database::open("scan.db").unwrap();
    db.begin_tx(TxMode::Write).unwrap();
    db.create_table(id, "numbers").unwrap();
    for k in keys {
        db.put(id, *k, format!("v{}", k).as_bytes()).unwrap();
    }
    db.commit_tx().unwrap();
    db
}

fn entry(k: i64) -> (i64, Vec<u8>) {
    (k, format!("v{}", k).into_bytes())
}

#[test]
fn test_smoke_write_read() {
    let mut db = Database::open("test.db").unwrap();

    db.begin_tx(TxMode::Write).unwrap();
    db.create_table(10, "test_table").unwrap();
    db.put(10, 1, b"hello").unwrap();
    db.commit_tx().unwrap();

    let val = db.read(10, 1).unwrap();
    assert_eq!(val, Some(b"hello".to_vec()));
}

#[test]
fn open_starts_empty_and_idle() {
    let db = Database::open("fresh.db").unwrap();
    assert_eq!(db.location().as_str(), "fresh.db");
    assert!(!db.in_transaction());
    assert_eq!(db.active_mode(), None);
    assert_eq!(db.read(1, 1).unwrap(), None);
    assert!(db.range_scan(1, i64::MIN, i64::MAX, false, 10).unwrap().is_empty());
}

#[test]
fn uncommitted_put_is_invisible_until_commit() {
    let mut db = with_table(1, &[]);
    db.begin_tx(TxMode::Write).unwrap();
    db.put(1, 7, b"seven").unwrap();
    assert_eq!(db.read(1, 7).unwrap(), None);
    db.commit_tx().unwrap();
    assert_eq!(db.read(1, 7).unwrap(), Some(b"seven".to_vec()));
}

#[test]
fn last_put_under_a_key_wins() {
    let mut db = with_table(1, &[]);
    db.begin_tx(TxMode::Write).unwrap();
    db.put(1, 7, b"first").unwrap();
    db.put(1, 8, b"other").unwrap();
    db.put(1, 7, b"second").unwrap();
    db.commit_tx().unwrap();
    assert_eq!(db.read(1, 7).unwrap(), Some(b"second".to_vec()));
    assert_eq!(db.read(1, 8).unwrap(), Some(b"other".to_vec()));
}

#[test]
fn committed_put_overwrites_committed_value() {
    let mut db = with_table(1, &[3]);
    assert_eq!(db.read(1, 3).unwrap(), Some(b"v3".to_vec()));
    db.begin_tx(TxMode::Write).unwrap();
    db.put(1, 3, b"").unwrap();
    db.commit_tx().unwrap();
    assert_eq!(db.read(1, 3).unwrap(), Some(Vec::new()));
}

#[test]
fn aborted_put_is_never_seen() {
    let mut db = with_table(1, &[]);
    db.begin_tx(TxMode::Write).unwrap();
    db.put(1, 7, b"seven").unwrap();
    db.abort_tx().unwrap();
    assert!(!db.in_transaction());
    assert_eq!(db.read(1, 7).unwrap(), None);
    assert_eq!(db.commit_tx(), Err(AncError::NoActiveTransaction));
    assert_eq!(db.read(1, 7).unwrap(), None);
}

#[test]
fn second_write_begin_conflicts() {
    let mut db = Database::open("w.db").unwrap();
    assert_eq!(db.begin_tx(TxMode::Write), Ok(()));
    db.create_table(1, "t").unwrap();
    assert_eq!(db.begin_tx(TxMode::Write), Err(AncError::TransactionConflict));
    assert_eq!(db.active_mode(), Some(TxMode::Write));
    // The failed begin left the staged creation in place.
    assert_eq!(db.create_table(1, "t"), Err(AncError::TableAlreadyExists));
    db.commit_tx().unwrap();
    assert_eq!(db.begin_tx(TxMode::Write), Ok(()));
}

#[test]
fn read_begins_never_conflict() {
    let mut db = Database::open("r.db").unwrap();
    assert_eq!(db.begin_tx(TxMode::Read), Ok(()));
    assert_eq!(db.begin_tx(TxMode::Read), Ok(()));
    assert_eq!(db.active_mode(), Some(TxMode::Read));
    assert_eq!(db.commit_tx(), Ok(()));
    assert_eq!(db.active_mode(), None);
}

#[test]
fn write_in_read_transaction_is_refused() {
    let mut db = with_table(1, &[]);
    db.begin_tx(TxMode::Read).unwrap();
    assert_eq!(db.put(1, 1, b"x"), Err(AncError::TransactionConflict));
    assert_eq!(db.create_table(2, "u"), Err(AncError::TransactionConflict));
    db.commit_tx().unwrap();
    assert_eq!(db.read(1, 1).unwrap(), None);
}

#[test]
fn write_without_transaction_is_refused() {
    let mut db = with_table(1, &[]);
    assert_eq!(db.put(1, 1, b"x"), Err(AncError::NoActiveTransaction));
    assert_eq!(db.create_table(2, "u"), Err(AncError::NoActiveTransaction));
}

#[test]
fn commit_without_transaction_fails() {
    let mut db = Database::open("c.db").unwrap();
    assert_eq!(db.commit_tx(), Err(AncError::NoActiveTransaction));
}

#[test]
fn put_into_unknown_table_fails() {
    let mut db = with_table(1, &[]);
    db.begin_tx(TxMode::Write).unwrap();
    assert_eq!(db.put(2, 1, b"x"), Err(AncError::TableNotFound));
    assert_eq!(db.put(1, 1, b"x"), Ok(()));
    db.commit_tx().unwrap();
    assert_eq!(db.read(1, 1).unwrap(), Some(b"x".to_vec()));
    assert_eq!(db.read(2, 1).unwrap(), None);
}

#[test]
fn duplicate_table_in_one_transaction_fails_and_changes_nothing() {
    let mut db = Database::open("d.db").unwrap();
    db.begin_tx(TxMode::Write).unwrap();
    assert_eq!(db.create_table(5, "a"), Ok(()));
    db.put(5, 1, b"kept").unwrap();
    assert_eq!(db.create_table(5, "b"), Err(AncError::TableAlreadyExists));
    db.commit_tx().unwrap();
    assert_eq!(db.read(5, 1).unwrap(), Some(b"kept".to_vec()));
}

#[test]
fn duplicate_table_after_commit_fails_and_changes_nothing() {
    let mut db = with_table(5, &[1, 2]);
    db.begin_tx(TxMode::Write).unwrap();
    assert_eq!(db.create_table(5, "b"), Err(AncError::TableAlreadyExists));
    db.commit_tx().unwrap();
    assert_eq!(db.read(5, 1).unwrap(), Some(b"v1".to_vec()));
    assert_eq!(db.range_scan(5, 0, 9, false, 9).unwrap(), vec![entry(1), entry(2)]);
}

#[test]
fn abort_is_idempotent() {
    let mut db = with_table(1, &[4]);
    assert_eq!(db.abort_tx(), Ok(()));
    assert_eq!(db.abort_tx(), Ok(()));
    assert!(!db.in_transaction());
    assert_eq!(db.read(1, 4).unwrap(), Some(b"v4".to_vec()));
    db.begin_tx(TxMode::Write).unwrap();
    db.put(1, 4, b"gone").unwrap();
    assert_eq!(db.abort_tx(), Ok(()));
    assert_eq!(db.abort_tx(), Ok(()));
    assert_eq!(db.read(1, 4).unwrap(), Some(b"v4".to_vec()));
    assert_eq!(db.begin_tx(TxMode::Write), Ok(()));
}

#[test]
fn range_scan_orders_and_limits() {
    let db = with_table(1, &[1, 2, 3, 4, 5]);
    assert_eq!(db.range_scan(1, 2, 4, false, 2).unwrap(), vec![entry(2), entry(3)]);
    assert_eq!(db.range_scan(1, 2, 4, true, 2).unwrap(), vec![entry(4), entry(3)]);
    assert_eq!(db.range_scan(1, 5, 1, false, 10).unwrap(), Vec::new());
    assert_eq!(db.range_scan(1, 5, 1, true, 10).unwrap(), Vec::new());
}

#[test]
fn range_scan_bounds_are_inclusive() {
    let db = with_table(1, &[1, 2, 3, 4, 5]);
    assert_eq!(
        db.range_scan(1, 2, 4, false, 100).unwrap(),
        vec![entry(2), entry(3), entry(4)]
    );
    assert_eq!(
        db.range_scan(1, 2, 4, true, 100).unwrap(),
        vec![entry(4), entry(3), entry(2)]
    );
    assert_eq!(db.range_scan(1, 3, 3, false, 100).unwrap(), vec![entry(3)]);
    assert_eq!(db.range_scan(1, 6, 9, false, 100).unwrap(), Vec::new());
    assert_eq!(db.range_scan(1, -9, 0, true, 100).unwrap(), Vec::new());
}

#[test]
fn range_scan_with_zero_limit_is_empty() {
    let db = with_table(1, &[1, 2, 3]);
    assert_eq!(db.range_scan(1, 1, 3, false, 0).unwrap(), Vec::new());
    assert_eq!(db.range_scan(1, 1, 3, true, 0).unwrap(), Vec::new());
}

#[test]
fn range_scan_covers_the_whole_key_space() {
    let db = with_table(1, &[i64::MAX, -3, i64::MIN, 0]);
    assert_eq!(
        db.range_scan(1, i64::MIN, i64::MAX, false, usize::MAX).unwrap(),
        vec![entry(i64::MIN), entry(-3), entry(0), entry(i64::MAX)]
    );
    assert_eq!(
        db.range_scan(1, i64::MIN, i64::MAX, true, 3).unwrap(),
        vec![entry(i64::MAX), entry(0), entry(-3)]
    );
    assert_eq!(db.range_scan(1, i64::MAX, i64::MAX, true, 3).unwrap(), vec![entry(i64::MAX)]);
}

#[test]
fn range_scan_sees_only_committed_rows() {
    let mut db = with_table(1, &[1, 3]);
    db.begin_tx(TxMode::Write).unwrap();
    db.put(1, 2, b"v2").unwrap();
    assert_eq!(db.range_scan(1, 1, 3, false, 9).unwrap(), vec![entry(1), entry(3)]);
    db.commit_tx().unwrap();
    assert_eq!(
        db.range_scan(1, 1, 3, false, 9).unwrap(),
        vec![entry(1), entry(2), entry(3)]
    );
}

#[test]
fn tables_keep_their_rows_apart() {
    let mut db = with_table(1, &[1]);
    db.begin_tx(TxMode::Write).unwrap();
    db.create_table(2, "second").unwrap();
    db.put(2, 1, b"two").unwrap();
    db.commit_tx().unwrap();
    assert_eq!(db.read(1, 1).unwrap(), Some(b"v1".to_vec()));
    assert_eq!(db.read(2, 1).unwrap(), Some(b"two".to_vec()));
}
