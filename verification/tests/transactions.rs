use ancdb::error::AncError;
use ancdb::model::{TxMode, TxStatus};
use ancdb::store::{Store, WriteOp};
use ancdb::table::Table;
use ancdb::txn::{Transaction, TransactionManager};

fn store_with(id: u32, rows: &[(i64, &[u8])]) -> Store {
    let mut store = Store::new();
    store.create_table(id, String::from("t")).unwrap();
    for (k, v) in rows {
        store.put(id, *k, v.to_vec()).unwrap();
    }
    store
}

#[test]
fn first_committer_wins_on_a_shared_key() {
    let mut store = store_with(1, &[(5, b"old")]);
    let mut first = Transaction::begin(&store, TxMode::Write);
    let mut second = Transaction::begin(&store, TxMode::Write);
    first.put(1, 5, b"from first".to_vec()).unwrap();
    second.put(1, 5, b"from second".to_vec()).unwrap();

    assert_eq!(first.commit(&mut store), Ok(()));
    assert_eq!(first.status(), TxStatus::Committed);
    assert_eq!(second.commit(&mut store), Err(AncError::TransactionConflict));
    assert_eq!(second.status(), TxStatus::Aborted);
    assert_eq!(store.get(1, 5), Some(b"from first".to_vec()));
}

#[test]
fn conflict_anywhere_in_the_footprint_drops_every_write() {
    let mut store = store_with(1, &[(5, b"old")]);
    let mut first = Transaction::begin(&store, TxMode::Write);
    let mut second = Transaction::begin(&store, TxMode::Write);
    first.put(1, 5, b"new".to_vec()).unwrap();
    second.put(1, 9, b"untouched key".to_vec()).unwrap();
    second.put(1, 5, b"shared key".to_vec()).unwrap();

    assert_eq!(first.commit(&mut store), Ok(()));
    assert_eq!(second.commit(&mut store), Err(AncError::TransactionConflict));
    assert_eq!(store.get(1, 9), None);
    assert_eq!(store.get(1, 5), Some(b"new".to_vec()));
}

#[test]
fn writers_on_separate_keys_both_commit() {
    let mut store = store_with(1, &[]);
    let mut first = Transaction::begin(&store, TxMode::Write);
    let mut second = Transaction::begin(&store, TxMode::Write);
    first.put(1, 1, b"a".to_vec()).unwrap();
    second.put(1, 2, b"b".to_vec()).unwrap();
    assert_eq!(first.commit(&mut store), Ok(()));
    assert_eq!(second.commit(&mut store), Ok(()));
    assert_eq!(store.get(1, 1), Some(b"a".to_vec()));
    assert_eq!(store.get(1, 2), Some(b"b".to_vec()));
}

#[test]
fn first_commit_that_leaves_the_value_is_no_conflict() {
    let mut store = store_with(1, &[(5, b"same")]);
    let mut first = Transaction::begin(&store, TxMode::Write);
    let mut second = Transaction::begin(&store, TxMode::Write);
    first.put(1, 5, b"same".to_vec()).unwrap();
    second.put(1, 5, b"next".to_vec()).unwrap();
    assert_eq!(first.commit(&mut store), Ok(()));
    assert_eq!(second.commit(&mut store), Ok(()));
    assert_eq!(store.get(1, 5), Some(b"next".to_vec()));
}

#[test]
fn two_creators_of_one_table_conflict() {
    let mut store = Store::new();
    let mut first = Transaction::begin(&store, TxMode::Write);
    let mut second = Transaction::begin(&store, TxMode::Write);
    first.create_table(3, String::from("a")).unwrap();
    second.create_table(3, String::from("b")).unwrap();
    second.put(3, 1, b"x".to_vec()).unwrap();
    assert_eq!(first.commit(&mut store), Ok(()));
    assert_eq!(second.commit(&mut store), Err(AncError::TransactionConflict));
    assert!(store.has_table(3));
    assert_eq!(store.get(3, 1), None);
}

#[test]
fn ended_transaction_takes_nothing_more() {
    let mut store = store_with(1, &[]);
    let mut txn = Transaction::begin(&store, TxMode::Write);
    assert!(txn.is_active());
    assert_eq!(txn.mode(), TxMode::Write);
    assert_eq!(txn.status(), TxStatus::Active);
    txn.abort();
    assert_eq!(txn.status(), TxStatus::Aborted);
    assert!(!txn.is_active());
    assert_eq!(txn.put(1, 1, b"x".to_vec()), Err(AncError::NoActiveTransaction));
    assert_eq!(txn.create_table(2, String::from("u")), Err(AncError::NoActiveTransaction));
    assert_eq!(txn.commit(&mut store), Err(AncError::NoActiveTransaction));
    txn.abort();
    assert_eq!(txn.status(), TxStatus::Aborted);
    assert_eq!(store.get(1, 1), None);
}

#[test]
fn read_transaction_commits_without_effect() {
    let mut store = store_with(1, &[(1, b"a")]);
    let mut txn = Transaction::begin(&store, TxMode::Read);
    assert_eq!(txn.put(1, 2, b"b".to_vec()), Err(AncError::TransactionConflict));
    assert!(txn.validates(&store));
    assert_eq!(txn.commit(&mut store), Ok(()));
    assert_eq!(txn.status(), TxStatus::Committed);
    assert_eq!(store.get(1, 2), None);
}

#[test]
fn transaction_sees_tables_it_creates() {
    let store = store_with(1, &[]);
    let mut txn = Transaction::begin(&store, TxMode::Write);
    assert!(txn.knows_table(1));
    assert!(!txn.knows_table(2));
    assert_eq!(txn.put(2, 1, b"x".to_vec()), Err(AncError::TableNotFound));
    txn.create_table(2, String::from("u")).unwrap();
    assert!(txn.knows_table(2));
    assert_eq!(txn.put(2, 1, b"x".to_vec()), Ok(()));
    assert_eq!(txn.create_table(1, String::from("again")), Err(AncError::TableAlreadyExists));
    assert!(txn.validates(&store));
}

#[test]
fn manager_holds_one_slot() {
    let mut store = store_with(1, &[]);
    let mut manager = TransactionManager::new();
    assert_eq!(manager.active_mode(), None);
    assert_eq!(manager.put(1, 1, b"x".to_vec()), Err(AncError::NoActiveTransaction));
    assert_eq!(manager.commit(&mut store), Err(AncError::NoActiveTransaction));
    assert_eq!(manager.begin(&store, TxMode::Write), Ok(()));
    assert_eq!(manager.begin(&store, TxMode::Write), Err(AncError::TransactionConflict));
    assert_eq!(manager.put(1, 1, b"x".to_vec()), Ok(()));
    assert_eq!(manager.create_table(1, String::from("t")), Err(AncError::TableAlreadyExists));
    assert_eq!(manager.commit(&mut store), Ok(()));
    assert_eq!(manager.active_mode(), None);
    assert_eq!(store.get(1, 1), Some(b"x".to_vec()));
    assert_eq!(manager.abort(), Ok(()));
    assert_eq!(manager.active_mode(), None);
}

#[test]
fn two_sessions_on_one_store_detect_the_conflict() {
    let mut store = store_with(1, &[]);
    let mut one = TransactionManager::new();
    let mut two = TransactionManager::new();
    one.begin(&store, TxMode::Write).unwrap();
    two.begin(&store, TxMode::Write).unwrap();
    one.put(1, 4, b"one".to_vec()).unwrap();
    two.put(1, 4, b"two".to_vec()).unwrap();
    assert_eq!(one.commit(&mut store), Ok(()));
    assert_eq!(two.commit(&mut store), Err(AncError::TransactionConflict));
    assert_eq!(two.active_mode(), None);
    assert_eq!(store.get(1, 4), Some(b"one".to_vec()));
}

#[test]
fn store_refuses_duplicates_and_unknown_tables() {
    let mut store = Store::new();
    assert!(!store.has_table(1));
    assert_eq!(store.put(1, 1, b"x".to_vec()), Err(AncError::TableNotFound));
    assert_eq!(store.create_table(1, String::from("a")), Ok(()));
    assert_eq!(store.create_table(1, String::from("b")), Err(AncError::TableAlreadyExists));
    assert_eq!(store.put(1, 1, b"x".to_vec()), Ok(()));
    assert_eq!(store.get(1, 1), Some(b"x".to_vec()));
    assert_eq!(store.get(1, 2), None);
    assert_eq!(store.get(2, 1), None);
}

#[test]
fn store_applies_writes_in_order() {
    let mut store = Store::new();
    let writes = vec![
        WriteOp::Put { table_id: 1, key: 1, value: b"dropped".to_vec() },
        WriteOp::CreateTable { table_id: 1, name: String::from("t") },
        WriteOp::Put { table_id: 1, key: 2, value: b"a".to_vec() },
        WriteOp::Put { table_id: 1, key: 2, value: b"b".to_vec() },
        WriteOp::CreateTable { table_id: 1, name: String::from("other") },
    ];
    store.apply_all(&writes);
    assert_eq!(store.get(1, 1), None);
    assert_eq!(store.get(1, 2), Some(b"b".to_vec()));
    assert_eq!(store.scan(1, 0, 9, false, 9), vec![(2, b"b".to_vec())]);
}

#[test]
fn snapshot_is_independent_of_the_store() {
    let mut store = store_with(1, &[(1, b"a")]);
    let copy = store.snapshot();
    store.put(1, 1, b"changed".to_vec()).unwrap();
    store.create_table(2, String::from("u")).unwrap();
    assert_eq!(copy.get(1, 1), Some(b"a".to_vec()));
    assert!(!copy.has_table(2));
    assert_eq!(store.get(1, 1), Some(b"changed".to_vec()));
}

#[test]
fn table_keeps_rows_sorted_whatever_the_order_of_puts() {
    let mut table = Table::new(9, String::from("nine"));
    assert_eq!(table.id(), 9);
    assert_eq!(table.name().as_str(), "nine");
    for k in [5i64, -1, 3, 0, 3, 7, -1] {
        table.put(k, vec![k as u8]);
    }
    let keys: Vec<i64> = table.scan(i64::MIN, i64::MAX, false, 100).iter().map(|e| e.0).collect();
    assert_eq!(keys, vec![-1, 0, 3, 5, 7]);
    let back: Vec<i64> = table.scan(0, 5, true, 2).iter().map(|e| e.0).collect();
    assert_eq!(back, vec![5, 3]);
    assert_eq!(table.get(3), Some(vec![3u8]));
    assert_eq!(table.get(4), None);
    let copy = table.duplicate();
    table.put(4, vec![4]);
    assert_eq!(copy.get(4), None);
    assert_eq!(copy.get(7), Some(vec![7u8]));
}
