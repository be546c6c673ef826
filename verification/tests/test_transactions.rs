use optimistic_kv::IteratorMode;
use optimistic_kv::OptimisticTransactionDB;
use optimistic_kv::OptimisticTransactionOptions;
use optimistic_kv::Options;
use optimistic_kv::WriteOptions;

#[test]
fn test_transactiondb_creation_and_destroy() {
    let path = "transaction_db";
    let _ = OptimisticTransactionDB::open_default(path).unwrap();
    assert!(OptimisticTransactionDB::destroy(&Options::default(), path).is_ok());
}

#[test]
fn test_transactiondb_commit() {
    let path = "transaction_db";
    let mut db = OptimisticTransactionDB::open_default(path).unwrap();
    let w_opts = WriteOptions::default();
    let txn_opts = OptimisticTransactionOptions::default();
    let mut txn = db.transaction_begin(&w_opts, &txn_opts);
    assert!(txn.put(b"key1", b"value1").is_ok());
    assert!(txn.put(b"key2", b"value2").is_ok());
    assert!(txn.get(&db, b"key1").unwrap().is_some());
    assert!(txn.delete(b"key2").is_ok());
    assert!(txn.get(&db, b"key2").unwrap().is_none());
    assert!(txn.commit(&mut db).is_ok());
    assert_eq!(db.get(b"key1").unwrap().unwrap(), b"value1".to_vec());
}

#[test]
fn test_transactiondb_rollback() {
    let path = "transaction_db";
    let db = OptimisticTransactionDB::open_default(path).unwrap();
    let w_opts = WriteOptions::default();
    let txn_opts = OptimisticTransactionOptions::default();
    let mut txn = db.transaction_begin(&w_opts, &txn_opts);
    assert!(txn.put(b"key1", b"value1").is_ok());
    assert!(txn.get(&db, b"key1").unwrap().is_some());
    assert!(txn.rollback().is_ok());
    assert!(db.get(b"key1").unwrap().is_none());
}

#[test]
fn test_transaction_iterator() {
    let path = "transaction_db";
    let db = OptimisticTransactionDB::open_default(path).unwrap();
    let w_opts = WriteOptions::default();
    let txn_opts = OptimisticTransactionOptions::default();
    let mut txn = db.transaction_begin(&w_opts, &txn_opts);
    assert!(txn.put(b"key1", b"value1").is_ok());
    assert!(txn.put(b"key2", b"value2").is_ok());
    assert!(txn.put(b"key3", b"value3").is_ok());
    assert!(txn.put(b"key4", b"value4").is_ok());
    let iter = txn.iterator(&db, IteratorMode::Start).unwrap();
    assert!(iter.valid());
    assert_eq!(iter.count(), 4);
}

#[test]
fn test_transaction_snapshot() {
    let path = "transaction_db";
    let mut db = OptimisticTransactionDB::open_default(path).unwrap();
    let w_opts = WriteOptions::default();
    let txn_opts = OptimisticTransactionOptions::default();
    let mut txn = db.transaction_begin(&w_opts, &txn_opts);
    assert!(txn.put(b"key1", b"value1").is_ok());
    assert!(txn.put(b"key2", b"value2").is_ok());
    assert!(txn.commit(&mut db).is_ok());
    let snapshot = db.snapshot();
    let mut txn = db.transaction_begin(&w_opts, &txn_opts);
    assert!(txn.put(b"key3", b"value3").is_ok());
    let iter = txn.iterator(&db, IteratorMode::Start).unwrap();
    assert!(iter.valid());
    assert_eq!(iter.count(), 3);
    assert!(txn.commit(&mut db).is_ok());
    let iter = snapshot.iterator(&db, IteratorMode::Start);
    assert!(iter.valid());
    assert_eq!(iter.count(), 2);
}

#[test]
fn test_transaction_savepoint() {
    let path = "transaction_db";
    let db = OptimisticTransactionDB::open_default(path).unwrap();
    let w_opts = WriteOptions::default();
    let txn_opts = OptimisticTransactionOptions::default();
    let mut txn = db.transaction_begin(&w_opts, &txn_opts);
    assert!(txn.put(b"key1", b"value1").is_ok());
    txn.savepoint();
    assert!(txn.get(&db, b"key1").unwrap().is_some());
    assert!(txn.put(b"key2", b"value2").is_ok());
    assert!(txn.get(&db, b"key2").unwrap().is_some());
    assert!(txn.rollback_to_savepoint().is_ok());
    assert!(txn.get(&db, b"key2").unwrap().is_none());
}
