use optimistic_kv::CommitError;
use optimistic_kv::Direction;
use optimistic_kv::Error;
use optimistic_kv::IteratorMode;
use optimistic_kv::KeyOrdering;
use optimistic_kv::OpenError;
use optimistic_kv::OptimisticTransactionDB;
use optimistic_kv::OptimisticTransactionOptions;
use optimistic_kv::Options;
use optimistic_kv::WriteOptions;
use optimistic_kv::compare_bytes;

fn open_db() -> OptimisticTransactionDB {
    OptimisticTransactionDB::open_default("store_properties").unwrap()
}

fn default_txn_opts() -> (WriteOptions, OptimisticTransactionOptions) {
    (WriteOptions::default(), OptimisticTransactionOptions::default())
}

#[test]
fn commit_makes_writes_durable() {
    let mut db = open_db();
    let (w, t) = default_txn_opts();
    let mut txn = db.transaction_begin(&w, &t);
    assert!(txn.put(b"alpha", b"1").is_ok());
    assert!(txn.put(b"beta", b"2").is_ok());
    assert!(txn.delete(b"alpha").is_ok());
    assert!(txn.commit(&mut db).is_ok());
    // Every later read sees the transaction's final value for each key.
    assert_eq!(db.get(b"beta").unwrap().unwrap(), b"2".to_vec());
    assert!(db.get(b"alpha").unwrap().is_none());
    let mut later = db.transaction_begin(&w, &t);
    assert_eq!(later.get(&db, b"beta").unwrap().unwrap(), b"2".to_vec());
}

#[test]
fn rollback_leaves_database_unchanged() {
    let mut db = open_db();
    assert!(db.put(b"kept", b"before").is_ok());
    let (w, t) = default_txn_opts();
    let mut txn = db.transaction_begin(&w, &t);
    assert!(txn.put(b"kept", b"after").is_ok());
    assert!(txn.put(b"new", b"value").is_ok());
    assert!(txn.rollback().is_ok());
    assert_eq!(db.get(b"kept").unwrap().unwrap(), b"before".to_vec());
    assert!(db.get(b"new").unwrap().is_none());
}

#[test]
fn read_your_own_writes_before_commit() {
    let mut db = open_db();
    assert!(db.put(b"shadowed", b"committed").is_ok());
    let (w, t) = default_txn_opts();
    let mut txn = db.transaction_begin(&w, &t);
    assert!(txn.put(b"pending", b"visible").is_ok());
    assert_eq!(txn.get(&db, b"pending").unwrap().unwrap(), b"visible".to_vec());
    assert!(txn.put(b"shadowed", b"overlay").is_ok());
    assert_eq!(txn.get(&db, b"shadowed").unwrap().unwrap(), b"overlay".to_vec());
    assert!(txn.delete(b"shadowed").is_ok());
    assert!(txn.get(&db, b"shadowed").unwrap().is_none());
    // Nothing committed yet: the database still sees the old state.
    assert_eq!(db.get(b"shadowed").unwrap().unwrap(), b"committed".to_vec());
    assert!(db.get(b"pending").unwrap().is_none());
}

#[test]
fn iterator_reflects_pending_state_in_key_order() {
    let db = open_db();
    let (w, t) = default_txn_opts();
    let mut txn = db.transaction_begin(&w, &t);
    assert!(txn.put(b"c", b"3").is_ok());
    assert!(txn.put(b"a", b"1").is_ok());
    assert!(txn.put(b"b", b"2").is_ok());
    let iter = txn.iterator(&db, IteratorMode::Start).unwrap();
    assert_eq!(iter.count(), 3);
    let mut iter = txn.iterator(&db, IteratorMode::Start).unwrap();
    let mut seen: Vec<Vec<u8>> = Vec::new();
    while let Some((k, _)) = iter.next() {
        seen.push(k);
    }
    assert_eq!(seen, vec![b"a".to_vec(), b"b".to_vec(), b"c".to_vec()]);
}

#[test]
fn snapshot_ignores_later_commits() {
    let mut db = open_db();
    assert!(db.put(b"k1", b"v1").is_ok());
    assert!(db.put(b"k2", b"v2").is_ok());
    let snapshot = db.snapshot();
    let (w, t) = default_txn_opts();
    let mut txn = db.transaction_begin(&w, &t);
    assert!(txn.put(b"k3", b"v3").is_ok());
    assert!(txn.commit(&mut db).is_ok());
    assert!(snapshot.get(&db, b"k3").unwrap().is_none());
    assert_eq!(snapshot.get(&db, b"k1").unwrap().unwrap(), b"v1".to_vec());
    assert_eq!(snapshot.iterator(&db, IteratorMode::Start).count(), 2);
    // The database itself sees all three.
    assert_eq!(db.get(b"k3").unwrap().unwrap(), b"v3".to_vec());
}

#[test]
fn savepoint_rollback_discards_only_later_writes() {
    let db = open_db();
    let (w, t) = default_txn_opts();
    let mut txn = db.transaction_begin(&w, &t);
    assert!(txn.put(b"k1", b"v1").is_ok());
    txn.savepoint();
    assert!(txn.put(b"k2", b"v2").is_ok());
    assert!(txn.rollback_to_savepoint().is_ok());
    assert_eq!(txn.get(&db, b"k1").unwrap().unwrap(), b"v1".to_vec());
    assert!(txn.get(&db, b"k2").unwrap().is_none());
}

#[test]
fn nested_savepoints_revert_in_order() {
    let db = open_db();
    let (w, t) = default_txn_opts();
    let mut txn = db.transaction_begin(&w, &t);
    assert!(txn.put(b"k1", b"v1").is_ok());
    txn.savepoint();
    assert!(txn.put(b"k2", b"v2").is_ok());
    txn.savepoint();
    assert!(txn.put(b"k3", b"v3").is_ok());
    assert!(txn.rollback_to_savepoint().is_ok());
    assert!(txn.get(&db, b"k3").unwrap().is_none());
    assert_eq!(txn.get(&db, b"k2").unwrap().unwrap(), b"v2".to_vec());
    assert!(txn.rollback_to_savepoint().is_ok());
    assert!(txn.get(&db, b"k2").unwrap().is_none());
    assert_eq!(txn.get(&db, b"k1").unwrap().unwrap(), b"v1".to_vec());
    assert!(matches!(
        txn.rollback_to_savepoint(),
        Err(Error::NoSavepoint)
    ));
}

#[test]
fn conflicting_commit_fails_and_changes_nothing() {
    let mut db = open_db();
    assert!(db.put(b"k", b"base").is_ok());
    let (w, t) = default_txn_opts();
    let mut txn_a = db.transaction_begin(&w, &t);
    let mut txn_b = db.transaction_begin(&w, &t);
    assert!(txn_a.get(&db, b"k").unwrap().is_some());
    assert!(txn_b.get(&db, b"k").unwrap().is_some());
    assert!(txn_a.put(b"k", b"from_a").is_ok());
    assert!(txn_b.put(b"k", b"from_b").is_ok());
    assert!(txn_a.commit(&mut db).is_ok());
    assert!(matches!(txn_b.commit(&mut db), Err(CommitError::Conflict)));
    assert_eq!(db.get(b"k").unwrap().unwrap(), b"from_a".to_vec());
}

#[test]
fn stale_handle_is_rejected_everywhere() {
    let mut db = open_db();
    let opts = Options::default();
    let cf = db.create_cf("scratch", &opts).unwrap();
    assert!(db.put_cf(cf, b"k", b"v").is_ok());
    assert!(db.drop_cf("scratch").is_ok());
    assert!(matches!(
        db.put_cf(cf, b"k", b"v2"),
        Err(Error::StaleColumnFamilyHandle)
    ));
    assert!(matches!(
        db.get_cf(cf, b"k"),
        Err(Error::StaleColumnFamilyHandle)
    ));
    let (w, t) = default_txn_opts();
    let mut txn = db.transaction_begin(&w, &t);
    assert!(matches!(
        txn.put_cf(&db, cf, b"k", b"v3"),
        Err(Error::StaleColumnFamilyHandle)
    ));
    assert!(matches!(
        txn.get_cf(&db, cf, b"k"),
        Err(Error::StaleColumnFamilyHandle)
    ));
    let snapshot = db.snapshot();
    assert!(matches!(
        snapshot.get_cf(&db, cf, b"k"),
        Err(Error::StaleColumnFamilyHandle)
    ));
    assert!(db.cf_handle("scratch").is_none());
}

#[test]
fn commit_with_stale_overlay_record_is_engine_failure() {
    let mut db = open_db();
    let opts = Options::default();
    let cf = db.create_cf("doomed", &opts).unwrap();
    let (w, t) = default_txn_opts();
    let mut txn = db.transaction_begin(&w, &t);
    assert!(txn.put_cf(&db, cf, b"k", b"v").is_ok());
    assert!(db.drop_cf("doomed").is_ok());
    assert!(matches!(
        txn.commit(&mut db),
        Err(CommitError::EngineFailure(_))
    ));
    assert!(db.get(b"k").unwrap().is_none());
}

#[test]
fn open_cf_always_provides_default() {
    let mut opts = Options::default();
    opts.create_if_missing(true);
    let db = OptimisticTransactionDB::open_cf(&opts, "with_cfs", &["cf1", "cf2"]).unwrap();
    assert!(db.cf_handle("default").is_some());
    assert!(db.cf_handle("cf1").is_some());
    assert!(db.cf_handle("cf2").is_some());
    assert!(db.cf_handle("absent").is_none());
}

#[test]
fn open_without_create_if_missing_fails() {
    let opts = Options::default();
    assert!(matches!(
        OptimisticTransactionDB::open(&opts, "nothing_here"),
        Err(OpenError::EngineFailure(_))
    ));
}

#[test]
fn terminated_transaction_rejects_every_call() {
    let mut db = open_db();
    let (w, t) = default_txn_opts();
    let mut txn = db.transaction_begin(&w, &t);
    assert!(txn.put(b"k", b"v").is_ok());
    assert!(txn.commit(&mut db).is_ok());
    assert!(matches!(
        txn.put(b"k", b"v2"),
        Err(Error::TransactionTerminated)
    ));
    assert!(matches!(txn.get(&db, b"k"), Err(Error::TransactionTerminated)));
    assert!(matches!(txn.rollback(), Err(Error::TransactionTerminated)));
    assert!(matches!(
        txn.rollback_to_savepoint(),
        Err(Error::TransactionTerminated)
    ));
    assert!(matches!(
        txn.commit(&mut db),
        Err(CommitError::TransactionTerminated)
    ));
    assert!(matches!(
        txn.iterator(&db, IteratorMode::Start),
        Err(Error::TransactionTerminated)
    ));
    assert!(matches!(
        txn.raw_iterator(&db),
        Err(Error::TransactionTerminated)
    ));
    let mut rolled = db.transaction_begin(&w, &t);
    assert!(rolled.rollback().is_ok());
    assert!(matches!(rolled.rollback(), Err(Error::TransactionTerminated)));
}

#[test]
fn duplicate_column_family_is_engine_failure() {
    let mut db = open_db();
    let opts = Options::default();
    assert!(db.create_cf("twice", &opts).is_ok());
    assert!(matches!(
        db.create_cf("twice", &opts),
        Err(Error::EngineFailure(_))
    ));
    assert!(matches!(
        db.drop_cf("never_created"),
        Err(Error::UnknownColumnFamily(_))
    ));
}

#[test]
fn merge_concatenates_operands() {
    let mut db = open_db();
    let w = WriteOptions::default();
    assert!(db.merge_opt(b"m", b"abc", &w).is_ok());
    assert_eq!(db.get(b"m").unwrap().unwrap(), b"abc".to_vec());
    assert!(db.merge_opt(b"m", b"def", &w).is_ok());
    assert_eq!(db.get(b"m").unwrap().unwrap(), b"abcdef".to_vec());
    let opts = Options::default();
    let cf = db.create_cf("merges", &opts).unwrap();
    assert!(db.merge_cf_opt(cf, b"m", b"xyz", &w).is_ok());
    assert_eq!(db.get_cf(cf, b"m").unwrap().unwrap(), b"xyz".to_vec());
}

#[test]
fn transaction_merge_is_visible_before_commit() {
    let mut db = open_db();
    assert!(db.put(b"m", b"base").is_ok());
    let (w, t) = default_txn_opts();
    let mut txn = db.transaction_begin(&w, &t);
    assert!(txn.merge(b"m", b"+more").is_ok());
    assert_eq!(txn.get(&db, b"m").unwrap().unwrap(), b"base+more".to_vec());
    assert_eq!(db.get(b"m").unwrap().unwrap(), b"base".to_vec());
}

#[test]
fn pinned_transaction_reads_its_begin_state() {
    let mut db = open_db();
    assert!(db.put(b"k", b"old").is_ok());
    let w = WriteOptions::default();
    let mut t = OptimisticTransactionOptions::default();
    t.set_snapshot(true);
    let mut pinned = db.transaction_begin(&w, &t);
    assert!(db.put(b"k", b"new").is_ok());
    assert_eq!(pinned.get(&db, b"k").unwrap().unwrap(), b"old".to_vec());
    let plain = OptimisticTransactionOptions::default();
    let mut unpinned = db.transaction_begin(&w, &plain);
    assert_eq!(unpinned.get(&db, b"k").unwrap().unwrap(), b"new".to_vec());
}

#[test]
fn iterator_modes_position_correctly() {
    let mut db = open_db();
    assert!(db.put(b"a", b"1").is_ok());
    assert!(db.put(b"c", b"3").is_ok());
    assert!(db.put(b"e", b"5").is_ok());
    let snapshot = db.snapshot();
    let mut from_end = snapshot.iterator(&db, IteratorMode::End);
    assert_eq!(from_end.next().unwrap().0, b"e".to_vec());
    assert_eq!(from_end.next().unwrap().0, b"c".to_vec());
    let mut fwd = snapshot.iterator(&db, IteratorMode::From(b"b", Direction::Forward));
    assert_eq!(fwd.next().unwrap().0, b"c".to_vec());
    let mut rev = snapshot.iterator(&db, IteratorMode::From(b"c", Direction::Reverse));
    assert_eq!(rev.next().unwrap().0, b"c".to_vec());
    assert_eq!(rev.next().unwrap().0, b"a".to_vec());
    assert!(rev.next().is_none());
    let empty_side = snapshot.iterator(&db, IteratorMode::From(b"f", Direction::Forward));
    assert_eq!(empty_side.count(), 0);
}

#[test]
fn raw_iterator_walks_both_ways() {
    let mut db = open_db();
    assert!(db.put(b"a", b"1").is_ok());
    assert!(db.put(b"b", b"2").is_ok());
    let snapshot = db.snapshot();
    let mut raw = snapshot.raw_iterator(&db);
    assert!(!raw.valid());
    raw.seek_to_first();
    assert!(raw.valid());
    assert_eq!(raw.key().unwrap(), b"a".to_vec());
    assert_eq!(raw.value().unwrap(), b"1".to_vec());
    raw.next();
    assert_eq!(raw.key().unwrap(), b"b".to_vec());
    raw.next();
    assert!(!raw.valid());
    assert!(raw.key().is_none());
    raw.seek_to_last();
    assert_eq!(raw.key().unwrap(), b"b".to_vec());
    raw.prev();
    assert_eq!(raw.key().unwrap(), b"a".to_vec());
    raw.prev();
    assert!(!raw.valid());
}

#[test]
fn byte_keys_compare_lexicographically() {
    assert!(matches!(compare_bytes(b"abc", b"abd"), KeyOrdering::Less));
    assert!(matches!(compare_bytes(b"abc", b"abc"), KeyOrdering::Equal));
    assert!(matches!(compare_bytes(b"abca", b"abc"), KeyOrdering::Greater));
    assert!(matches!(compare_bytes(b"", b"a"), KeyOrdering::Less));
}

#[test]
fn snapshot_iterator_cf_tracks_frozen_view() {
    let mut db = open_db();
    let opts = Options::default();
    let cf = db.create_cf("frozen", &opts).unwrap();
    assert!(db.put_cf(cf, b"x", b"1").is_ok());
    let snapshot = db.snapshot();
    assert!(db.put_cf(cf, b"y", b"2").is_ok());
    let iter = snapshot.iterator_cf(&db, cf, IteratorMode::Start).unwrap();
    assert_eq!(iter.count(), 1);
    let mut raw = snapshot.raw_iterator_cf(&db, cf).unwrap();
    raw.seek_to_first();
    assert_eq!(raw.key().unwrap(), b"x".to_vec());
}

#[test]
fn cf_variants_work_through_a_transaction() {
    let mut db = open_db();
    let opts = Options::default();
    let cf = db.create_cf("vals", &opts).unwrap();
    assert!(db.put_cf(cf, b"k", b"v").is_ok());
    let (w, t) = default_txn_opts();
    let mut txn = db.transaction_begin(&w, &t);
    assert!(txn.merge_cf(&db, cf, b"k", b"+1").is_ok());
    assert_eq!(txn.get_cf(&db, cf, b"k").unwrap().unwrap(), b"v+1".to_vec());
    assert!(txn.delete_cf(&db, cf, b"k").is_ok());
    assert!(txn.get_cf(&db, cf, b"k").unwrap().is_none());
    assert!(txn.commit(&mut db).is_ok());
    assert!(db.get_cf(cf, b"k").unwrap().is_none());
    assert!(db.put_cf(cf, b"z", b"9").is_ok());
    assert!(db.delete_cf(cf, b"z").is_ok());
    assert!(db.get_cf(cf, b"z").unwrap().is_none());
    let mut txn2 = db.transaction_begin(&w, &t);
    assert!(txn2.put_cf(&db, cf, b"a", b"1").is_ok());
    let iter = txn2.iterator_cf(&db, cf, IteratorMode::Start).unwrap();
    assert_eq!(iter.count(), 1);
}

#[test]
fn plain_open_registers_no_namespace() {
    let mut opts = Options::default();
    opts.create_if_missing(true);
    let mut db = OptimisticTransactionDB::open(&opts, "plain").unwrap();
    // The default namespace lives at the engine level; the registry
    // starts empty and only create_cf/open_cf register names.
    assert!(db.cf_handle("default").is_none());
    assert!(db.put(b"k", b"v").is_ok());
    assert_eq!(db.get(b"k").unwrap().unwrap(), b"v".to_vec());
    assert!(matches!(
        db.create_cf("default", &opts),
        Err(Error::EngineFailure(_))
    ));
    let (w, t) = default_txn_opts();
    let mut txn = db.transaction_begin(&w, &t);
    assert!(txn.put(b"k2", b"v2").is_ok());
    assert!(txn.commit(&mut db).is_ok());
    assert_eq!(db.get(b"k2").unwrap().unwrap(), b"v2".to_vec());
}

#[test]
fn raw_iterator_seeks_to_a_key() {
    let mut db = open_db();
    assert!(db.put(b"b", b"2").is_ok());
    assert!(db.put(b"d", b"4").is_ok());
    let (w, t) = default_txn_opts();
    let txn = db.transaction_begin(&w, &t);
    let mut raw = txn.raw_iterator(&db).unwrap();
    raw.seek(b"c");
    assert!(raw.valid());
    assert_eq!(raw.key().unwrap(), b"d".to_vec());
    raw.seek(b"b");
    assert_eq!(raw.key().unwrap(), b"b".to_vec());
    raw.seek(b"e");
    assert!(!raw.valid());
}
