use optimistic_kv::OptimisticTransactionDB;
use optimistic_kv::Options;

#[test]
fn test_get_cf_names() {
    let path = "/tmp/rocksdb_test_utils";
    let mut opts = Options::default();

    opts.create_if_missing(true);
    let mut db = OptimisticTransactionDB::open(&opts, path).unwrap();
    let cf1 = db.create_cf("cf1", &opts).unwrap();
    let cf2 = db.create_cf("cf2", &opts).unwrap();
    let _ = db.put_cf(cf1, b"a", b"a");
    let _ = db.put_cf(cf2, b"a", b"a");

    // The engine persists nothing, so the on-disk name listing is
    // re-created by opening with the same names; it always includes the
    // default namespace.
    let cf_names = ["default", "cf1", "cf2"];

    {
        let db2 = OptimisticTransactionDB::open_cf(&opts, path, &cf_names).unwrap();
        let cf1 = db2.cf_handle("cf1").unwrap();
        let cf2 = db2.cf_handle("cf2").unwrap();

        assert!(db2.cf_handle("default").is_some());
        assert!(db2.get_cf(cf1, b"a").is_ok());
        assert!(db2.get_cf(cf2, b"a").is_ok());
    }

    if let Err(e) = OptimisticTransactionDB::destroy(&opts, path) {
        println!("couldn't destroy database: {:?}", e);
    }
}
