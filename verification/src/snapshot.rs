//! Point-in-time snapshots.
//!
//! A snapshot owns a restricted, write-free transaction that pinned its
//! read point at creation. Whatever commits later, every read through the
//! snapshot sees exactly the committed state as of that sequence number:
//! later log entries carry higher sequence numbers and fall outside the
//! pinned cutoff.

use vstd::prelude::*;

use crate::db::OptimisticTransactionDB;
use crate::errors::Error;
use crate::iter::DBIterator;
use crate::iter::DBRawIterator;
use crate::iter::positioned;
use crate::kvstore::map_of;
use crate::model::cf_state;
use crate::model::opt_bytes;
use crate::model::value_at;
use crate::options::IteratorMode;
use crate::options::OptimisticTransactionOptions;
use crate::options::WriteOptions;
use crate::registry::ColumnFamily;
use crate::registry::id_live;
use crate::txn::DEFAULT_CF;
use crate::txn::Transaction;

verus! {

/// A read-only, immutable view of the database, pinned to the sequence
/// number of the latest commit at creation time.
pub struct Snapshot {
    pub txn: Transaction,
}

impl Snapshot {
    /// Validity: the substrate transaction pinned its read point and
    /// holds no pending writes.
    pub open spec fn wf(self) -> bool {
        self.txn.wf() && self.txn.pinned && self.txn.overlay@.len() == 0
    }

    /// The sequence number this snapshot is pinned to.
    pub open spec fn pinned_seq(self) -> u64 {
        self.txn.begin_seq
    }

    /// The frozen keyspace of column family `cf`: the committed state as
    /// of the pinned sequence number.
    pub open spec fn frozen(self, db: OptimisticTransactionDB, cf: u64) -> Map<Seq<u8>, Seq<u8>> {
        cf_state(db.engine.log@, cf, self.pinned_seq())
    }

    /// Takes a snapshot of `db` now: begins a transaction that pins a
    /// read snapshot and retains it as the read substrate.
    pub fn new(db: &OptimisticTransactionDB) -> (r: Snapshot)
        ensures
            r.wf(),
            r.pinned_seq() == db.engine.seq,
    {
        let write_opts = WriteOptions::default();
        let mut txn_opts = OptimisticTransactionOptions::default();
        txn_opts.set_snapshot(true);
        let txn = db.transaction_begin(&write_opts, &txn_opts);
        Snapshot { txn }
    }

    /// Reads `key` in the default namespace as of the pinned sequence
    /// number, ignoring every later commit.
    pub fn get(&self, db: &OptimisticTransactionDB, key: &[u8]) -> (r: Result<
        Option<Vec<u8>>,
        Error,
    >)
        requires
            self.wf(),
        ensures
            r is Ok,
            opt_bytes(r->Ok_0) == value_at(self.frozen(*db, DEFAULT_CF), key@),
    {
        let kv = self.txn.read_view(db, DEFAULT_CF);
        Ok(kv.get_value(key))
    }

    /// Reads `key` in the given namespace as of the pinned sequence
    /// number; rejects a stale handle.
    pub fn get_cf(&self, db: &OptimisticTransactionDB, cf: ColumnFamily, key: &[u8]) -> (r: Result<
        Option<Vec<u8>>,
        Error,
    >)
        requires
            self.wf(),
        ensures
            r is Ok <==> id_live(db.registry.entries@, cf.id),
            r is Err ==> r->Err_0 is StaleColumnFamilyHandle,
            r is Ok ==> opt_bytes(r->Ok_0) == value_at(self.frozen(*db, cf.id), key@),
    {
        if !db.registry.is_live(cf.id) {
            return Err(Error::StaleColumnFamilyHandle);
        }
        let kv = self.txn.read_view(db, cf.id);
        Ok(kv.get_value(key))
    }

    /// An iterator over the frozen view of the default namespace.
    pub fn iterator(&self, db: &OptimisticTransactionDB, mode: IteratorMode<'_>) -> (r: DBIterator)
        requires
            self.wf(),
        ensures
            r.wf(),
            map_of(r.entries@) == self.frozen(*db, DEFAULT_CF),
            positioned(r, mode),
    {
        let kv = self.txn.read_view(db, DEFAULT_CF);
        DBIterator::over_store(kv, mode)
    }

    /// An iterator over the frozen view of the given namespace; rejects
    /// a stale handle.
    pub fn iterator_cf(
        &self,
        db: &OptimisticTransactionDB,
        cf: ColumnFamily,
        mode: IteratorMode<'_>,
    ) -> (r: Result<DBIterator, Error>)
        requires
            self.wf(),
        ensures
            r is Ok <==> id_live(db.registry.entries@, cf.id),
            r is Err ==> r->Err_0 is StaleColumnFamilyHandle,
            r is Ok ==> {
                &&& r->Ok_0.wf()
                &&& map_of(r->Ok_0.entries@) == self.frozen(*db, cf.id)
                &&& positioned(r->Ok_0, mode)
            },
    {
        if !db.registry.is_live(cf.id) {
            return Err(Error::StaleColumnFamilyHandle);
        }
        let kv = self.txn.read_view(db, cf.id);
        Ok(DBIterator::over_store(kv, mode))
    }

    /// A raw iterator over the frozen view of the default namespace,
    /// not yet positioned.
    pub fn raw_iterator(&self, db: &OptimisticTransactionDB) -> (r: DBRawIterator)
        requires
            self.wf(),
        ensures
            r.wf(),
            map_of(r.entries@) == self.frozen(*db, DEFAULT_CF),
            !r.positioned,
    {
        let kv = self.txn.read_view(db, DEFAULT_CF);
        DBRawIterator::over_store(kv)
    }

    /// A raw iterator over the frozen view of the given namespace;
    /// rejects a stale handle.
    pub fn raw_iterator_cf(&self, db: &OptimisticTransactionDB, cf: ColumnFamily) -> (r: Result<
        DBRawIterator,
        Error,
    >)
        requires
            self.wf(),
        ensures
            r is Ok <==> id_live(db.registry.entries@, cf.id),
            r is Err ==> r->Err_0 is StaleColumnFamilyHandle,
            r is Ok ==> {
                &&& r->Ok_0.wf()
                &&& map_of(r->Ok_0.entries@) == self.frozen(*db, cf.id)
                &&& !r->Ok_0.positioned
            },
    {
        if !db.registry.is_live(cf.id) {
            return Err(Error::StaleColumnFamilyHandle);
        }
        let kv = self.txn.read_view(db, cf.id);
        Ok(DBRawIterator::over_store(kv))
    }
}

} // verus!
