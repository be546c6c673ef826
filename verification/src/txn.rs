//! Optimistic transactions.
//!
//! A transaction buffers its writes in a private overlay, invisible to
//! everyone else until `commit` moves them atomically into the base
//! engine. Reads see the transaction's own pending mutations over the
//! committed state at its read point ("read your own writes"). Savepoints
//! are markers into the overlay to which the transaction can be reverted
//! without aborting. At commit, every key this transaction read or wrote
//! is validated: if any was modified by a commit later than this
//! transaction's read point, the commit fails with `Conflict` and leaves
//! the database unchanged. Conflicts are not retried here: the caller
//! begins a fresh transaction and tries again.

use vstd::prelude::*;

use crate::db::OptimisticTransactionDB;
use crate::engine::apply_overlay;
use crate::engine::merged_state;
use crate::errors::CommitError;
use crate::errors::Error;
use crate::iter::DBIterator;
use crate::iter::DBRawIterator;
use crate::kvstore::SortedKv;
use crate::model::LogEntry;
use crate::model::Mutation;
use crate::model::Rec;
use crate::model::key_modified_after;
use crate::model::opt_bytes;
use crate::model::rec_is_delete;
use crate::model::rec_is_merge;
use crate::model::rec_is_put;
use crate::model::stamped;
use crate::model::value_at;
use crate::options::IteratorMode;
use crate::options::OptimisticTransactionOptions;
use crate::options::WriteOptions;
use crate::registry::ColumnFamily;
use crate::registry::id_live;

verus! {

/// The identifier of the default column family.
pub const DEFAULT_CF: u64 = 0;

/// Where a transaction stands: active, or terminated one way.
#[derive(PartialEq, Eq, Structural, Clone, Copy, Debug)]
pub enum TxnStatus {
    Active,
    Committed,
    RolledBack,
}

/// One key a transaction read or wrote, remembered for commit-time
/// conflict validation.
pub struct WatchedKey {
    pub cf: u64,
    pub key: Vec<u8>,
}

/// Some watched key was modified by a commit later than `after`.
pub open spec fn watched_conflict(watched: Seq<WatchedKey>, log: Seq<LogEntry>, after: u64) -> bool {
    exists|i: int|
        0 <= i < watched.len() && key_modified_after(log, watched[i].cf, watched[i].key@, after)
}

/// Every overlay record addresses a still-existing column family. The
/// engine-level default namespace always exists and is never dropped
/// there, so records for it always pass.
pub open spec fn overlay_cfs_live(overlay: Seq<Rec>, es: Seq<crate::registry::CfEntry>) -> bool {
    forall|i: int|
        0 <= i < overlay.len() ==> (#[trigger] overlay[i]).cf == DEFAULT_CF || id_live(
            es,
            overlay[i].cf,
        )
}

/// An optimistic transaction over one database.
pub struct Transaction {
    pub status: TxnStatus,
    pub overlay: Vec<Rec>,
    pub savepoints: Vec<usize>,
    pub watched: Vec<WatchedKey>,
    pub begin_seq: u64,
    pub pinned: bool,
}

impl Transaction {
    /// Validity: every savepoint marker lies within the overlay, and the
    /// markers are nondecreasing up the stack (each was recorded at a
    /// later, no-shorter overlay).
    pub open spec fn wf(self) -> bool {
        &&& forall|i: int|
            0 <= i < self.savepoints@.len() ==> (#[trigger] self.savepoints@[i])
                <= self.overlay@.len()
        &&& forall|i: int, j: int|
            0 <= i < j < self.savepoints@.len() ==> (#[trigger] self.savepoints@[i])
                <= (#[trigger] self.savepoints@[j])
    }

    /// The transaction can still be used.
    pub open spec fn is_active(self) -> bool {
        self.status is Active
    }

    /// The sequence number this transaction reads committed state at:
    /// its begin point when it pinned a snapshot, else the latest commit.
    pub open spec fn read_point(self, engine_seq: u64) -> u64 {
        if self.pinned {
            self.begin_seq
        } else {
            engine_seq
        }
    }

    /// The merged view this transaction reads for column family `cf`.
    pub open spec fn view_of(self, db: OptimisticTransactionDB, cf: u64) -> Map<Seq<u8>, Seq<u8>> {
        merged_state(db.engine.log@, self.overlay@, cf, self.read_point(db.engine.seq))
    }

    /// Begins a transaction against `db`. Never fails: construction is
    /// local state. With `snapshot` set in the options, the read point is
    /// pinned to the engine's sequence number now.
    pub fn begin(
        db: &OptimisticTransactionDB,
        _write_opts: &WriteOptions,
        txn_opts: &OptimisticTransactionOptions,
    ) -> (r: Transaction)
        ensures
            r.wf(),
            r.status == TxnStatus::Active,
            r.overlay@.len() == 0,
            r.savepoints@.len() == 0,
            r.watched@.len() == 0,
            r.begin_seq == db.engine.seq,
            r.pinned == txn_opts.snapshot,
    {
        Transaction {
            status: TxnStatus::Active,
            overlay: Vec::new(),
            savepoints: Vec::new(),
            watched: Vec::new(),
            begin_seq: db.engine.seq,
            pinned: txn_opts.snapshot,
        }
    }

    /// Materializes the merged view of `cf` this transaction reads.
    pub(crate) fn read_view(&self, db: &OptimisticTransactionDB, cf: u64) -> (kv: SortedKv)
        ensures
            kv.wf(),
            kv.as_map() == self.view_of(*db, cf),
    {
        let upto = if self.pinned {
            self.begin_seq
        } else {
            db.engine.seq
        };
        let mut kv = db.engine.materialize(cf, upto);
        apply_overlay(&mut kv, &self.overlay, cf);
        kv
    }

    /// Buffers a mutation record and tracks its key, leaving everything
    /// else unchanged.
    fn buffer(&mut self, rec: Rec)
        requires
            old(self).wf(),
            old(self).is_active(),
        ensures
            final(self).wf(),
            final(self).overlay@.len() == old(self).overlay@.len() + 1,
            final(self).overlay@.drop_last() == old(self).overlay@,
            final(self).overlay@.last().cf == rec.cf,
            final(self).overlay@.last().key@ == rec.key@,
            final(self).overlay@.last().m == rec.m,
            final(self).watched@.len() == old(self).watched@.len() + 1,
            final(self).watched@.drop_last() == old(self).watched@,
            final(self).watched@.last().cf == rec.cf,
            final(self).watched@.last().key@ == rec.key@,
            final(self).status == old(self).status,
            final(self).savepoints@ == old(self).savepoints@,
            final(self).begin_seq == old(self).begin_seq,
            final(self).pinned == old(self).pinned,
    {
        let watched_key = WatchedKey {
            cf: rec.cf,
            key: vstd::slice::slice_to_vec(rec.key.as_slice()),
        };
        self.watched.push(watched_key);
        self.overlay.push(rec);
        proof {
            assert(final(self).overlay@.drop_last() =~= old(self).overlay@);
            assert(final(self).watched@.drop_last() =~= old(self).watched@);
        }
    }

    /// Buffers a put of `value` under `key` in the default column family.
    pub fn put(&mut self, key: &[u8], value: &[u8]) -> (r: Result<(), Error>)
        requires
            old(self).wf(),
        ensures
            final(self).wf(),
            r is Ok <==> old(self).is_active(),
            r is Err ==> r->Err_0 is TransactionTerminated && *final(self) == *old(self),
            r is Ok ==> {
                &&& final(self).overlay@.len() == old(self).overlay@.len() + 1
                &&& final(self).overlay@.drop_last() == old(self).overlay@
                &&& rec_is_put(final(self).overlay@.last(), DEFAULT_CF, key@, value@)
                &&& final(self).watched@.len() == old(self).watched@.len() + 1
                &&& final(self).watched@.drop_last() == old(self).watched@
                &&& final(self).watched@.last().cf == DEFAULT_CF
                &&& final(self).watched@.last().key@ == key@
                &&& final(self).status == old(self).status
                &&& final(self).savepoints@ == old(self).savepoints@
                &&& final(self).begin_seq == old(self).begin_seq
                &&& final(self).pinned == old(self).pinned
            },
    {
        if !matches!(self.status, TxnStatus::Active) {
            return Err(Error::TransactionTerminated);
        }
        let rec = Rec {
            cf: DEFAULT_CF,
            key: vstd::slice::slice_to_vec(key),
            m: Mutation::Put(vstd::slice::slice_to_vec(value)),
        };
        self.buffer(rec);
        Ok(())
    }

    /// Buffers a put in the given column family; rejects a stale handle.
    pub fn put_cf(
        &mut self,
        db: &OptimisticTransactionDB,
        cf: ColumnFamily,
        key: &[u8],
        value: &[u8],
    ) -> (r: Result<(), Error>)
        requires
            old(self).wf(),
        ensures
            final(self).wf(),
            r is Ok <==> old(self).is_active() && id_live(db.registry.entries@, cf.id),
            r is Err ==> *final(self) == *old(self),
            !old(self).is_active() ==> r is Err && r->Err_0 is TransactionTerminated,
            old(self).is_active() && !id_live(db.registry.entries@, cf.id) ==> r is Err
                && r->Err_0 is StaleColumnFamilyHandle,
            r is Ok ==> {
                &&& final(self).overlay@.len() == old(self).overlay@.len() + 1
                &&& final(self).overlay@.drop_last() == old(self).overlay@
                &&& rec_is_put(final(self).overlay@.last(), cf.id, key@, value@)
                &&& final(self).watched@.len() == old(self).watched@.len() + 1
                &&& final(self).watched@.drop_last() == old(self).watched@
                &&& final(self).watched@.last().cf == cf.id
                &&& final(self).watched@.last().key@ == key@
                &&& final(self).status == old(self).status
                &&& final(self).savepoints@ == old(self).savepoints@
                &&& final(self).begin_seq == old(self).begin_seq
                &&& final(self).pinned == old(self).pinned
            },
    {
        if !matches!(self.status, TxnStatus::Active) {
            return Err(Error::TransactionTerminated);
        }
        if !db.registry.is_live(cf.id) {
            return Err(Error::StaleColumnFamilyHandle);
        }
        let rec = Rec {
            cf: cf.id,
            key: vstd::slice::slice_to_vec(key),
            m: Mutation::Put(vstd::slice::slice_to_vec(value)),
        };
        self.buffer(rec);
        Ok(())
    }

    /// Buffers a delete of `key` in the given column family; rejects a
    /// stale handle.
    pub fn delete_cf(
        &mut self,
        db: &OptimisticTransactionDB,
        cf: ColumnFamily,
        key: &[u8],
    ) -> (r: Result<(), Error>)
        requires
            old(self).wf(),
        ensures
            final(self).wf(),
            r is Ok <==> old(self).is_active() && id_live(db.registry.entries@, cf.id),
            r is Err ==> *final(self) == *old(self),
            !old(self).is_active() ==> r is Err && r->Err_0 is TransactionTerminated,
            old(self).is_active() && !id_live(db.registry.entries@, cf.id) ==> r is Err
                && r->Err_0 is StaleColumnFamilyHandle,
            r is Ok ==> {
                &&& final(self).overlay@.len() == old(self).overlay@.len() + 1
                &&& final(self).overlay@.drop_last() == old(self).overlay@
                &&& rec_is_delete(final(self).overlay@.last(), cf.id, key@)
                &&& final(self).watched@.len() == old(self).watched@.len() + 1
                &&& final(self).watched@.drop_last() == old(self).watched@
                &&& final(self).watched@.last().cf == cf.id
                &&& final(self).watched@.last().key@ == key@
                &&& final(self).status == old(self).status
                &&& final(self).savepoints@ == old(self).savepoints@
                &&& final(self).begin_seq == old(self).begin_seq
                &&& final(self).pinned == old(self).pinned
            },
    {
        if !matches!(self.status, TxnStatus::Active) {
            return Err(Error::TransactionTerminated);
        }
        if !db.registry.is_live(cf.id) {
            return Err(Error::StaleColumnFamilyHandle);
        }
        let rec = Rec { cf: cf.id, key: vstd::slice::slice_to_vec(key), m: Mutation::Delete };
        self.buffer(rec);
        Ok(())
    }

    /// Buffers a merge of `operand` into `key` in the given column
    /// family; rejects a stale handle.
    pub fn merge_cf(
        &mut self,
        db: &OptimisticTransactionDB,
        cf: ColumnFamily,
        key: &[u8],
        operand: &[u8],
    ) -> (r: Result<(), Error>)
        requires
            old(self).wf(),
        ensures
            final(self).wf(),
            r is Ok <==> old(self).is_active() && id_live(db.registry.entries@, cf.id),
            r is Err ==> *final(self) == *old(self),
            !old(self).is_active() ==> r is Err && r->Err_0 is TransactionTerminated,
            old(self).is_active() && !id_live(db.registry.entries@, cf.id) ==> r is Err
                && r->Err_0 is StaleColumnFamilyHandle,
            r is Ok ==> {
                &&& final(self).overlay@.len() == old(self).overlay@.len() + 1
                &&& final(self).overlay@.drop_last() == old(self).overlay@
                &&& rec_is_merge(final(self).overlay@.last(), cf.id, key@, operand@)
                &&& final(self).watched@.len() == old(self).watched@.len() + 1
                &&& final(self).watched@.drop_last() == old(self).watched@
                &&& final(self).watched@.last().cf == cf.id
                &&& final(self).watched@.last().key@ == key@
                &&& final(self).status == old(self).status
                &&& final(self).savepoints@ == old(self).savepoints@
                &&& final(self).begin_seq == old(self).begin_seq
                &&& final(self).pinned == old(self).pinned
            },
    {
        if !matches!(self.status, TxnStatus::Active) {
            return Err(Error::TransactionTerminated);
        }
        if !db.registry.is_live(cf.id) {
            return Err(Error::StaleColumnFamilyHandle);
        }
        let rec = Rec {
            cf: cf.id,
            key: vstd::slice::slice_to_vec(key),
            m: Mutation::Merge(vstd::slice::slice_to_vec(operand)),
        };
        self.buffer(rec);
        Ok(())
    }

    /// Buffers a delete of `key` in the default column family.
    pub fn delete(&mut self, key: &[u8]) -> (r: Result<(), Error>)
        requires
            old(self).wf(),
        ensures
            final(self).wf(),
            r is Ok <==> old(self).is_active(),
            r is Err ==> r->Err_0 is TransactionTerminated && *final(self) == *old(self),
            r is Ok ==> {
                &&& final(self).overlay@.len() == old(self).overlay@.len() + 1
                &&& final(self).overlay@.drop_last() == old(self).overlay@
                &&& rec_is_delete(final(self).overlay@.last(), DEFAULT_CF, key@)
                &&& final(self).watched@.len() == old(self).watched@.len() + 1
                &&& final(self).watched@.drop_last() == old(self).watched@
                &&& final(self).watched@.last().cf == DEFAULT_CF
                &&& final(self).watched@.last().key@ == key@
                &&& final(self).status == old(self).status
                &&& final(self).savepoints@ == old(self).savepoints@
                &&& final(self).begin_seq == old(self).begin_seq
                &&& final(self).pinned == old(self).pinned
            },
    {
        if !matches!(self.status, TxnStatus::Active) {
            return Err(Error::TransactionTerminated);
        }
        let rec = Rec { cf: DEFAULT_CF, key: vstd::slice::slice_to_vec(key), m: Mutation::Delete };
        self.buffer(rec);
        Ok(())
    }

    /// Buffers a merge of `operand` into `key` in the default column
    /// family (the engine combines by concatenation).
    pub fn merge(&mut self, key: &[u8], operand: &[u8]) -> (r: Result<(), Error>)
        requires
            old(self).wf(),
        ensures
            final(self).wf(),
            r is Ok <==> old(self).is_active(),
            r is Err ==> r->Err_0 is TransactionTerminated && *final(self) == *old(self),
            r is Ok ==> {
                &&& final(self).overlay@.len() == old(self).overlay@.len() + 1
                &&& final(self).overlay@.drop_last() == old(self).overlay@
                &&& rec_is_merge(final(self).overlay@.last(), DEFAULT_CF, key@, operand@)
                &&& final(self).watched@.len() == old(self).watched@.len() + 1
                &&& final(self).watched@.drop_last() == old(self).watched@
                &&& final(self).watched@.last().cf == DEFAULT_CF
                &&& final(self).watched@.last().key@ == key@
                &&& final(self).status == old(self).status
                &&& final(self).savepoints@ == old(self).savepoints@
                &&& final(self).begin_seq == old(self).begin_seq
                &&& final(self).pinned == old(self).pinned
            },
    {
        if !matches!(self.status, TxnStatus::Active) {
            return Err(Error::TransactionTerminated);
        }
        let rec = Rec {
            cf: DEFAULT_CF,
            key: vstd::slice::slice_to_vec(key),
            m: Mutation::Merge(vstd::slice::slice_to_vec(operand)),
        };
        self.buffer(rec);
        Ok(())
    }

    /// Reads `key` through the merged view: this transaction's pending
    /// value if present (a pending delete reads as absent), else the
    /// committed value at the read point. Tracks the key.
    pub fn get(&mut self, db: &OptimisticTransactionDB, key: &[u8]) -> (r: Result<
        Option<Vec<u8>>,
        Error,
    >)
        requires
            old(self).wf(),
        ensures
            final(self).wf(),
            r is Ok <==> old(self).is_active(),
            r is Err ==> r->Err_0 is TransactionTerminated && *final(self) == *old(self),
            r is Ok ==> {
                &&& opt_bytes(r->Ok_0) == value_at(old(self).view_of(*db, DEFAULT_CF), key@)
                &&& final(self).overlay@ == old(self).overlay@
                &&& final(self).status == old(self).status
                &&& final(self).savepoints@ == old(self).savepoints@
                &&& final(self).begin_seq == old(self).begin_seq
                &&& final(self).pinned == old(self).pinned
                &&& final(self).watched@.len() == old(self).watched@.len() + 1
                &&& final(self).watched@.drop_last() == old(self).watched@
                &&& final(self).watched@.last().cf == DEFAULT_CF
                &&& final(self).watched@.last().key@ == key@
            },
    {
        if !matches!(self.status, TxnStatus::Active) {
            return Err(Error::TransactionTerminated);
        }
        let kv = self.read_view(db, DEFAULT_CF);
        let value = kv.get_value(key);
        self.watched.push(WatchedKey { cf: DEFAULT_CF, key: vstd::slice::slice_to_vec(key) });
        proof {
            assert(final(self).watched@.drop_last() =~= old(self).watched@);
        }
        Ok(value)
    }

    /// Reads `key` in the given column family through the merged view;
    /// rejects a stale handle. Tracks the key.
    pub fn get_cf(&mut self, db: &OptimisticTransactionDB, cf: ColumnFamily, key: &[u8]) -> (r:
        Result<Option<Vec<u8>>, Error>)
        requires
            old(self).wf(),
        ensures
            final(self).wf(),
            r is Ok <==> old(self).is_active() && id_live(db.registry.entries@, cf.id),
            r is Err ==> *final(self) == *old(self),
            !old(self).is_active() ==> r is Err && r->Err_0 is TransactionTerminated,
            old(self).is_active() && !id_live(db.registry.entries@, cf.id) ==> r is Err
                && r->Err_0 is StaleColumnFamilyHandle,
            r is Ok ==> {
                &&& opt_bytes(r->Ok_0) == value_at(old(self).view_of(*db, cf.id), key@)
                &&& final(self).overlay@ == old(self).overlay@
                &&& final(self).status == old(self).status
                &&& final(self).savepoints@ == old(self).savepoints@
                &&& final(self).begin_seq == old(self).begin_seq
                &&& final(self).pinned == old(self).pinned
                &&& final(self).watched@.len() == old(self).watched@.len() + 1
                &&& final(self).watched@.drop_last() == old(self).watched@
                &&& final(self).watched@.last().cf == cf.id
                &&& final(self).watched@.last().key@ == key@
            },
    {
        if !matches!(self.status, TxnStatus::Active) {
            return Err(Error::TransactionTerminated);
        }
        if !db.registry.is_live(cf.id) {
            return Err(Error::StaleColumnFamilyHandle);
        }
        let kv = self.read_view(db, cf.id);
        let value = kv.get_value(key);
        self.watched.push(WatchedKey { cf: cf.id, key: vstd::slice::slice_to_vec(key) });
        proof {
            assert(final(self).watched@.drop_last() =~= old(self).watched@);
        }
        Ok(value)
    }

    /// An iterator over the merged view of the default column family,
    /// positioned by `mode`. Fails with `TransactionTerminated` on a
    /// terminated transaction.
    pub fn iterator(&self, db: &OptimisticTransactionDB, mode: IteratorMode<'_>) -> (r: Result<
        DBIterator,
        Error,
    >)
        ensures
            r is Ok <==> self.is_active(),
            r is Err ==> r->Err_0 is TransactionTerminated,
            r is Ok ==> {
                &&& r->Ok_0.wf()
                &&& crate::kvstore::map_of(r->Ok_0.entries@) == self.view_of(*db, DEFAULT_CF)
                &&& crate::iter::positioned(r->Ok_0, mode)
            },
    {
        if !matches!(self.status, TxnStatus::Active) {
            return Err(Error::TransactionTerminated);
        }
        let kv = self.read_view(db, DEFAULT_CF);
        Ok(DBIterator::over_store(kv, mode))
    }

    /// An iterator over the merged view of the given column family,
    /// positioned by `mode`; rejects a terminated transaction and a
    /// stale handle.
    pub fn iterator_cf(
        &self,
        db: &OptimisticTransactionDB,
        cf: ColumnFamily,
        mode: IteratorMode<'_>,
    ) -> (r: Result<DBIterator, Error>)
        ensures
            r is Ok <==> self.is_active() && id_live(db.registry.entries@, cf.id),
            !self.is_active() ==> r is Err && r->Err_0 is TransactionTerminated,
            self.is_active() && !id_live(db.registry.entries@, cf.id) ==> r is Err
                && r->Err_0 is StaleColumnFamilyHandle,
            r is Ok ==> {
                &&& r->Ok_0.wf()
                &&& crate::kvstore::map_of(r->Ok_0.entries@) == self.view_of(*db, cf.id)
                &&& crate::iter::positioned(r->Ok_0, mode)
            },
    {
        if !matches!(self.status, TxnStatus::Active) {
            return Err(Error::TransactionTerminated);
        }
        if !db.registry.is_live(cf.id) {
            return Err(Error::StaleColumnFamilyHandle);
        }
        let kv = self.read_view(db, cf.id);
        Ok(DBIterator::over_store(kv, mode))
    }

    /// A raw iterator over the merged view of the default column family,
    /// not yet positioned. Fails with `TransactionTerminated` on a
    /// terminated transaction.
    pub fn raw_iterator(&self, db: &OptimisticTransactionDB) -> (r: Result<DBRawIterator, Error>)
        ensures
            r is Ok <==> self.is_active(),
            r is Err ==> r->Err_0 is TransactionTerminated,
            r is Ok ==> {
                &&& r->Ok_0.wf()
                &&& crate::kvstore::map_of(r->Ok_0.entries@) == self.view_of(*db, DEFAULT_CF)
                &&& !r->Ok_0.positioned
            },
    {
        if !matches!(self.status, TxnStatus::Active) {
            return Err(Error::TransactionTerminated);
        }
        let kv = self.read_view(db, DEFAULT_CF);
        Ok(DBRawIterator::over_store(kv))
    }

    /// Pushes a savepoint marker recording the current overlay length.
    /// The operation surface gives `savepoint` no error channel, so on a
    /// terminated transaction it does nothing rather than report
    /// `TransactionTerminated`.
    pub fn savepoint(&mut self)
        requires
            old(self).wf(),
        ensures
            final(self).wf(),
            old(self).is_active() ==> {
                &&& final(self).savepoints@ == old(self).savepoints@.push(
                    old(self).overlay@.len() as usize,
                )
                &&& final(self).overlay@ == old(self).overlay@
                &&& final(self).status == old(self).status
                &&& final(self).watched@ == old(self).watched@
                &&& final(self).begin_seq == old(self).begin_seq
                &&& final(self).pinned == old(self).pinned
            },
            !old(self).is_active() ==> *final(self) == *old(self),
    {
        if matches!(self.status, TxnStatus::Active) {
            let marker = self.overlay.len();
            self.savepoints.push(marker);
        }
    }

    /// Discards every mutation recorded after the most recent savepoint
    /// and pops that marker. Fails with `NoSavepoint` on an empty stack.
    pub fn rollback_to_savepoint(&mut self) -> (r: Result<(), Error>)
        requires
            old(self).wf(),
        ensures
            final(self).wf(),
            r is Ok <==> old(self).is_active() && old(self).savepoints@.len() > 0,
            r is Err ==> *final(self) == *old(self),
            !old(self).is_active() ==> r is Err && r->Err_0 is TransactionTerminated,
            old(self).is_active() && old(self).savepoints@.len() == 0 ==> r is Err
                && r->Err_0 is NoSavepoint,
            r is Ok ==> {
                &&& final(self).overlay@ == old(self).overlay@.take(
                    old(self).savepoints@.last() as int,
                )
                &&& final(self).savepoints@ == old(self).savepoints@.drop_last()
                &&& final(self).status == old(self).status
                &&& final(self).watched@ == old(self).watched@
                &&& final(self).begin_seq == old(self).begin_seq
                &&& final(self).pinned == old(self).pinned
            },
    {
        if !matches!(self.status, TxnStatus::Active) {
            return Err(Error::TransactionTerminated);
        }
        let n = self.savepoints.len();
        if n == 0 {
            return Err(Error::NoSavepoint);
        }
        let marker = self.savepoints[n - 1];
        self.savepoints.truncate(n - 1);
        self.overlay.truncate(marker);
        proof {
            assert(final(self).savepoints@ =~= old(self).savepoints@.drop_last());
            assert(final(self).overlay@ =~= old(self).overlay@.take(
                old(self).savepoints@.last() as int,
            ));
        }
        Ok(())
    }

    /// Discards all pending mutations and terminates the transaction.
    /// The database is untouched: rollback never receives it, so every
    /// key keeps its committed value as observed through the database.
    pub fn rollback(&mut self) -> (r: Result<(), Error>)
        requires
            old(self).wf(),
        ensures
            final(self).wf(),
            r is Ok <==> old(self).is_active(),
            r is Err ==> r->Err_0 is TransactionTerminated && *final(self) == *old(self),
            r is Ok ==> {
                &&& final(self).status == TxnStatus::RolledBack
                &&& final(self).overlay@.len() == 0
                &&& final(self).savepoints@.len() == 0
            },
    {
        if !matches!(self.status, TxnStatus::Active) {
            return Err(Error::TransactionTerminated);
        }
        self.overlay.truncate(0);
        self.savepoints.truncate(0);
        self.status = TxnStatus::RolledBack;
        Ok(())
    }

    /// Whether any watched key was modified by a commit later than the
    /// read point.
    fn has_conflict(&self, db: &OptimisticTransactionDB) -> (r: bool)
        ensures
            r == watched_conflict(self.watched@, db.engine.log@, self.begin_seq),
    {
        let n = self.watched.len();
        let mut i: usize = 0;
        while i < n
            invariant
                0 <= i <= n,
                n == self.watched@.len(),
                forall|j: int|
                    0 <= j < i ==> !key_modified_after(
                        db.engine.log@,
                        (#[trigger] self.watched@[j]).cf,
                        self.watched@[j].key@,
                        self.begin_seq,
                    ),
            decreases n - i,
        {
            let t = &self.watched[i];
            if db.engine.modified_after(t.cf, t.key.as_slice(), self.begin_seq) {
                return true;
            }
            i = i + 1;
        }
        false
    }

    /// Whether every overlay record addresses a still-existing column
    /// family.
    fn overlay_live(&self, db: &OptimisticTransactionDB) -> (r: bool)
        ensures
            r == overlay_cfs_live(self.overlay@, db.registry.entries@),
    {
        let n = self.overlay.len();
        let mut i: usize = 0;
        while i < n
            invariant
                0 <= i <= n,
                n == self.overlay@.len(),
                forall|j: int|
                    0 <= j < i ==> (#[trigger] self.overlay@[j]).cf == DEFAULT_CF || id_live(
                        db.registry.entries@,
                        self.overlay@[j].cf,
                    ),
            decreases n - i,
        {
            let cf = self.overlay[i].cf;
            if cf != DEFAULT_CF && !db.registry.is_live(cf) {
                return false;
            }
            i = i + 1;
        }
        true
    }

    /// Attempts to apply all pending mutations atomically as the next
    /// commit.
    ///
    /// Validation order: a terminated transaction is rejected; a pending
    /// record addressing a dropped column family or an exhausted sequence
    /// counter is an engine failure; a watched key modified after the
    /// read point is a conflict. On every failure the database is
    /// unchanged; on every outcome but the first the transaction is
    /// terminated.
    pub fn commit(&mut self, db: &mut OptimisticTransactionDB) -> (r: Result<(), CommitError>)
        requires
            old(self).wf(),
            old(db).wf(),
        ensures
            final(self).wf(),
            final(db).wf(),
            final(db).registry == old(db).registry,
            !old(self).is_active() ==> r is Err && r->Err_0 is TransactionTerminated && *final(db)
                == *old(db) && *final(self) == *old(self),
            old(self).is_active() ==> {
                &&& (r is Ok <==> overlay_cfs_live(old(self).overlay@, old(db).registry.entries@)
                    && old(db).engine.seq < u64::MAX && !watched_conflict(
                    old(self).watched@,
                    old(db).engine.log@,
                    old(self).begin_seq,
                ))
                &&& final(self).overlay@.len() == 0
                &&& final(self).savepoints@.len() == 0
                &&& final(self).watched@.len() == 0
            },
            old(self).is_active() && !(overlay_cfs_live(
                old(self).overlay@,
                old(db).registry.entries@,
            ) && old(db).engine.seq < u64::MAX) ==> r is Err && r->Err_0 is EngineFailure
                && *final(db) == *old(db) && final(self).status == TxnStatus::RolledBack,
            old(self).is_active() && overlay_cfs_live(old(self).overlay@, old(db).registry.entries@)
                && old(db).engine.seq < u64::MAX && watched_conflict(
                old(self).watched@,
                old(db).engine.log@,
                old(self).begin_seq,
            ) ==> r is Err && r->Err_0 is Conflict && *final(db) == *old(db) && final(self).status
                == TxnStatus::RolledBack,
            r is Ok ==> {
                &&& final(self).status == TxnStatus::Committed
                &&& final(db).engine.seq == old(db).engine.seq + 1
                &&& final(db).engine.log@ == old(db).engine.log@ + stamped(
                    old(self).overlay@,
                    (old(db).engine.seq + 1) as u64,
                )
            },
    {
        if !matches!(self.status, TxnStatus::Active) {
            return Err(CommitError::TransactionTerminated);
        }
        let live = self.overlay_live(db);
        if !live || db.engine.seq == u64::MAX {
            self.overlay.truncate(0);
            self.savepoints.truncate(0);
            self.watched.truncate(0);
            self.status = TxnStatus::RolledBack;
            return Err(CommitError::EngineFailure("base engine rejected the batch".to_owned()));
        }
        if self.has_conflict(db) {
            self.overlay.truncate(0);
            self.savepoints.truncate(0);
            self.watched.truncate(0);
            self.status = TxnStatus::RolledBack;
            return Err(CommitError::Conflict);
        }
        let mut batch: Vec<Rec> = Vec::new();
        core::mem::swap(&mut self.overlay, &mut batch);
        self.savepoints.truncate(0);
        self.watched.truncate(0);
        self.status = TxnStatus::Committed;
        db.engine.append_batch(batch);
        Ok(())
    }
}

} // verus!
