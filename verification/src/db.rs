//! The database: the base engine plus the column family registry.
//!
//! The database is the factory for transactions and snapshots, owns the
//! registry of namespaces, and offers an autocommit path for plain reads
//! and writes (each write is its own one-record commit). The engine here
//! is in-memory: nothing is persisted at the given path, so opening a
//! path without `create_if_missing` finds no existing database and fails,
//! and `destroy` has nothing left to remove.
//!
//! The default namespace exists at the engine level, independent of the
//! registry: the unqualified operations (`get`, `put`, `delete`,
//! `merge_opt`) always address it. Plain `open` therefore leaves the
//! registry empty; only `open_cf` registers names, `"default"` always
//! among them with identifier 0.

use vstd::prelude::*;

use crate::engine::BaseEngine;
use crate::errors::Error;
use crate::errors::OpenError;
use crate::kvstore::SortedKv;
use crate::model::Mutation;
use crate::model::Rec;
use crate::model::apply_rec;
use crate::model::cf_state;
use crate::model::opt_bytes;
use crate::model::value_at;
use crate::model::lemma_commit_state;
use crate::model::lemma_ops_for_cf_push;
use crate::model::lemma_replay_push;
use crate::options::Options;
use crate::options::OptimisticTransactionOptions;
use crate::options::WriteOptions;
use crate::registry::CfEntry;
use crate::registry::CfRegistry;
use crate::registry::ColumnFamily;
use crate::registry::id_live;
use crate::registry::live_id;
use crate::registry::live_name;
use crate::txn::DEFAULT_CF;
use crate::txn::Transaction;

verus! {

/// Only live names reachable from `es0` stay live in `es1` after one
/// entry is appended, plus the appended name.
pub proof fn lemma_append_entry_live(es0: Seq<CfEntry>, es1: Seq<CfEntry>)
    requires
        es1.len() == es0.len() + 1,
        es1.take(es0.len() as int) == es0,
        es1.last().live,
    ensures
        forall|nm: Seq<char>| live_name(es0, nm) ==> live_name(es1, nm),
        forall|nm: Seq<char>| #[trigger]
            live_name(es1, nm) ==> live_name(es0, nm) || nm == es1.last().name@,
        live_name(es1, es1.last().name@),
{
    assert(forall|j: int| 0 <= j < es0.len() ==> es1[j] == #[trigger] es0[j]);
    assert forall|nm: Seq<char>| live_name(es0, nm) implies live_name(es1, nm) by {
        let j = choose|j: int| 0 <= j < es0.len() && es0[j].live && es0[j].name@ == nm;
        assert(es1[j].live && es1[j].name@ == nm);
    }
    assert forall|nm: Seq<char>| #[trigger] live_name(es1, nm) implies live_name(es0, nm) || nm
        == es1.last().name@ by {
        let j = choose|j: int| 0 <= j < es1.len() && es1[j].live && es1[j].name@ == nm;
        if j < es0.len() {
            assert(es0[j].live && es0[j].name@ == nm);
        }
    }
    assert(es1[es1.len() - 1].live);
}

/// A transactional, namespaced, ordered key-value database.
pub struct OptimisticTransactionDB {
    pub engine: BaseEngine,
    pub registry: CfRegistry,
}

impl OptimisticTransactionDB {
    /// Validity of both halves.
    pub open spec fn wf(self) -> bool {
        self.engine.wf() && self.registry.wf()
    }

    /// The committed keyspace of column family `cf`, as of the latest
    /// commit.
    pub open spec fn committed(self, cf: u64) -> Map<Seq<u8>, Seq<u8>> {
        cf_state(self.engine.log@, cf, self.engine.seq)
    }

    /// Opens the database at `path`. The registry starts empty: the
    /// default namespace exists at the engine level and needs no handle
    /// (`open_cf` is the path that registers names). The engine holds no
    /// persisted state, so this succeeds exactly when the options allow
    /// creating a missing database.
    pub fn open(opts: &Options, _path: &str) -> (r: Result<OptimisticTransactionDB, OpenError>)
        ensures
            r is Ok <==> opts.create_missing,
            r is Err ==> r->Err_0 is EngineFailure,
            r is Ok ==> {
                let db = r->Ok_0;
                &&& db.wf()
                &&& db.engine.seq == 0
                &&& db.engine.log@.len() == 0
                &&& db.registry.entries@.len() == 0
                &&& db.registry.next_id == 1
            },
    {
        if !opts.create_missing {
            return Err(
                OpenError::EngineFailure("no database at the path and creation is off".to_owned()),
            );
        }
        let registry = CfRegistry::empty();
        Ok(OptimisticTransactionDB { engine: BaseEngine::new(), registry })
    }

    /// Opens the database at `path`, creating it if allowed; the
    /// registry starts empty as with `open`.
    pub fn open_default(path: &str) -> (r: Result<OptimisticTransactionDB, OpenError>)
        ensures
            r is Ok,
            r->Ok_0.wf(),
            r->Ok_0.engine.seq == 0,
            r->Ok_0.engine.log@.len() == 0,
            r->Ok_0.registry.entries@.len() == 0,
            r->Ok_0.registry.next_id == 1,
    {
        let mut opts = Options::default();
        opts.create_if_missing(true);
        Self::open(&opts, path)
    }

    /// Opens the database with the requested namespaces. The default
    /// namespace is always opened as well, whether or not it is in the
    /// requested list.
    pub fn open_cf(opts: &Options, _path: &str, cfs: &[&str]) -> (r: Result<
        OptimisticTransactionDB,
        OpenError,
    >)
        ensures
            r is Ok <==> opts.create_missing && cfs@.len() + 1 < u64::MAX,
            r is Err ==> r->Err_0 is EngineFailure,
            r is Ok ==> {
                let db = r->Ok_0;
                &&& db.wf()
                &&& db.engine.seq == 0
                &&& db.engine.log@.len() == 0
                &&& db.registry.next_id <= cfs@.len() + 1
                &&& live_name(db.registry.entries@, "default"@)
                &&& live_id(db.registry.entries@, "default"@) == DEFAULT_CF
                &&& forall|i: int|
                    0 <= i < cfs@.len() ==> live_name(db.registry.entries@, (#[trigger] cfs@[i])@)
                &&& forall|nm: Seq<char>| #[trigger]
                    live_name(db.registry.entries@, nm) ==> nm == "default"@ || exists|i: int|
                        0 <= i < cfs@.len() && (#[trigger] cfs@[i])@ == nm
            },
    {
        if !opts.create_missing {
            return Err(
                OpenError::EngineFailure("no database at the path and creation is off".to_owned()),
            );
        }
        if cfs.len() as u64 >= u64::MAX - 1 {
            return Err(OpenError::EngineFailure("too many column families".to_owned()));
        }
        let mut registry = CfRegistry::with_default();
        proof {
            let es = registry.entries@;
            assert(es[0].live && es[0].name@ == "default"@);
            assert forall|nm: Seq<char>| #[trigger] live_name(es, nm) implies nm == "default"@ by {
                let j = choose|j: int| 0 <= j < es.len() && es[j].live && es[j].name@ == nm;
                assert(j == 0);
            }
        }
        let n = cfs.len();
        let mut i: usize = 0;
        while i < n
            invariant
                0 <= i <= n,
                n == cfs@.len(),
                (n as u64) + 1 < u64::MAX,
                registry.wf(),
                registry.next_id <= 1 + i,
                registry.entries@.len() >= 1,
                registry.entries@[0].name@ == "default"@,
                registry.entries@[0].id == 0,
                registry.entries@[0].live,
                live_name(registry.entries@, "default"@),
                forall|j: int| 0 <= j < i ==> live_name(registry.entries@, (#[trigger] cfs@[j])@),
                forall|nm: Seq<char>| #[trigger]
                    live_name(registry.entries@, nm) ==> nm == "default"@ || exists|j: int|
                        0 <= j < i && (#[trigger] cfs@[j])@ == nm,
            decreases n - i,
        {
            let name = *vstd::slice::slice_index_get(cfs, i);
            let ghost es0 = registry.entries@;
            let already = registry.handle_of(name);
            if already.is_none() {
                let created = registry.register(name);
                proof {
                    assert(created is Some);
                    lemma_append_entry_live(es0, registry.entries@);
                    assert(registry.entries@.last().name@ == name@);
                    assert forall|j: int| 0 <= j < i + 1 implies live_name(
                        registry.entries@,
                        (#[trigger] cfs@[j])@,
                    ) by {
                        if j < i {
                            assert(live_name(es0, cfs@[j]@));
                        }
                    }
                }
            }
            i = i + 1;
        }
        let db = OptimisticTransactionDB { engine: BaseEngine::new(), registry };
        proof {
            let es = db.registry.entries@;
            let j = crate::registry::live_index(es, "default"@);
            assert(es[j].live && es[j].name@ == "default"@);
            assert(j == 0);
        }
        Ok(db)
    }

    /// Registers a new namespace. Fails with `EngineFailure` exactly when
    /// the engine rejects it: the name already exists (the engine-level
    /// default namespace always does), or identifiers are exhausted.
    pub fn create_cf(&mut self, name: &str, _opts: &Options) -> (r: Result<ColumnFamily, Error>)
        requires
            old(self).wf(),
        ensures
            final(self).wf(),
            final(self).engine == old(self).engine,
            r is Ok <==> !live_name(old(self).registry.entries@, name@) && name@ != "default"@
                && old(self).registry.next_id < u64::MAX,
            r is Err ==> r->Err_0 is EngineFailure && *final(self) == *old(self),
            r is Ok ==> {
                &&& r->Ok_0.id == old(self).registry.next_id
                &&& final(self).registry.next_id == old(self).registry.next_id + 1
                &&& live_name(final(self).registry.entries@, name@)
                &&& live_id(final(self).registry.entries@, name@) == r->Ok_0.id
                &&& id_live(final(self).registry.entries@, r->Ok_0.id)
                &&& forall|nm: Seq<char>| #[trigger]
                    live_name(final(self).registry.entries@, nm) <==> live_name(
                        old(self).registry.entries@,
                        nm,
                    ) || nm == name@
            },
    {
        if name.to_owned() == "default".to_owned() {
            return Err(Error::EngineFailure("could not create the column family".to_owned()));
        }
        let ghost es0 = self.registry.entries@;
        match self.registry.register(name) {
            Some(handle) => {
                proof {
                    lemma_append_entry_live(es0, self.registry.entries@);
                    let es1 = self.registry.entries@;
                    assert(es1.last().name@ == name@ && es1.last().live && es1.last().id
                        == handle.id);
                    assert(live_name(es1, name@));
                    let j = crate::registry::live_index(es1, name@);
                    assert(es1[j].live && es1[j].name@ == name@);
                    if j < es0.len() {
                        assert(es1[j] == es0[j]);
                        assert(live_name(es0, name@));
                    }
                    assert(j == es1.len() - 1);
                    assert(id_live(es1, handle.id));
                }
                Ok(handle)
            },
            None => Err(Error::EngineFailure("could not create the column family".to_owned())),
        }
    }

    /// The handle of the live namespace `name`; absence is an ordinary
    /// outcome, not an error.
    pub fn cf_handle(&self, name: &str) -> (r: Option<ColumnFamily>)
        requires
            self.wf(),
        ensures
            r is Some <==> live_name(self.registry.entries@, name@),
            r is Some ==> r->Some_0.id == live_id(self.registry.entries@, name@),
    {
        self.registry.handle_of(name)
    }

    /// Drops the namespace `name`. Fails with `UnknownColumnFamily`
    /// exactly when no live namespace carries the name. Handles obtained
    /// for it beforehand become stale and are rejected from then on.
    /// Dropping a registered `"default"` retires only the name and its
    /// handles: the engine-level default namespace remains, and the
    /// unqualified operations keep addressing it.
    pub fn drop_cf(&mut self, name: &str) -> (r: Result<(), Error>)
        requires
            old(self).wf(),
        ensures
            final(self).wf(),
            final(self).engine == old(self).engine,
            r is Ok <==> live_name(old(self).registry.entries@, name@),
            r is Err ==> r->Err_0 is UnknownColumnFamily && *final(self) == *old(self),
            r is Ok ==> {
                &&& !live_name(final(self).registry.entries@, name@)
                &&& !id_live(
                    final(self).registry.entries@,
                    live_id(old(self).registry.entries@, name@),
                )
                &&& forall|nm: Seq<char>| nm != name@ ==> (#[trigger] live_name(
                    final(self).registry.entries@,
                    nm,
                ) <==> live_name(old(self).registry.entries@, nm))
            },
    {
        let ghost es0 = self.registry.entries@;
        if self.registry.retire(name) {
            proof {
                let j = crate::registry::live_index(es0, name@);
                let es1 = self.registry.entries@;
                assert(es0[j].live && es0[j].name@ == name@);
                assert(forall|p: int| 0 <= p < es1.len() && p != j ==> es1[p] == #[trigger] es0[p]);
                assert(!es1[j].live);
                assert forall|nm: Seq<char>| live_name(es1, nm) implies nm != name@ && live_name(
                    es0,
                    nm,
                ) by {
                    let p = choose|p: int| 0 <= p < es1.len() && es1[p].live && es1[p].name@ == nm;
                    assert(p != j);
                    assert(es0[p].live && es0[p].name@ == nm);
                    if nm == name@ {
                        assert(es0[p].live && es0[p].name@ == name@ && es0[j].live && es0[j].name@
                            == name@);
                        assert(false);
                    }
                }
                assert forall|nm: Seq<char>| nm != name@ && live_name(es0, nm) implies live_name(
                    es1,
                    nm,
                ) by {
                    let p = choose|p: int| 0 <= p < es0.len() && es0[p].live && es0[p].name@ == nm;
                    assert(p != j);
                    assert(es1[p].live && es1[p].name@ == nm);
                }
                if id_live(es1, es0[j].id) {
                    let p = choose|p: int|
                        0 <= p < es1.len() && es1[p].live && es1[p].id == es0[j].id;
                    assert(p != j);
                    assert(es0[p].id == es0[j].id);
                }
            }
            Ok(())
        } else {
            Err(Error::UnknownColumnFamily(name.to_owned()))
        }
    }

    /// Applies one record as its own commit (the autocommit path). Fails
    /// with `EngineFailure` exactly when the sequence counter is
    /// exhausted.
    fn apply_one(&mut self, rec: Rec) -> (r: Result<(), Error>)
        requires
            old(self).wf(),
        ensures
            final(self).wf(),
            final(self).registry == old(self).registry,
            r is Ok <==> old(self).engine.seq < u64::MAX,
            r is Err ==> r->Err_0 is EngineFailure && *final(self) == *old(self),
            r is Ok ==> {
                &&& final(self).engine.seq == old(self).engine.seq + 1
                &&& forall|c: u64| #[trigger]
                    final(self).committed(c) == if c == rec.cf {
                        apply_rec(old(self).committed(c), rec)
                    } else {
                        old(self).committed(c)
                    }
            },
    {
        if self.engine.seq == u64::MAX {
            return Err(Error::EngineFailure("sequence numbers exhausted".to_owned()));
        }
        let ghost grec = rec;
        let ghost log0 = self.engine.log@;
        let ghost s0 = self.engine.seq;
        let mut batch: Vec<Rec> = Vec::new();
        batch.push(rec);
        let ghost recs = batch@;
        self.engine.append_batch(batch);
        proof {
            assert(recs =~= Seq::<Rec>::empty().push(grec));
            assert forall|c: u64| #[trigger]
                final(self).committed(c) == if c == grec.cf {
                    apply_rec(old(self).committed(c), grec)
                } else {
                    old(self).committed(c)
                } by {
                lemma_commit_state(log0, recs, s0, c);
                lemma_ops_for_cf_push(Seq::<Rec>::empty(), grec, c);
                lemma_replay_push(old(self).committed(c), Seq::<Rec>::empty(), grec);
            }
        }
        Ok(())
    }

    /// Reads the committed value of `key` in the default namespace.
    pub fn get(&self, key: &[u8]) -> (r: Result<Option<Vec<u8>>, Error>)
        requires
            self.wf(),
        ensures
            r is Ok,
            opt_bytes(r->Ok_0) == value_at(self.committed(DEFAULT_CF), key@),
    {
        let kv = self.engine.materialize(DEFAULT_CF, self.engine.seq);
        Ok(kv.get_value(key))
    }

    /// Reads the committed value of `key` in the given namespace;
    /// rejects a stale handle.
    pub fn get_cf(&self, cf: ColumnFamily, key: &[u8]) -> (r: Result<Option<Vec<u8>>, Error>)
        requires
            self.wf(),
        ensures
            r is Ok <==> id_live(self.registry.entries@, cf.id),
            r is Err ==> r->Err_0 is StaleColumnFamilyHandle,
            r is Ok ==> opt_bytes(r->Ok_0) == value_at(self.committed(cf.id), key@),
    {
        if !self.registry.is_live(cf.id) {
            return Err(Error::StaleColumnFamilyHandle);
        }
        let kv = self.engine.materialize(cf.id, self.engine.seq);
        Ok(kv.get_value(key))
    }

    /// Writes `value` under `key` in the default namespace as one commit.
    pub fn put(&mut self, key: &[u8], value: &[u8]) -> (r: Result<(), Error>)
        requires
            old(self).wf(),
        ensures
            final(self).wf(),
            final(self).registry == old(self).registry,
            r is Ok <==> old(self).engine.seq < u64::MAX,
            r is Err ==> r->Err_0 is EngineFailure && *final(self) == *old(self),
            r is Ok ==> {
                &&& final(self).committed(DEFAULT_CF) == old(self).committed(DEFAULT_CF).insert(
                    key@,
                    value@,
                )
                &&& forall|c: u64|
                    c != DEFAULT_CF ==> (#[trigger] final(self).committed(c)) == old(
                        self,
                    ).committed(c)
            },
    {
        let rec = Rec {
            cf: DEFAULT_CF,
            key: vstd::slice::slice_to_vec(key),
            m: Mutation::Put(vstd::slice::slice_to_vec(value)),
        };
        self.apply_one(rec)
    }

    /// Writes `value` under `key` in the given namespace as one commit;
    /// rejects a stale handle.
    pub fn put_cf(&mut self, cf: ColumnFamily, key: &[u8], value: &[u8]) -> (r: Result<(), Error>)
        requires
            old(self).wf(),
        ensures
            final(self).wf(),
            final(self).registry == old(self).registry,
            r is Ok <==> id_live(old(self).registry.entries@, cf.id) && old(self).engine.seq
                < u64::MAX,
            !id_live(old(self).registry.entries@, cf.id) ==> r is Err
                && r->Err_0 is StaleColumnFamilyHandle,
            r is Err ==> *final(self) == *old(self),
            r is Ok ==> {
                &&& final(self).committed(cf.id) == old(self).committed(cf.id).insert(key@, value@)
                &&& forall|c: u64|
                    c != cf.id ==> (#[trigger] final(self).committed(c)) == old(self).committed(c)
            },
    {
        if !self.registry.is_live(cf.id) {
            return Err(Error::StaleColumnFamilyHandle);
        }
        let rec = Rec {
            cf: cf.id,
            key: vstd::slice::slice_to_vec(key),
            m: Mutation::Put(vstd::slice::slice_to_vec(value)),
        };
        self.apply_one(rec)
    }

    /// Deletes `key` in the default namespace as one commit.
    pub fn delete(&mut self, key: &[u8]) -> (r: Result<(), Error>)
        requires
            old(self).wf(),
        ensures
            final(self).wf(),
            final(self).registry == old(self).registry,
            r is Ok <==> old(self).engine.seq < u64::MAX,
            r is Err ==> r->Err_0 is EngineFailure && *final(self) == *old(self),
            r is Ok ==> {
                &&& final(self).committed(DEFAULT_CF) == old(self).committed(DEFAULT_CF).remove(
                    key@,
                )
                &&& forall|c: u64|
                    c != DEFAULT_CF ==> (#[trigger] final(self).committed(c)) == old(
                        self,
                    ).committed(c)
            },
    {
        let rec = Rec { cf: DEFAULT_CF, key: vstd::slice::slice_to_vec(key), m: Mutation::Delete };
        self.apply_one(rec)
    }

    /// Deletes `key` in the given namespace as one commit; rejects a
    /// stale handle.
    pub fn delete_cf(&mut self, cf: ColumnFamily, key: &[u8]) -> (r: Result<(), Error>)
        requires
            old(self).wf(),
        ensures
            final(self).wf(),
            final(self).registry == old(self).registry,
            r is Ok <==> id_live(old(self).registry.entries@, cf.id) && old(self).engine.seq
                < u64::MAX,
            !id_live(old(self).registry.entries@, cf.id) ==> r is Err
                && r->Err_0 is StaleColumnFamilyHandle,
            r is Err ==> *final(self) == *old(self),
            r is Ok ==> {
                &&& final(self).committed(cf.id) == old(self).committed(cf.id).remove(key@)
                &&& forall|c: u64|
                    c != cf.id ==> (#[trigger] final(self).committed(c)) == old(self).committed(c)
            },
    {
        if !self.registry.is_live(cf.id) {
            return Err(Error::StaleColumnFamilyHandle);
        }
        let rec = Rec { cf: cf.id, key: vstd::slice::slice_to_vec(key), m: Mutation::Delete };
        self.apply_one(rec)
    }

    /// Merges `operand` into `key` in the default namespace as one commit
    /// (the engine's merge concatenates onto any existing value).
    pub fn merge_opt(&mut self, key: &[u8], operand: &[u8], _write_opts: &WriteOptions) -> (r:
        Result<(), Error>)
        requires
            old(self).wf(),
        ensures
            final(self).wf(),
            final(self).registry == old(self).registry,
            r is Ok <==> old(self).engine.seq < u64::MAX,
            r is Err ==> r->Err_0 is EngineFailure && *final(self) == *old(self),
            r is Ok ==> {
                &&& final(self).committed(DEFAULT_CF) == (if old(self).committed(
                    DEFAULT_CF,
                ).dom().contains(key@) {
                    old(self).committed(DEFAULT_CF).insert(
                        key@,
                        old(self).committed(DEFAULT_CF)[key@] + operand@,
                    )
                } else {
                    old(self).committed(DEFAULT_CF).insert(key@, operand@)
                })
                &&& forall|c: u64|
                    c != DEFAULT_CF ==> (#[trigger] final(self).committed(c)) == old(
                        self,
                    ).committed(c)
            },
    {
        let rec = Rec {
            cf: DEFAULT_CF,
            key: vstd::slice::slice_to_vec(key),
            m: Mutation::Merge(vstd::slice::slice_to_vec(operand)),
        };
        self.apply_one(rec)
    }

    /// Merges `operand` into `key` in the given namespace as one commit;
    /// rejects a stale handle.
    pub fn merge_cf_opt(
        &mut self,
        cf: ColumnFamily,
        key: &[u8],
        operand: &[u8],
        _write_opts: &WriteOptions,
    ) -> (r: Result<(), Error>)
        requires
            old(self).wf(),
        ensures
            final(self).wf(),
            final(self).registry == old(self).registry,
            r is Ok <==> id_live(old(self).registry.entries@, cf.id) && old(self).engine.seq
                < u64::MAX,
            !id_live(old(self).registry.entries@, cf.id) ==> r is Err
                && r->Err_0 is StaleColumnFamilyHandle,
            r is Err ==> *final(self) == *old(self),
            r is Ok ==> {
                &&& final(self).committed(cf.id) == (if old(self).committed(cf.id).dom().contains(
                    key@,
                ) {
                    old(self).committed(cf.id).insert(
                        key@,
                        old(self).committed(cf.id)[key@] + operand@,
                    )
                } else {
                    old(self).committed(cf.id).insert(key@, operand@)
                })
                &&& forall|c: u64|
                    c != cf.id ==> (#[trigger] final(self).committed(c)) == old(self).committed(c)
            },
    {
        if !self.registry.is_live(cf.id) {
            return Err(Error::StaleColumnFamilyHandle);
        }
        let rec = Rec {
            cf: cf.id,
            key: vstd::slice::slice_to_vec(key),
            m: Mutation::Merge(vstd::slice::slice_to_vec(operand)),
        };
        self.apply_one(rec)
    }

    /// Begins a transaction. Never fails: construction is local state.
    pub fn transaction_begin(
        &self,
        write_opts: &WriteOptions,
        txn_opts: &OptimisticTransactionOptions,
    ) -> (r: Transaction)
        ensures
            r.wf(),
            r.is_active(),
            r.overlay@.len() == 0,
            r.savepoints@.len() == 0,
            r.watched@.len() == 0,
            r.begin_seq == self.engine.seq,
            r.pinned == txn_opts.snapshot,
    {
        Transaction::begin(self, write_opts, txn_opts)
    }

    /// Takes a snapshot of the current committed state: a read-only
    /// view pinned to the engine's sequence number now, unaffected by
    /// later commits.
    pub fn snapshot(&self) -> (r: crate::snapshot::Snapshot)
        ensures
            r.wf(),
            r.pinned_seq() == self.engine.seq,
    {
        crate::snapshot::Snapshot::new(self)
    }

    /// Removes all persisted state at `path`. The engine persists
    /// nothing, so there is never anything left to remove and this always
    /// succeeds. Must not be called while a database at `path` is open.
    pub fn destroy(_opts: &Options, _path: &str) -> (r: Result<(), Error>)
        ensures
            r is Ok,
    {
        Ok(())
    }
}

} // verus!
