//! The base storage engine: an ordered store with a commit log.
//!
//! The engine keeps every committed mutation in an append-only log, each
//! record stamped with the sequence number of the commit that applied it.
//! The committed keyspace of a column family at any sequence number is the
//! replay of the visible log records ([`crate::model::cf_state`]); reads
//! materialize that replay into a [`SortedKv`]. Keeping the whole history
//! is what lets snapshots pinned at an old sequence number keep reading
//! their frozen view while later commits append.

use vstd::prelude::*;

use crate::kvstore::SortedKv;
use crate::model::LogEntry;
use crate::model::Rec;
use crate::model::cf_state;
use crate::model::key_modified_after;
use crate::model::lemma_ops_for_cf_push;
use crate::model::lemma_replay_push;
use crate::model::lemma_visible_ops_push;
use crate::model::ops_for_cf;
use crate::model::replay;
use crate::model::stamped;
use crate::model::visible_ops;

verus! {

/// The base engine: commit log plus the last assigned sequence number.
pub struct BaseEngine {
    pub log: Vec<LogEntry>,
    pub seq: u64,
}

impl BaseEngine {
    /// Validity: every logged record was stamped by some past commit.
    pub open spec fn wf(self) -> bool {
        forall|i: int| 0 <= i < self.log@.len() ==> (#[trigger] self.log@[i].seq) <= self.seq
    }

    /// A fresh, empty engine.
    pub fn new() -> (r: BaseEngine)
        ensures
            r.wf(),
            r.log@.len() == 0,
            r.seq == 0,
    {
        BaseEngine { log: Vec::new(), seq: 0 }
    }

    /// Materializes the committed keyspace of column family `cf` as of
    /// sequence number `upto` into a sorted store.
    pub fn materialize(&self, cf: u64, upto: u64) -> (r: SortedKv)
        ensures
            r.wf(),
            r.as_map() == cf_state(self.log@, cf, upto),
    {
        let mut kv = SortedKv::new();
        let n = self.log.len();
        let mut i: usize = 0;
        proof {
            assert(self.log@.take(0) =~= Seq::<LogEntry>::empty());
        }
        while i < n
            invariant
                0 <= i <= n,
                n == self.log@.len(),
                kv.wf(),
                kv.as_map() == replay(
                    Map::<Seq<u8>, Seq<u8>>::empty(),
                    visible_ops(self.log@.take(i as int), cf, upto),
                ),
            decreases n - i,
        {
            let entry = &self.log[i];
            proof {
                assert(self.log@.take(i + 1) =~= self.log@.take(i as int).push(self.log@[i as int]));
                lemma_visible_ops_push(self.log@.take(i as int), self.log@[i as int], cf, upto);
            }
            if entry.seq <= upto && entry.rec.cf == cf {
                proof {
                    lemma_replay_push(
                        Map::<Seq<u8>, Seq<u8>>::empty(),
                        visible_ops(self.log@.take(i as int), cf, upto),
                        self.log@[i as int].rec,
                    );
                }
                kv.apply_record(&entry.rec);
            }
            i = i + 1;
        }
        proof {
            assert(self.log@.take(n as int) =~= self.log@);
        }
        kv
    }

    /// Whether any commit later than `after` touched `(cf, key)`.
    pub fn modified_after(&self, cf: u64, key: &[u8], after: u64) -> (r: bool)
        ensures
            r == key_modified_after(self.log@, cf, key@, after),
    {
        let n = self.log.len();
        let mut i: usize = 0;
        while i < n
            invariant
                0 <= i <= n,
                n == self.log@.len(),
                forall|j: int|
                    0 <= j < i ==> !((#[trigger] self.log@[j].seq) > after && self.log@[j].rec.cf
                        == cf && self.log@[j].rec.key@ == key@),
            decreases n - i,
        {
            let entry = &self.log[i];
            if entry.seq > after && entry.rec.cf == cf
                && crate::bytes::bytes_equal(entry.rec.key.as_slice(), key) {
                return true;
            }
            i = i + 1;
        }
        false
    }

    /// Appends `batch` to the log as one commit, stamped with the next
    /// sequence number, and advances the sequence counter.
    pub fn append_batch(&mut self, batch: Vec<Rec>)
        requires
            old(self).wf(),
            old(self).seq < u64::MAX,
        ensures
            final(self).wf(),
            final(self).seq == old(self).seq + 1,
            final(self).log@ == old(self).log@ + stamped(batch@, (old(self).seq + 1) as u64),
    {
        let next = self.seq + 1;
        let ghost recs = batch@;
        let ghost log0 = self.log@;
        let n = batch.len();
        let mut remaining = batch;
        let mut i: usize = 0;
        while i < n
            invariant
                0 <= i <= n,
                n == recs.len(),
                remaining@ == recs.skip(i as int),
                self.log@ == log0 + stamped(recs.take(i as int), next),
                self.seq == old(self).seq,
                next == old(self).seq + 1,
            decreases n - i,
        {
            let rec = remaining.remove(0);
            proof {
                assert(recs.skip(i as int).remove(0) =~= recs.skip(i + 1));
                assert(recs.skip(i as int)[0] == recs[i as int]);
                assert(log0 + stamped(recs.take(i + 1), next) =~= (log0 + stamped(
                    recs.take(i as int),
                    next,
                )).push(LogEntry { seq: next, rec: recs[i as int] }));
            }
            self.log.push(LogEntry { seq: next, rec });
            i = i + 1;
        }
        self.seq = next;
        proof {
            assert(recs.take(n as int) =~= recs);
        }
    }
}

/// Replays a transaction's pending records for column family `cf`, in
/// order, over a materialized committed state.
pub fn apply_overlay(kv: &mut SortedKv, overlay: &Vec<Rec>, cf: u64)
    requires
        old(kv).wf(),
    ensures
        final(kv).wf(),
        final(kv).as_map() == replay(old(kv).as_map(), ops_for_cf(overlay@, cf)),
{
    let ghost m0 = kv.as_map();
    let n = overlay.len();
    let mut i: usize = 0;
    proof {
        assert(overlay@.take(0) =~= Seq::<Rec>::empty());
    }
    while i < n
        invariant
            0 <= i <= n,
            n == overlay@.len(),
            kv.wf(),
            kv.as_map() == replay(m0, ops_for_cf(overlay@.take(i as int), cf)),
        decreases n - i,
    {
        let rec = &overlay[i];
        proof {
            assert(overlay@.take(i + 1) =~= overlay@.take(i as int).push(overlay@[i as int]));
            lemma_ops_for_cf_push(overlay@.take(i as int), overlay@[i as int], cf);
        }
        if rec.cf == cf {
            proof {
                lemma_replay_push(m0, ops_for_cf(overlay@.take(i as int), cf), overlay@[i as int]);
            }
            kv.apply_record(rec);
        }
        i = i + 1;
    }
    proof {
        assert(overlay@.take(n as int) =~= overlay@);
    }
}

/// The merged view a transaction reads: its pending records for `cf`
/// replayed over the committed state visible at its read point.
pub open spec fn merged_state(
    log: Seq<LogEntry>,
    overlay: Seq<Rec>,
    cf: u64,
    upto: u64,
) -> Map<Seq<u8>, Seq<u8>> {
    replay(cf_state(log, cf, upto), ops_for_cf(overlay, cf))
}

} // verus!
