//! Mutation records and the replay semantics of the store.
//!
//! Both the base engine's committed log and a transaction's private overlay
//! are sequences of [`Rec`] mutation records. The meaning of such a sequence
//! is given by `replay`: folding the records over a starting map. Every
//! read-path contract in the crate is stated against `replay`.

use vstd::prelude::*;

verus! {

/// One buffered mutation: write a value, delete the key, or append a merge
/// operand (the engine's merge combines by concatenation).
pub enum Mutation {
    Put(Vec<u8>),
    Delete,
    Merge(Vec<u8>),
}

/// A mutation record: which column family, which key, what change.
pub struct Rec {
    pub cf: u64,
    pub key: Vec<u8>,
    pub m: Mutation,
}

/// A committed record in the base engine's log, stamped with the sequence
/// number of the commit that applied it.
pub struct LogEntry {
    pub seq: u64,
    pub rec: Rec,
}

/// The effect of one record on the keyspace of its column family.
pub open spec fn apply_rec(m: Map<Seq<u8>, Seq<u8>>, r: Rec) -> Map<Seq<u8>, Seq<u8>> {
    match r.m {
        Mutation::Put(v) => m.insert(r.key@, v@),
        Mutation::Delete => m.remove(r.key@),
        Mutation::Merge(v) => if m.dom().contains(r.key@) {
            m.insert(r.key@, m[r.key@] + v@)
        } else {
            m.insert(r.key@, v@)
        },
    }
}

/// The effect of a sequence of records, applied in order over `m0`.
pub open spec fn replay(m0: Map<Seq<u8>, Seq<u8>>, ops: Seq<Rec>) -> Map<Seq<u8>, Seq<u8>>
    decreases ops.len(),
{
    if ops.len() == 0 {
        m0
    } else {
        apply_rec(replay(m0, ops.drop_last()), ops.last())
    }
}

/// The subsequence of `ops` that addresses column family `cf`, in order.
pub open spec fn ops_for_cf(ops: Seq<Rec>, cf: u64) -> Seq<Rec>
    decreases ops.len(),
{
    if ops.len() == 0 {
        Seq::empty()
    } else if ops.last().cf == cf {
        ops_for_cf(ops.drop_last(), cf).push(ops.last())
    } else {
        ops_for_cf(ops.drop_last(), cf)
    }
}

/// The records of the log visible at sequence number `upto` that address
/// column family `cf`, in log order.
pub open spec fn visible_ops(log: Seq<LogEntry>, cf: u64, upto: u64) -> Seq<Rec>
    decreases log.len(),
{
    if log.len() == 0 {
        Seq::empty()
    } else if log.last().seq <= upto && log.last().rec.cf == cf {
        visible_ops(log.drop_last(), cf, upto).push(log.last().rec)
    } else {
        visible_ops(log.drop_last(), cf, upto)
    }
}

/// The committed keyspace of column family `cf` as of sequence number
/// `upto`: the replay of the log records visible at that point.
pub open spec fn cf_state(log: Seq<LogEntry>, cf: u64, upto: u64) -> Map<Seq<u8>, Seq<u8>> {
    replay(Map::empty(), visible_ops(log, cf, upto))
}

/// `recs` stamped as one committed batch with sequence number `s`.
pub open spec fn stamped(recs: Seq<Rec>, s: u64) -> Seq<LogEntry> {
    Seq::new(recs.len(), |i: int| LogEntry { seq: s, rec: recs[i] })
}

/// Some commit later than sequence number `after` touched `(cf, key)`.
pub open spec fn key_modified_after(log: Seq<LogEntry>, cf: u64, key: Seq<u8>, after: u64) -> bool {
    exists|i: int|
        0 <= i < log.len() && log[i].seq > after && log[i].rec.cf == cf && log[i].rec.key@ == key
}

/// `r` records a put of `value` under `key` in column family `cf`.
pub open spec fn rec_is_put(r: Rec, cf: u64, key: Seq<u8>, value: Seq<u8>) -> bool {
    r.cf == cf && r.key@ == key && r.m is Put && r.m->Put_0@ == value
}

/// `r` records a delete of `key` in column family `cf`.
pub open spec fn rec_is_delete(r: Rec, cf: u64, key: Seq<u8>) -> bool {
    r.cf == cf && r.key@ == key && r.m is Delete
}

/// `r` records a merge of `operand` into `key` in column family `cf`.
pub open spec fn rec_is_merge(r: Rec, cf: u64, key: Seq<u8>, operand: Seq<u8>) -> bool {
    r.cf == cf && r.key@ == key && r.m is Merge && r.m->Merge_0@ == operand
}

/// The byte-sequence view of an optional byte vector.
pub open spec fn opt_bytes(o: Option<Vec<u8>>) -> Option<Seq<u8>> {
    match o {
        Some(v) => Some(v@),
        None => None,
    }
}

/// The value of `key` in `m`, as an option.
pub open spec fn value_at(m: Map<Seq<u8>, Seq<u8>>, key: Seq<u8>) -> Option<Seq<u8>> {
    if m.dom().contains(key) {
        Some(m[key])
    } else {
        None
    }
}

/// Replaying one more record is applying it to the replay so far.
pub proof fn lemma_replay_push(m0: Map<Seq<u8>, Seq<u8>>, ops: Seq<Rec>, r: Rec)
    ensures
        replay(m0, ops.push(r)) == apply_rec(replay(m0, ops), r),
{
    assert(ops.push(r).drop_last() =~= ops);
    assert(ops.push(r).last() == r);
}

/// Filtering for a column family commutes with appending one record.
pub proof fn lemma_ops_for_cf_push(ops: Seq<Rec>, r: Rec, cf: u64)
    ensures
        r.cf == cf ==> ops_for_cf(ops.push(r), cf) == ops_for_cf(ops, cf).push(r),
        r.cf != cf ==> ops_for_cf(ops.push(r), cf) == ops_for_cf(ops, cf),
{
    assert(ops.push(r).drop_last() =~= ops);
    assert(ops.push(r).last() == r);
}

/// Visibility filtering commutes with appending one log entry.
pub proof fn lemma_visible_ops_push(log: Seq<LogEntry>, e: LogEntry, cf: u64, upto: u64)
    ensures
        e.seq <= upto && e.rec.cf == cf ==> visible_ops(log.push(e), cf, upto)
            == visible_ops(log, cf, upto).push(e.rec),
        !(e.seq <= upto && e.rec.cf == cf) ==> visible_ops(log.push(e), cf, upto)
            == visible_ops(log, cf, upto),
{
    assert(log.push(e).drop_last() =~= log);
    assert(log.push(e).last() == e);
}

/// Entries stamped above the cutoff are invisible: appending them leaves
/// every column family's visible state unchanged. This is the isolation
/// guarantee a snapshot pinned at `upto` relies on.
pub proof fn lemma_append_above_invisible(
    log: Seq<LogEntry>,
    recs: Seq<Rec>,
    s: u64,
    cf: u64,
    upto: u64,
)
    requires
        s > upto,
    ensures
        visible_ops(log + stamped(recs, s), cf, upto) == visible_ops(log, cf, upto),
        cf_state(log + stamped(recs, s), cf, upto) == cf_state(log, cf, upto),
    decreases recs.len(),
{
    if recs.len() == 0 {
        assert(log + stamped(recs, s) =~= log);
    } else {
        let shorter = recs.drop_last();
        lemma_append_above_invisible(log, shorter, s, cf, upto);
        assert(log + stamped(recs, s) =~= (log + stamped(shorter, s)).push(
            LogEntry { seq: s, rec: recs.last() },
        ));
        lemma_visible_ops_push(
            log + stamped(shorter, s),
            LogEntry { seq: s, rec: recs.last() },
            cf,
            upto,
        );
    }
}

/// If every entry of the log is stamped at or below `s`, then raising the
/// cutoff from `s` to anything higher changes nothing: the whole log is
/// already visible.
pub proof fn lemma_visible_ops_saturated(log: Seq<LogEntry>, cf: u64, s: u64, upto: u64)
    requires
        forall|i: int| 0 <= i < log.len() ==> #[trigger] log[i].seq <= s,
        s <= upto,
    ensures
        visible_ops(log, cf, upto) == visible_ops(log, cf, s),
    decreases log.len(),
{
    if log.len() > 0 {
        lemma_visible_ops_saturated(log.drop_last(), cf, s, upto);
    }
}

/// Committing a batch at the next sequence number makes the new committed
/// state the replay of the batch over the old committed state.
pub proof fn lemma_commit_state(log: Seq<LogEntry>, recs: Seq<Rec>, s: u64, cf: u64)
    requires
        forall|i: int| 0 <= i < log.len() ==> #[trigger] log[i].seq <= s,
        s < u64::MAX,
    ensures
        cf_state(log + stamped(recs, (s + 1) as u64), cf, (s + 1) as u64)
            == replay(cf_state(log, cf, s), ops_for_cf(recs, cf)),
    decreases recs.len(),
{
    let s1 = (s + 1) as u64;
    if recs.len() == 0 {
        assert(log + stamped(recs, s1) =~= log);
        lemma_visible_ops_saturated(log, cf, s, s1);
    } else {
        let shorter = recs.drop_last();
        let e = LogEntry { seq: s1, rec: recs.last() };
        lemma_commit_state(log, shorter, s, cf);
        assert(log + stamped(recs, s1) =~= (log + stamped(shorter, s1)).push(e));
        lemma_visible_ops_push(log + stamped(shorter, s1), e, cf, s1);
        if recs.last().cf == cf {
            lemma_replay_push(
                Map::empty(),
                visible_ops(log + stamped(shorter, s1), cf, s1),
                recs.last(),
            );
            lemma_replay_push(cf_state(log, cf, s), ops_for_cf(shorter, cf), recs.last());
            assert(ops_for_cf(recs, cf) == ops_for_cf(shorter, cf).push(recs.last())) by {
                assert(recs.drop_last() == shorter);
            }
        } else {
            assert(ops_for_cf(recs, cf) == ops_for_cf(shorter, cf)) by {
                assert(recs.drop_last() == shorter);
            }
        }
    }
}

} // verus!
