//! The store's governing laws, stated and proved over the replay model
//! that every contract in the crate speaks.

use vstd::prelude::*;

use crate::kvstore::lemma_map_of_len;
use crate::kvstore::lemma_map_of_index;
use crate::kvstore::map_of;
use crate::iter::DBIterator;
use crate::iter::lemma_entry_views_index;
use crate::model::LogEntry;
use crate::model::Rec;
use crate::model::apply_rec;
use crate::model::cf_state;
use crate::model::key_modified_after;
use crate::model::lemma_append_above_invisible;
use crate::model::lemma_commit_state;
use crate::model::lemma_ops_for_cf_push;
use crate::model::lemma_replay_push;
use crate::model::lemma_visible_ops_push;
use crate::model::ops_for_cf;
use crate::model::rec_is_delete;
use crate::model::rec_is_put;
use crate::model::replay;
use crate::model::stamped;
use crate::model::value_at;
use crate::model::visible_ops;
use crate::engine::merged_state;
use crate::txn::WatchedKey;
use crate::txn::watched_conflict;

verus! {

/// Read your own writes: in any merged view, a get after a put of
/// `(key, value)` returns `value`, and a get after a delete of `key`
/// finds nothing — before any commit. `Transaction::put`/`delete` push
/// exactly such a record onto the overlay, and `Transaction::get`
/// returns exactly `value_at` of the merged view.
pub proof fn lemma_read_your_own_writes(
    log: Seq<LogEntry>,
    overlay: Seq<Rec>,
    r: Rec,
    cf: u64,
    upto: u64,
    key: Seq<u8>,
    value: Seq<u8>,
)
    ensures
        rec_is_put(r, cf, key, value) ==> value_at(
            merged_state(log, overlay.push(r), cf, upto),
            key,
        ) == Some(value),
        rec_is_delete(r, cf, key) ==> value_at(
            merged_state(log, overlay.push(r), cf, upto),
            key,
        ) is None,
{
    lemma_ops_for_cf_push(overlay, r, cf);
    if r.cf == cf {
        lemma_replay_push(cf_state(log, cf, upto), ops_for_cf(overlay, cf), r);
    }
}

/// Savepoint scoping: whatever was buffered after a savepoint, reverting
/// to the marker recovers the overlay exactly as it stood when the
/// savepoint was pushed — and with it the whole merged view.
/// `Transaction::savepoint` records the overlay length as the marker and
/// `Transaction::rollback_to_savepoint` truncates the overlay to it.
pub proof fn lemma_savepoint_revert(
    log: Seq<LogEntry>,
    overlay: Seq<Rec>,
    suffix: Seq<Rec>,
    cf: u64,
    upto: u64,
)
    ensures
        (overlay + suffix).take(overlay.len() as int) == overlay,
        merged_state(log, (overlay + suffix).take(overlay.len() as int), cf, upto) == merged_state(
            log,
            overlay,
            cf,
            upto,
        ),
{
    assert((overlay + suffix).take(overlay.len() as int) =~= overlay);
}

/// An iterator yields the merged view exactly: one entry per key of the
/// view, each carrying the view's value, in strictly ascending key
/// order. In particular a transaction with N pending inserts over an
/// empty committed state yields exactly N entries.
pub proof fn lemma_iterator_matches_view(it: DBIterator)
    requires
        it.wf(),
    ensures
        it.source().len() == map_of(it.entries@).dom().len(),
        forall|j: int|
            0 <= j < it.source().len() ==> map_of(it.entries@).contains_pair(
                (#[trigger] it.source()[j]).0,
                it.source()[j].1,
            ),
        forall|p: int, q: int|
            0 <= p < q < it.source().len() ==> crate::bytes::lex_lt(
                (#[trigger] it.source()[p]).0,
                (#[trigger] it.source()[q]).0,
            ),
{
    lemma_map_of_len(it.entries@);
    lemma_map_of_index(it.entries@);
    lemma_entry_views_index(it.entries@);
}

/// A batch of puts of pairwise distinct keys, none already present,
/// grows the keyspace by exactly the batch length — so a transaction
/// holding N pending inserts of fresh distinct keys has a merged view of
/// exactly `base + N` keys, and its iterator (which enumerates the view
/// one entry per key, by `lemma_iterator_matches_view`) yields exactly
/// N entries over an empty committed state.
pub proof fn lemma_pending_puts_count(m: Map<Seq<u8>, Seq<u8>>, ops: Seq<Rec>)
    requires
        m.dom().finite(),
        forall|i: int| 0 <= i < ops.len() ==> (#[trigger] ops[i]).m is Put,
        forall|i: int, j: int|
            0 <= i < j < ops.len() ==> (#[trigger] ops[i]).key@ != (#[trigger] ops[j]).key@,
        forall|i: int| 0 <= i < ops.len() ==> !m.dom().contains((#[trigger] ops[i]).key@),
    ensures
        replay(m, ops).dom().finite(),
        replay(m, ops).dom().len() == m.dom().len() + ops.len(),
        forall|k: Seq<u8>| #[trigger]
            replay(m, ops).dom().contains(k) <==> m.dom().contains(k) || exists|i: int|
                0 <= i < ops.len() && (#[trigger] ops[i]).key@ == k,
    decreases ops.len(),
{
    if ops.len() > 0 {
        let shorter = ops.drop_last();
        let r = ops.last();
        lemma_pending_puts_count(m, shorter);
        let prev = replay(m, shorter);
        assert(!prev.dom().contains(r.key@)) by {
            if exists|i: int| 0 <= i < shorter.len() && shorter[i].key@ == r.key@ {
                let i = choose|i: int| 0 <= i < shorter.len() && shorter[i].key@ == r.key@;
                assert(ops[i].key@ == ops[ops.len() - 1].key@);
            }
        }
        assert(replay(m, ops) == prev.insert(r.key@, r.m->Put_0@));
        assert(replay(m, ops).dom() =~= prev.dom().insert(r.key@));
        assert forall|k: Seq<u8>| #[trigger]
            replay(m, ops).dom().contains(k) <==> m.dom().contains(k) || exists|i: int|
                0 <= i < ops.len() && (#[trigger] ops[i]).key@ == k by {
            if replay(m, ops).dom().contains(k) {
                if k == r.key@ {
                    assert(ops[ops.len() - 1].key@ == k);
                } else {
                    assert(prev.dom().contains(k));
                    if !m.dom().contains(k) {
                        let i = choose|i: int| 0 <= i < shorter.len() && shorter[i].key@ == k;
                        assert(ops[i].key@ == k);
                    }
                }
            }
            if m.dom().contains(k) {
                assert(prev.dom().contains(k));
            }
            if exists|i: int| 0 <= i < ops.len() && ops[i].key@ == k {
                let i = choose|i: int| 0 <= i < ops.len() && ops[i].key@ == k;
                if i < ops.len() - 1 {
                    assert(shorter[i].key@ == k);
                    assert(prev.dom().contains(k));
                }
            }
        }
    }
}

/// Snapshot isolation: a snapshot pinned at `pinned` observes the same
/// frozen state before and after any batch committed later. Every commit
/// appends records stamped one above the engine's sequence number, so a
/// snapshot taken earlier satisfies `s > pinned` for every later commit.
pub proof fn lemma_snapshot_isolation(
    log: Seq<LogEntry>,
    batch: Seq<Rec>,
    s: u64,
    cf: u64,
    pinned: u64,
)
    requires
        s > pinned,
    ensures
        cf_state(log + stamped(batch, s), cf, pinned) == cf_state(log, cf, pinned),
{
    lemma_append_above_invisible(log, batch, s, cf, pinned);
}

/// Conflict detection: if a transaction watched `(cf, key)` — it read or
/// wrote that key — and the log holds a record for that key stamped
/// later than the transaction's read point (another transaction's
/// commit), the commit-time validation reports a conflict, so
/// `Transaction::commit` returns `Conflict` and leaves the database
/// unchanged.
pub proof fn lemma_conflict_detected(
    watched: Seq<WatchedKey>,
    i: int,
    log: Seq<LogEntry>,
    j: int,
    read_pt: u64,
)
    requires
        0 <= i < watched.len(),
        0 <= j < log.len(),
        log[j].seq > read_pt,
        log[j].rec.cf == watched[i].cf,
        log[j].rec.key@ == watched[i].key@,
    ensures
        watched_conflict(watched, log, read_pt),
{
    assert(key_modified_after(log, watched[i].cf, watched[i].key@, read_pt));
}

/// A record for another key leaves the value of `k` alone.
proof fn lemma_apply_rec_other_key(m: Map<Seq<u8>, Seq<u8>>, r: Rec, k: Seq<u8>)
    requires
        r.key@ != k,
    ensures
        value_at(apply_rec(m, r), k) == value_at(m, k),
{
}

/// Replay preserves agreement at a key: if two starting states agree on
/// `k`, their replays of the same records agree on `k`.
proof fn lemma_replay_agree_at(
    m1: Map<Seq<u8>, Seq<u8>>,
    m2: Map<Seq<u8>, Seq<u8>>,
    ops: Seq<Rec>,
    k: Seq<u8>,
)
    requires
        value_at(m1, k) == value_at(m2, k),
    ensures
        value_at(replay(m1, ops), k) == value_at(replay(m2, ops), k),
    decreases ops.len(),
{
    if ops.len() > 0 {
        lemma_replay_agree_at(m1, m2, ops.drop_last(), k);
        let r = ops.last();
        let n1 = replay(m1, ops.drop_last());
        let n2 = replay(m2, ops.drop_last());
        if r.key@ != k {
            lemma_apply_rec_other_key(n1, r, k);
            lemma_apply_rec_other_key(n2, r, k);
        }
    }
}

/// A key not modified after `read_pt` has the same committed value at
/// every later cutoff: the extra visible records never touch it.
proof fn lemma_unmodified_key_stable(log: Seq<LogEntry>, cf: u64, k: Seq<u8>, read_pt: u64, s: u64)
    requires
        read_pt <= s,
        !key_modified_after(log, cf, k, read_pt),
    ensures
        value_at(cf_state(log, cf, s), k) == value_at(cf_state(log, cf, read_pt), k),
    decreases log.len(),
{
    if log.len() > 0 {
        let shorter = log.drop_last();
        let e = log.last();
        assert(!key_modified_after(shorter, cf, k, read_pt)) by {
            if key_modified_after(shorter, cf, k, read_pt) {
                let i = choose|i: int|
                    0 <= i < shorter.len() && shorter[i].seq > read_pt && shorter[i].rec.cf == cf
                        && shorter[i].rec.key@ == k;
                assert(log[i] == shorter[i]);
            }
        }
        lemma_unmodified_key_stable(shorter, cf, k, read_pt, s);
        assert(log =~= shorter.push(e));
        lemma_visible_ops_push(shorter, e, cf, s);
        lemma_visible_ops_push(shorter, e, cf, read_pt);
        if e.rec.cf == cf && e.seq <= read_pt {
            lemma_replay_push(Map::empty(), visible_ops(shorter, cf, s), e.rec);
            lemma_replay_push(Map::empty(), visible_ops(shorter, cf, read_pt), e.rec);
            if e.rec.key@ != k {
                lemma_apply_rec_other_key(cf_state(shorter, cf, s), e.rec, k);
                lemma_apply_rec_other_key(cf_state(shorter, cf, read_pt), e.rec, k);
            }
        } else if e.rec.cf == cf && e.seq <= s {
            assert(e.rec.key@ != k) by {
                if e.rec.key@ == k {
                    assert(log[log.len() - 1] == e);
                    assert(key_modified_after(log, cf, k, read_pt));
                }
            }
            lemma_replay_push(Map::empty(), visible_ops(shorter, cf, s), e.rec);
            lemma_apply_rec_other_key(cf_state(shorter, cf, s), e.rec, k);
        }
    }
}

/// Commit durability: a transaction whose commit succeeds leaves, for
/// each key it wrote, exactly its merged-view value in the committed
/// state every later read sees. The premises are what a successful
/// commit guarantees: the log holds no record past the engine's
/// sequence number (engine validity) and no watched key — every written
/// key is watched — was modified after the read point (no conflict).
pub proof fn lemma_commit_durability(
    log: Seq<LogEntry>,
    overlay: Seq<Rec>,
    cf: u64,
    k: Seq<u8>,
    read_pt: u64,
    s: u64,
)
    requires
        forall|i: int| 0 <= i < log.len() ==> (#[trigger] log[i].seq) <= s,
        read_pt <= s,
        s < u64::MAX,
        !key_modified_after(log, cf, k, read_pt),
    ensures
        value_at(cf_state(log + stamped(overlay, (s + 1) as u64), cf, (s + 1) as u64), k)
            == value_at(merged_state(log, overlay, cf, read_pt), k),
{
    lemma_commit_state(log, overlay, s, cf);
    lemma_unmodified_key_stable(log, cf, k, read_pt, s);
    lemma_replay_agree_at(
        cf_state(log, cf, s),
        cf_state(log, cf, read_pt),
        ops_for_cf(overlay, cf),
        k,
    );
}

} // verus!
