//! A key-value map held as a vector of entries sorted by key.
//!
//! [`SortedKv`] is the executable materialization of one column family's
//! keyspace: its abstract value is the map [`map_of`], and its entries are
//! kept in strictly ascending lexicographic key order, so a materialized
//! view can be handed directly to an iterator.

use vstd::prelude::*;

use crate::bytes::compare_bytes;
use crate::bytes::bytes_equal;
use crate::bytes::lex_lt;
use crate::bytes::lemma_lex_trichotomy;
use crate::bytes::lemma_lex_transitive;
use crate::bytes::KeyOrdering;
use crate::model::Mutation;
use crate::model::Rec;
use crate::model::apply_rec;
use crate::model::value_at;
use vstd::slice::slice_to_vec;

verus! {

/// Entry keys strictly ascend in lexicographic order.
pub open spec fn sorted_keys(es: Seq<(Vec<u8>, Vec<u8>)>) -> bool {
    forall|i: int, j: int| 0 <= i < j < es.len() ==> lex_lt(#[trigger] es[i].0@, #[trigger] es[j].0@)
}

/// Some entry carries key `k`.
pub open spec fn has_key(es: Seq<(Vec<u8>, Vec<u8>)>, k: Seq<u8>) -> bool {
    exists|i: int| 0 <= i < es.len() && es[i].0@ == k
}

/// The index of the entry carrying key `k`, where one exists.
pub open spec fn key_index(es: Seq<(Vec<u8>, Vec<u8>)>, k: Seq<u8>) -> int {
    choose|i: int| 0 <= i < es.len() && es[i].0@ == k
}

/// The map an entry sequence denotes.
pub open spec fn map_of(es: Seq<(Vec<u8>, Vec<u8>)>) -> Map<Seq<u8>, Seq<u8>> {
    Map::new(|k: Seq<u8>| has_key(es, k), |k: Seq<u8>| es[key_index(es, k)].1@)
}

/// Sorted entries carry pairwise distinct keys.
pub proof fn lemma_sorted_distinct(es: Seq<(Vec<u8>, Vec<u8>)>)
    requires
        sorted_keys(es),
    ensures
        forall|i: int, j: int|
            0 <= i < es.len() && 0 <= j < es.len() && i != j ==> #[trigger] es[i].0@ != #[trigger] es[j].0@,
{
    assert forall|i: int, j: int|
        0 <= i < es.len() && 0 <= j < es.len() && i != j implies #[trigger] es[i].0@ != #[trigger] es[j].0@ by {
        if i < j {
            lemma_lex_trichotomy(es[i].0@, es[j].0@);
        } else {
            lemma_lex_trichotomy(es[j].0@, es[i].0@);
        }
    }
}

/// With distinct keys, each entry is exactly what the map gives for its key.
pub proof fn lemma_map_of_index(es: Seq<(Vec<u8>, Vec<u8>)>)
    requires
        sorted_keys(es),
    ensures
        forall|i: int| 0 <= i < es.len() ==> map_of(es).dom().contains(#[trigger] es[i].0@),
        forall|i: int| 0 <= i < es.len() ==> map_of(es)[#[trigger] es[i].0@] == es[i].1@,
{
    lemma_sorted_distinct(es);
    assert forall|i: int| 0 <= i < es.len() implies map_of(es).dom().contains(#[trigger] es[i].0@)
        && map_of(es)[es[i].0@] == es[i].1@ by {
        assert(has_key(es, es[i].0@));
        let j = key_index(es, es[i].0@);
        assert(es[j].0@ == es[i].0@);
        assert(j == i);
    }
}

/// The number of sorted entries equals the cardinality of the map's domain.
pub proof fn lemma_map_of_len(es: Seq<(Vec<u8>, Vec<u8>)>)
    requires
        sorted_keys(es),
    ensures
        map_of(es).dom().finite(),
        map_of(es).dom().len() == es.len(),
    decreases es.len(),
{
    if es.len() == 0 {
        assert(map_of(es).dom() =~= Set::<Seq<u8>>::empty());
    } else {
        let shorter = es.drop_last();
        lemma_map_of_len(shorter);
        lemma_sorted_distinct(es);
        assert(map_of(es).dom() =~= map_of(shorter).dom().insert(es.last().0@)) by {
            assert forall|k: Seq<u8>| has_key(es, k) && k != es.last().0@ implies has_key(
                shorter,
                k,
            ) by {
                let i = choose|i: int| 0 <= i < es.len() && es[i].0@ == k;
                assert(shorter[i].0@ == k);
            }
            assert forall|k: Seq<u8>| has_key(shorter, k) implies has_key(es, k) by {
                let i = choose|i: int| 0 <= i < shorter.len() && shorter[i].0@ == k;
                assert(es[i].0@ == k);
            }
        }
        assert(!map_of(shorter).dom().contains(es.last().0@)) by {
            if has_key(shorter, es.last().0@) {
                let i = choose|i: int| 0 <= i < shorter.len() && shorter[i].0@ == es.last().0@;
                assert(es[i].0@ == es[es.len() - 1].0@);
            }
        }
    }
}

/// An executable key-value map: entries sorted by key, distinct keys.
pub struct SortedKv {
    pub entries: Vec<(Vec<u8>, Vec<u8>)>,
}

impl SortedKv {
    /// Validity: keys strictly ascend.
    pub open spec fn wf(self) -> bool {
        sorted_keys(self.entries@)
    }

    /// The map this store denotes.
    pub open spec fn as_map(self) -> Map<Seq<u8>, Seq<u8>> {
        map_of(self.entries@)
    }

    /// An empty store.
    pub fn new() -> (r: SortedKv)
        ensures
            r.wf(),
            r.as_map() =~= Map::<Seq<u8>, Seq<u8>>::empty(),
            r.entries@.len() == 0,
    {
        SortedKv { entries: Vec::new() }
    }

    /// The stored value of `key`, if any.
    pub fn get_value(&self, key: &[u8]) -> (r: Option<Vec<u8>>)
        requires
            self.wf(),
        ensures
            match r {
                Some(v) => value_at(self.as_map(), key@) == Some(v@),
                None => value_at(self.as_map(), key@) is None,
            },
    {
        let n = self.entries.len();
        let mut i: usize = 0;
        while i < n
            invariant
                self.wf(),
                0 <= i <= n,
                n == self.entries@.len(),
                forall|j: int| 0 <= j < i ==> (#[trigger] self.entries@[j].0@) != key@,
            decreases n - i,
        {
            if bytes_equal(self.entries[i].0.as_slice(), key) {
                proof {
                    lemma_map_of_index(self.entries@);
                }
                return Some(self.entries[i].1.clone());
            }
            i = i + 1;
        }
        proof {
            if has_key(self.entries@, key@) {
                let j = key_index(self.entries@, key@);
                assert(self.entries@[j].0@ == key@);
            }
        }
        None
    }

    /// The index of the first entry whose key is not below `key`.
    pub(crate) fn lower_bound(&self, key: &[u8]) -> (i: usize)
        requires
            self.wf(),
        ensures
            0 <= i <= self.entries@.len(),
            forall|j: int| 0 <= j < i ==> lex_lt(#[trigger] self.entries@[j].0@, key@),
            forall|j: int|
                i <= j < self.entries@.len() ==> !lex_lt(#[trigger] self.entries@[j].0@, key@),
    {
        let n = self.entries.len();
        let mut i: usize = 0;
        while i < n
            invariant
                self.wf(),
                0 <= i <= n,
                n == self.entries@.len(),
                forall|j: int| 0 <= j < i ==> lex_lt(#[trigger] self.entries@[j].0@, key@),
            decreases n - i,
        {
            if !matches!(compare_bytes(self.entries[i].0.as_slice(), key), KeyOrdering::Less) {
                proof {
                    assert forall|j: int|
                        i <= j < self.entries@.len() implies !lex_lt(
                        #[trigger] self.entries@[j].0@,
                        key@,
                    ) by {
                        if j > i && lex_lt(self.entries@[j].0@, key@) {
                            lemma_lex_transitive(
                                self.entries@[i as int].0@,
                                self.entries@[j].0@,
                                key@,
                            );
                        }
                        lemma_lex_trichotomy(self.entries@[i as int].0@, key@);
                    }
                }
                return i;
            }
            i = i + 1;
        }
        i
    }

    /// The index just past the last entry whose key is not above `key`.
    pub(crate) fn upper_bound(&self, key: &[u8]) -> (i: usize)
        requires
            self.wf(),
        ensures
            0 <= i <= self.entries@.len(),
            forall|j: int| 0 <= j < i ==> !lex_lt(key@, #[trigger] self.entries@[j].0@),
            forall|j: int|
                i <= j < self.entries@.len() ==> lex_lt(key@, #[trigger] self.entries@[j].0@),
    {
        let n = self.entries.len();
        let mut i: usize = 0;
        while i < n
            invariant
                self.wf(),
                0 <= i <= n,
                n == self.entries@.len(),
                forall|j: int| 0 <= j < i ==> !lex_lt(key@, #[trigger] self.entries@[j].0@),
            decreases n - i,
        {
            if matches!(compare_bytes(key, self.entries[i].0.as_slice()), KeyOrdering::Less) {
                proof {
                    assert forall|j: int|
                        i <= j < self.entries@.len() implies lex_lt(
                        key@,
                        #[trigger] self.entries@[j].0@,
                    ) by {
                        if j > i {
                            lemma_lex_transitive(
                                key@,
                                self.entries@[i as int].0@,
                                self.entries@[j].0@,
                            );
                        }
                    }
                }
                return i;
            }
            i = i + 1;
        }
        i
    }

    /// Stores `value` under `key`, replacing any previous value.
    pub fn set_value(&mut self, key: &[u8], value: &[u8])
        requires
            old(self).wf(),
        ensures
            final(self).wf(),
            final(self).as_map() =~= old(self).as_map().insert(key@, value@),
    {
        let ghost es0 = self.entries@;
        let i = self.lower_bound(key);
        let pair = (slice_to_vec(key), slice_to_vec(value));
        let ghost gpair = pair;
        if i < self.entries.len() && bytes_equal(self.entries[i].0.as_slice(), key) {
            self.entries.set(i, pair);
            proof {
                let es1 = self.entries@;
                lemma_sorted_distinct(es0);
                assert(forall|j: int| 0 <= j < es1.len() ==> #[trigger] es1[j].0@ == es0[j].0@);
                assert(sorted_keys(es1));
                lemma_map_of_index(es0);
                lemma_map_of_index(es1);
                assert forall|k: Seq<u8>| #[trigger] map_of(es1).dom().contains(k) implies map_of(
                    es0,
                ).insert(key@, value@).dom().contains(k) && map_of(es1)[k] == map_of(es0).insert(
                    key@,
                    value@,
                )[k] by {
                    let j = choose|j: int| 0 <= j < es1.len() && es1[j].0@ == k;
                    if j == i {
                        assert(es1[j].1@ == value@);
                    } else {
                        assert(es1[j] == es0[j]);
                        assert(k != key@);
                    }
                }
                assert forall|k: Seq<u8>| map_of(es0).insert(key@, value@).dom().contains(k)
                    implies #[trigger] map_of(es1).dom().contains(k) by {
                    if k == key@ {
                        assert(es1[i as int].0@ == k);
                    } else {
                        let j = choose|j: int| 0 <= j < es0.len() && es0[j].0@ == k;
                        assert(es1[j].0@ == k);
                    }
                }
                assert(map_of(es1) =~= map_of(es0).insert(key@, value@));
            }
        } else {
            proof {
                assert(gpair.0@ == key@ && gpair.1@ == value@);
                if i < es0.len() {
                    assert forall|j: int| i <= j < es0.len() implies lex_lt(
                        key@,
                        #[trigger] es0[j].0@,
                    ) by {
                        lemma_lex_trichotomy(es0[i as int].0@, key@);
                        if j > i {
                            lemma_lex_transitive(key@, es0[i as int].0@, es0[j].0@);
                        }
                    }
                }
            }
            self.entries.insert(i, pair);
            proof {
                let es1 = self.entries@;
                es0.insert_ensures(i as int, gpair);
                assert forall|p: int, q: int| 0 <= p < q < es1.len() implies lex_lt(
                    #[trigger] es1[p].0@,
                    #[trigger] es1[q].0@,
                ) by {
                    if q < i {
                    } else if p < i && q == i {
                        assert(es1[p].0@ == es0[p].0@ && es1[q].0@ == key@);
                    } else if p == i {
                        assert(es1[q].0@ == es0[q - 1].0@ && es1[p].0@ == key@);
                    } else if p < i {
                        assert(es1[p].0@ == es0[p].0@ && es1[q].0@ == es0[q - 1].0@);
                        assert(p < q - 1);
                    } else {
                        assert(es1[p].0@ == es0[p - 1].0@ && es1[q].0@ == es0[q - 1].0@);
                    }
                }
                lemma_map_of_index(es0);
                lemma_map_of_index(es1);
                assert forall|k: Seq<u8>| #[trigger] map_of(es1).dom().contains(k) implies map_of(
                    es0,
                ).insert(key@, value@).dom().contains(k) && map_of(es1)[k] == map_of(es0).insert(
                    key@,
                    value@,
                )[k] by {
                    let j = choose|j: int| 0 <= j < es1.len() && es1[j].0@ == k;
                    if j == i {
                        assert(es1[j].1@ == value@ && k == key@);
                    } else if j < i {
                        assert(es1[j] == es0[j]);
                        lemma_lex_trichotomy(es0[j].0@, key@);
                    } else {
                        assert(es1[j] == es0[j - 1]);
                        lemma_lex_trichotomy(key@, es0[j - 1].0@);
                    }
                }
                assert forall|k: Seq<u8>| map_of(es0).insert(key@, value@).dom().contains(k)
                    implies #[trigger] map_of(es1).dom().contains(k) by {
                    if k == key@ {
                        assert(es1[i as int].0@ == k);
                    } else {
                        let j = choose|j: int| 0 <= j < es0.len() && es0[j].0@ == k;
                        if j < i {
                            assert(es1[j].0@ == k);
                        } else {
                            assert(es1[j + 1].0@ == k);
                        }
                    }
                }
                assert(map_of(es1) =~= map_of(es0).insert(key@, value@));
            }
        }
    }

    /// Removes `key` and its value, if present.
    pub fn remove_key(&mut self, key: &[u8])
        requires
            old(self).wf(),
        ensures
            final(self).wf(),
            final(self).as_map() =~= old(self).as_map().remove(key@),
    {
        let ghost es0 = self.entries@;
        let n = self.entries.len();
        let mut i: usize = 0;
        while i < n
            invariant
                self.wf(),
                self.entries@ == es0,
                es0 == old(self).entries@,
                0 <= i <= n,
                n == es0.len(),
                forall|j: int| 0 <= j < i ==> (#[trigger] es0[j].0@) != key@,
            decreases n - i,
        {
            if bytes_equal(self.entries[i].0.as_slice(), key) {
                self.entries.remove(i);
                proof {
                    let es1 = self.entries@;
                    es0.remove_ensures(i as int);
                    lemma_sorted_distinct(es0);
                    assert forall|p: int, q: int| 0 <= p < q < es1.len() implies lex_lt(
                        #[trigger] es1[p].0@,
                        #[trigger] es1[q].0@,
                    ) by {
                        if q < i {
                        } else if p < i {
                            assert(es1[p].0@ == es0[p].0@ && es1[q].0@ == es0[q + 1].0@);
                        } else {
                            assert(es1[p].0@ == es0[p + 1].0@ && es1[q].0@ == es0[q + 1].0@);
                        }
                    }
                    lemma_map_of_index(es0);
                    lemma_map_of_index(es1);
                    assert forall|k: Seq<u8>| #[trigger] map_of(es1).dom().contains(k) implies
                        map_of(es0).remove(key@).dom().contains(k) && map_of(es1)[k] == map_of(
                        es0,
                    ).remove(key@)[k] by {
                        let j = choose|j: int| 0 <= j < es1.len() && es1[j].0@ == k;
                        if j < i {
                            assert(es1[j] == es0[j]);
                            assert(k != key@);
                        } else {
                            assert(es1[j] == es0[j + 1]);
                            assert(j + 1 != i);
                            assert(k != key@);
                        }
                    }
                    assert forall|k: Seq<u8>| map_of(es0).remove(key@).dom().contains(k) implies
                        #[trigger] map_of(es1).dom().contains(k) by {
                        let j = choose|j: int| 0 <= j < es0.len() && es0[j].0@ == k;
                        assert(j != i);
                        if j < i {
                            assert(es1[j].0@ == k);
                        } else {
                            assert(es1[j - 1].0@ == k);
                        }
                    }
                    assert(map_of(es1) =~= map_of(es0).remove(key@));
                }
                return ;
            }
            i = i + 1;
        }
        proof {
            if has_key(es0, key@) {
                let j = key_index(es0, key@);
                assert(es0[j].0@ == key@);
            }
            assert(self.as_map() =~= old(self).as_map().remove(key@));
        }
    }

    /// Applies one mutation record to the store (the record's column family
    /// is the caller's concern; only key and mutation matter here).
    pub fn apply_record(&mut self, rec: &Rec)
        requires
            old(self).wf(),
        ensures
            final(self).wf(),
            final(self).as_map() =~= apply_rec(old(self).as_map(), *rec),
    {
        match &rec.m {
            Mutation::Put(v) => {
                self.set_value(rec.key.as_slice(), v.as_slice());
            },
            Mutation::Delete => {
                self.remove_key(rec.key.as_slice());
            },
            Mutation::Merge(v) => {
                match self.get_value(rec.key.as_slice()) {
                    Some(prev) => {
                        let joined = concat_bytes(&prev, v);
                        self.set_value(rec.key.as_slice(), joined.as_slice());
                    },
                    None => {
                        self.set_value(rec.key.as_slice(), v.as_slice());
                    },
                }
            },
        }
    }
}

/// Concatenates two byte vectors.
pub fn concat_bytes(a: &Vec<u8>, b: &Vec<u8>) -> (r: Vec<u8>)
    ensures
        r@ == a@ + b@,
{
    let mut r = slice_to_vec(a.as_slice());
    let n = b.len();
    let mut i: usize = 0;
    while i < n
        invariant
            0 <= i <= n,
            n == b@.len(),
            r@ =~= a@ + b@.take(i as int),
        decreases n - i,
    {
        r.push(b[i]);
        proof {
            assert(r@ =~= a@ + b@.take(i + 1));
        }
        i = i + 1;
    }
    proof {
        assert(a@ + b@.take(n as int) =~= a@ + b@);
    }
    r
}

} // verus!
