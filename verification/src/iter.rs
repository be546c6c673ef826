//! Iterators over a materialized read view.
//!
//! An iterator is bound to one read view — a transaction's merged view or
//! a snapshot's frozen view — materialized at creation as entries sorted
//! by key. It yields each entry once, in key order (ascending or
//! descending per its mode), and cannot be restarted: a fresh iterator
//! must be created to traverse again.

use vstd::prelude::*;

use crate::bytes::KeyOrdering;
use crate::bytes::compare_bytes;
use crate::bytes::lex_lt;
use crate::kvstore::SortedKv;
use crate::kvstore::sorted_keys;
use crate::options::Direction;
use crate::options::IteratorMode;

verus! {

/// The key/value views of an entry sequence.
pub open spec fn entry_views(es: Seq<(Vec<u8>, Vec<u8>)>) -> Seq<(Seq<u8>, Seq<u8>)> {
    es.map_values(|e: (Vec<u8>, Vec<u8>)| (e.0@, e.1@))
}

/// Pointwise reading of [`entry_views`].
pub proof fn lemma_entry_views_index(es: Seq<(Vec<u8>, Vec<u8>)>)
    ensures
        entry_views(es).len() == es.len(),
        forall|j: int| 0 <= j < es.len() ==> (#[trigger] entry_views(es)[j]) == (es[j].0@, es[j].1@),
{
}

/// How a fresh cursor stands after construction with `mode`.
///
/// `Start` runs forward over everything; `End` runs backward over
/// everything; `From(k, Forward)` runs forward from the first key not
/// below `k`; `From(k, Reverse)` runs backward from the last key not
/// above `k`.
pub open spec fn positioned(r: DBIterator, mode: IteratorMode) -> bool {
    match mode {
        IteratorMode::Start => r.remaining() =~= r.source(),
        IteratorMode::End => r.remaining() =~= r.source().reverse(),
        IteratorMode::From(k, Direction::Forward) => {
            &&& r.dir == Direction::Forward
            &&& r.remaining() == r.source().skip(r.pos as int)
            &&& forall|j: int| 0 <= j < r.pos ==> lex_lt(#[trigger] r.source()[j].0, k@)
            &&& forall|j: int|
                r.pos <= j < r.source().len() ==> !lex_lt(#[trigger] r.source()[j].0, k@)
        },
        IteratorMode::From(k, Direction::Reverse) => {
            &&& r.dir == Direction::Reverse
            &&& r.remaining() == r.source().take(r.pos as int).reverse()
            &&& forall|j: int| 0 <= j < r.pos ==> !lex_lt(k@, #[trigger] r.source()[j].0)
            &&& forall|j: int|
                r.pos <= j < r.source().len() ==> lex_lt(k@, #[trigger] r.source()[j].0)
        },
    }
}

/// A cursor over a materialized view, yielding key/value pairs in key
/// order. Created by the iterator constructors of `Transaction` and
/// `Snapshot`.
pub struct DBIterator {
    pub entries: Vec<(Vec<u8>, Vec<u8>)>,
    pub pos: usize,
    pub dir: Direction,
}

impl DBIterator {
    /// Validity: entries are sorted by key and the position is in range.
    pub open spec fn wf(self) -> bool {
        sorted_keys(self.entries@) && self.pos <= self.entries@.len()
    }

    /// The whole materialized view, in ascending key order.
    pub open spec fn source(self) -> Seq<(Seq<u8>, Seq<u8>)> {
        entry_views(self.entries@)
    }

    /// What is still to be yielded, in yield order.
    pub open spec fn remaining(self) -> Seq<(Seq<u8>, Seq<u8>)> {
        match self.dir {
            Direction::Forward => self.source().skip(self.pos as int),
            Direction::Reverse => self.source().take(self.pos as int).reverse(),
        }
    }

    /// Positions a fresh cursor over a materialized view.
    ///
    /// `Start` runs forward over everything; `End` runs backward over
    /// everything; `From(k, Forward)` runs forward from the first key not
    /// below `k`; `From(k, Reverse)` runs backward from the last key not
    /// above `k`.
    pub fn over_store(kv: SortedKv, mode: IteratorMode<'_>) -> (r: DBIterator)
        requires
            kv.wf(),
        ensures
            r.wf(),
            r.entries@ == kv.entries@,
            positioned(r, mode),
    {
        let n = kv.entries.len();
        match mode {
            IteratorMode::Start => {
                let r = DBIterator { entries: kv.entries, pos: 0, dir: Direction::Forward };
                proof {
                    assert(r.remaining() =~= r.source());
                }
                r
            },
            IteratorMode::End => {
                let r = DBIterator { entries: kv.entries, pos: n, dir: Direction::Reverse };
                proof {
                    assert(r.source().take(n as int) =~= r.source());
                }
                r
            },
            IteratorMode::From(k, Direction::Forward) => {
                let i = kv.lower_bound(k);
                let r = DBIterator { entries: kv.entries, pos: i, dir: Direction::Forward };
                proof {
                    lemma_entry_views_index(r.entries@);
                }
                r
            },
            IteratorMode::From(k, Direction::Reverse) => {
                let i = kv.upper_bound(k);
                let r = DBIterator { entries: kv.entries, pos: i, dir: Direction::Reverse };
                proof {
                    lemma_entry_views_index(r.entries@);
                }
                r
            },
        }
    }

    /// Whether the cursor is positioned on an entry.
    pub fn valid(&self) -> (r: bool)
        requires
            self.wf(),
        ensures
            r == (self.remaining().len() > 0),
    {
        match self.dir {
            Direction::Forward => self.pos < self.entries.len(),
            Direction::Reverse => self.pos > 0,
        }
    }

    /// Yields the entry under the cursor and advances, or returns `None`
    /// at the end.
    pub fn next(&mut self) -> (r: Option<(Vec<u8>, Vec<u8>)>)
        requires
            old(self).wf(),
        ensures
            final(self).wf(),
            final(self).entries@ == old(self).entries@,
            final(self).dir == old(self).dir,
            old(self).remaining().len() == 0 ==> r is None && final(self).remaining().len() == 0,
            old(self).remaining().len() > 0 ==> {
                &&& r is Some
                &&& (r->Some_0.0@, r->Some_0.1@) == old(self).remaining()[0]
                &&& final(self).remaining() == old(self).remaining().skip(1)
            },
    {
        match self.dir {
            Direction::Forward => {
                if self.pos < self.entries.len() {
                    let pair = (self.entries[self.pos].0.clone(), self.entries[self.pos].1.clone());
                    self.pos = self.pos + 1;
                    proof {
                        assert(final(self).remaining() =~= old(self).remaining().skip(1));
                    }
                    Some(pair)
                } else {
                    None
                }
            },
            Direction::Reverse => {
                if self.pos > 0 {
                    self.pos = self.pos - 1;
                    let pair = (self.entries[self.pos].0.clone(), self.entries[self.pos].1.clone());
                    proof {
                        assert(old(self).remaining()[0] == old(self).source()[self.pos as int]);
                        assert(final(self).remaining() =~= old(self).remaining().skip(1));
                    }
                    Some(pair)
                } else {
                    proof {
                        assert(old(self).remaining().len() == 0);
                    }
                    None
                }
            },
        }
    }

    /// The number of entries left to yield; consumes the cursor.
    pub fn count(self) -> (r: usize)
        requires
            self.wf(),
        ensures
            r == self.remaining().len(),
    {
        match self.dir {
            Direction::Forward => self.entries.len() - self.pos,
            Direction::Reverse => self.pos,
        }
    }
}

/// A raw cursor over a materialized view: explicit positioning with
/// `seek_to_first`/`seek_to_last`, stepping with `next`/`prev`, and
/// direct `key`/`value` access. Stepping past either end invalidates it.
pub struct DBRawIterator {
    pub entries: Vec<(Vec<u8>, Vec<u8>)>,
    pub pos: usize,
    pub positioned: bool,
}

impl DBRawIterator {
    /// Validity: entries sorted by key; when positioned, in range.
    pub open spec fn wf(self) -> bool {
        sorted_keys(self.entries@) && (self.positioned ==> self.pos < self.entries@.len())
    }

    /// The whole materialized view, in ascending key order.
    pub open spec fn source(self) -> Seq<(Seq<u8>, Seq<u8>)> {
        entry_views(self.entries@)
    }

    /// A fresh raw cursor over a materialized view; not yet positioned.
    pub fn over_store(kv: SortedKv) -> (r: DBRawIterator)
        requires
            kv.wf(),
        ensures
            r.wf(),
            r.entries@ == kv.entries@,
            !r.positioned,
    {
        DBRawIterator { entries: kv.entries, pos: 0, positioned: false }
    }

    /// Whether the cursor is on an entry.
    pub fn valid(&self) -> (r: bool)
        ensures
            r == self.positioned,
    {
        self.positioned
    }

    /// Moves to the first entry; invalid if the view is empty.
    pub fn seek_to_first(&mut self)
        requires
            old(self).wf(),
        ensures
            final(self).wf(),
            final(self).entries@ == old(self).entries@,
            final(self).positioned == (old(self).source().len() > 0),
            final(self).positioned ==> final(self).pos == 0,
    {
        self.pos = 0;
        self.positioned = self.entries.len() > 0;
    }

    /// Moves to the last entry; invalid if the view is empty.
    pub fn seek_to_last(&mut self)
        requires
            old(self).wf(),
        ensures
            final(self).wf(),
            final(self).entries@ == old(self).entries@,
            final(self).positioned == (old(self).source().len() > 0),
            final(self).positioned ==> final(self).pos == old(self).source().len() - 1,
    {
        let n = self.entries.len();
        if n > 0 {
            self.pos = n - 1;
            self.positioned = true;
        } else {
            self.positioned = false;
        }
    }

    /// Positions the cursor on the first entry whose key is not below
    /// `key`; invalid when every key is below it.
    pub fn seek(&mut self, key: &[u8])
        requires
            old(self).wf(),
        ensures
            final(self).wf(),
            final(self).entries@ == old(self).entries@,
            final(self).positioned ==> {
                &&& final(self).pos < old(self).source().len()
                &&& !lex_lt(old(self).source()[final(self).pos as int].0, key@)
                &&& forall|j: int|
                    0 <= j < final(self).pos ==> lex_lt(
                        (#[trigger] old(self).source()[j]).0,
                        key@,
                    )
            },
            !final(self).positioned ==> forall|j: int|
                0 <= j < old(self).source().len() ==> lex_lt(
                    (#[trigger] old(self).source()[j]).0,
                    key@,
                ),
    {
        proof {
            lemma_entry_views_index(self.entries@);
        }
        let n = self.entries.len();
        let mut i: usize = 0;
        while i < n
            invariant
                0 <= i <= n,
                n == self.entries@.len(),
                self.entries@ == old(self).entries@,
                self.pos == old(self).pos,
                self.positioned == old(self).positioned,
                sorted_keys(self.entries@),
                forall|j: int| 0 <= j < i ==> lex_lt((#[trigger] self.entries@[j]).0@, key@),
            decreases n - i,
        {
            if !matches!(compare_bytes(self.entries[i].0.as_slice(), key), KeyOrdering::Less) {
                self.pos = i;
                self.positioned = true;
                proof {
                    lemma_entry_views_index(self.entries@);
                }
                return ;
            }
            i = i + 1;
        }
        self.positioned = false;
        proof {
            lemma_entry_views_index(self.entries@);
        }
    }

    /// Steps to the next entry in key order; invalidates at the end.
    /// Does nothing when already invalid.
    pub fn next(&mut self)
        requires
            old(self).wf(),
        ensures
            final(self).wf(),
            final(self).entries@ == old(self).entries@,
            !old(self).positioned ==> !final(self).positioned,
            old(self).positioned ==> {
                &&& final(self).positioned == (old(self).pos + 1 < old(self).source().len())
                &&& (final(self).positioned ==> final(self).pos == old(self).pos + 1)
            },
    {
        if self.positioned {
            proof {
                assert(self.pos < self.entries@.len());
            }
            if self.pos < self.entries.len() - 1 {
                self.pos = self.pos + 1;
            } else {
                self.positioned = false;
            }
        }
    }

    /// Steps to the previous entry in key order; invalidates at the
    /// start. Does nothing when already invalid.
    pub fn prev(&mut self)
        requires
            old(self).wf(),
        ensures
            final(self).wf(),
            final(self).entries@ == old(self).entries@,
            !old(self).positioned ==> !final(self).positioned,
            old(self).positioned ==> {
                &&& final(self).positioned == (old(self).pos > 0)
                &&& (final(self).positioned ==> final(self).pos == old(self).pos - 1)
            },
    {
        if self.positioned {
            if self.pos > 0 {
                self.pos = self.pos - 1;
            } else {
                self.positioned = false;
            }
        }
    }

    /// The key under the cursor; `None` when invalid.
    pub fn key(&self) -> (r: Option<Vec<u8>>)
        requires
            self.wf(),
        ensures
            self.positioned ==> r is Some && r->Some_0@ == self.source()[self.pos as int].0,
            !self.positioned ==> r is None,
    {
        if self.positioned {
            Some(self.entries[self.pos].0.clone())
        } else {
            None
        }
    }

    /// The value under the cursor; `None` when invalid.
    pub fn value(&self) -> (r: Option<Vec<u8>>)
        requires
            self.wf(),
        ensures
            self.positioned ==> r is Some && r->Some_0@ == self.source()[self.pos as int].1,
            !self.positioned ==> r is None,
    {
        if self.positioned {
            Some(self.entries[self.pos].1.clone())
        } else {
            None
        }
    }
}

} // verus!
