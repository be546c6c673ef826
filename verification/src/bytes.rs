//! Lexicographic ordering of byte strings.
//!
//! Keys of the store are byte strings, iterated in ascending lexicographic
//! order. `lex_lt` is the specification-level strict order; `compare_bytes`
//! is its executable counterpart. The lemmas establish that `lex_lt` is a
//! strict total order, which the sorted key-value store builds on.

use vstd::prelude::*;

verus! {

/// Strict lexicographic order on byte sequences: `a` comes before `b`.
///
/// A proper prefix comes before its extensions; otherwise the first
/// differing byte decides.
pub open spec fn lex_lt(a: Seq<u8>, b: Seq<u8>) -> bool
    decreases a.len(),
{
    if b.len() == 0 {
        false
    } else if a.len() == 0 {
        true
    } else if a.first() < b.first() {
        true
    } else if a.first() > b.first() {
        false
    } else {
        lex_lt(a.drop_first(), b.drop_first())
    }
}

/// Result of comparing two byte strings.
#[derive(PartialEq, Eq, Structural, Clone, Copy, Debug)]
pub enum KeyOrdering {
    Less,
    Equal,
    Greater,
}

/// Exactly one of `lex_lt(a, b)`, `a == b`, `lex_lt(b, a)` holds.
pub proof fn lemma_lex_trichotomy(a: Seq<u8>, b: Seq<u8>)
    ensures
        lex_lt(a, b) || lex_lt(b, a) || a =~= b,
        lex_lt(a, b) ==> !lex_lt(b, a),
        lex_lt(a, b) ==> a != b,
    decreases a.len() + b.len(),
{
    if a.len() == 0 || b.len() == 0 {
    } else if a.first() == b.first() {
        lemma_lex_trichotomy(a.drop_first(), b.drop_first());
        if a.drop_first() =~= b.drop_first() {
            assert(a =~= b) by {
                assert(forall|i: int|
                    1 <= i < a.len() ==> #[trigger] a[i] == a.drop_first()[i - 1] == b[i]);
            }
        }
        if a =~= b {
            assert(a.drop_first() =~= b.drop_first());
        }
    }
}

/// `lex_lt` is transitive.
pub proof fn lemma_lex_transitive(a: Seq<u8>, b: Seq<u8>, c: Seq<u8>)
    requires
        lex_lt(a, b),
        lex_lt(b, c),
    ensures
        lex_lt(a, c),
    decreases a.len() + b.len() + c.len(),
{
    if a.len() == 0 || b.len() == 0 || c.len() == 0 {
    } else if a.first() == b.first() && b.first() == c.first() {
        lemma_lex_transitive(a.drop_first(), b.drop_first(), c.drop_first());
    }
}

/// Stepping lemma behind the executable comparison: once the first `i`
/// bytes agree, the outcome is decided by position `i`.
proof fn lemma_lex_at_diff(a: Seq<u8>, b: Seq<u8>, i: int)
    requires
        0 <= i <= a.len(),
        0 <= i <= b.len(),
        forall|j: int| 0 <= j < i ==> a[j] == b[j],
    ensures
        i < a.len() && i < b.len() && a[i] < b[i] ==> lex_lt(a, b),
        i < a.len() && i < b.len() && a[i] > b[i] ==> lex_lt(b, a),
        i == a.len() && i < b.len() ==> lex_lt(a, b),
        i == b.len() && i < a.len() ==> lex_lt(b, a),
        i == a.len() && i == b.len() ==> a =~= b,
    decreases i,
{
    if i > 0 {
        assert(a.first() == b.first());
        lemma_lex_at_diff(a.drop_first(), b.drop_first(), i - 1);
        assert(forall|j: int|
            0 <= j < i - 1 ==> #[trigger] a.drop_first()[j] == a[j + 1] && b.drop_first()[j] == b[j + 1]);
        if i == a.len() && i == b.len() {
            assert(a =~= b) by {
                assert(forall|j: int|
                    1 <= j < a.len() ==> #[trigger] a[j] == a.drop_first()[j - 1] == b.drop_first()[j - 1] == b[j]);
            }
        }
    }
}

/// Compares two byte strings in lexicographic order.
pub fn compare_bytes(a: &[u8], b: &[u8]) -> (r: KeyOrdering)
    ensures
        r is Less <==> lex_lt(a@, b@),
        r is Greater <==> lex_lt(b@, a@),
        r is Equal <==> a@ =~= b@,
{
    let a_len: usize = a.len();
    let b_len: usize = b.len();
    let mut i: usize = 0;
    loop
        invariant
            0 <= i <= a_len,
            0 <= i <= b_len,
            a_len == a@.len(),
            b_len == b@.len(),
            forall|j: int| 0 <= j < i ==> a@[j] == b@[j],
        decreases a_len - i,
    {
        if i == a_len || i == b_len {
            proof {
                lemma_lex_at_diff(a@, b@, i as int);
                lemma_lex_trichotomy(a@, b@);
            }
            if a_len == b_len {
                return KeyOrdering::Equal;
            } else if a_len < b_len {
                return KeyOrdering::Less;
            } else {
                return KeyOrdering::Greater;
            }
        }
        let x = a[i];
        let y = b[i];
        if x != y {
            proof {
                lemma_lex_at_diff(a@, b@, i as int);
                lemma_lex_trichotomy(a@, b@);
            }
            if x < y {
                return KeyOrdering::Less;
            } else {
                return KeyOrdering::Greater;
            }
        }
        i = i + 1;
    }
}

/// Tests two byte strings for equality.
pub fn bytes_equal(a: &[u8], b: &[u8]) -> (r: bool)
    ensures
        r <==> a@ =~= b@,
{
    matches!(compare_bytes(a, b), KeyOrdering::Equal)
}

} // verus!
