//! The lexicographic order of byte strings.

use std::cmp::Ordering;
use vstd::prelude::*;
use vstd::slice::slice_index_get;

verus! {

/// The number of leading bytes that `a` and `b` have in common.
pub open spec fn common_prefix_len(a: Seq<u8>, b: Seq<u8>) -> int
    decreases a.len(),
{
    if a.len() == 0 || b.len() == 0 || a[0] != b[0] {
        0
    } else {
        1 + common_prefix_len(a.drop_first(), b.drop_first())
    }
}

/// Lexicographic order: the first byte in which the two strings differ
/// decides; where one is a prefix of the other, the shorter is the smaller.
pub open spec fn lex_order(a: Seq<u8>, b: Seq<u8>) -> Ordering {
    let n = common_prefix_len(a, b);
    if n == a.len() && n == b.len() {
        Ordering::Equal
    } else if n == a.len() {
        Ordering::Less
    } else if n == b.len() {
        Ordering::Greater
    } else if a[n] < b[n] {
        Ordering::Less
    } else {
        Ordering::Greater
    }
}

/// The common prefix is a prefix of both strings, the strings agree on it,
/// and they differ just behind it where both go on.
pub proof fn common_prefix_facts(a: Seq<u8>, b: Seq<u8>)
    ensures
        0 <= common_prefix_len(a, b) <= a.len(),
        common_prefix_len(a, b) <= b.len(),
        forall|i: int| 0 <= i < common_prefix_len(a, b) ==> a[i] == b[i],
        common_prefix_len(a, b) < a.len() && common_prefix_len(a, b) < b.len() ==> a[
            common_prefix_len(a, b)
        ] != b[common_prefix_len(a, b)],
    decreases a.len(),
{
    if a.len() == 0 || b.len() == 0 || a[0] != b[0] {
    } else {
        let ta = a.drop_first();
        let tb = b.drop_first();
        common_prefix_facts(ta, tb);
        assert forall|i: int| 0 <= i < common_prefix_len(a, b) implies a[i] == b[i] by {
            if i > 0 {
                assert(a[i] == ta[i - 1]);
                assert(b[i] == tb[i - 1]);
            }
        }
        let n = common_prefix_len(ta, tb);
        if n < ta.len() && n < tb.len() {
            assert(a[n + 1] == ta[n]);
            assert(b[n + 1] == tb[n]);
        }
    }
}

/// A position up to which the strings agree, and at which they end or
/// differ, is the length of their common prefix.
pub proof fn common_prefix_unique(a: Seq<u8>, b: Seq<u8>, n: int)
    requires
        0 <= n <= a.len(),
        n <= b.len(),
        forall|i: int| 0 <= i < n ==> a[i] == b[i],
        n == a.len() || n == b.len() || a[n] != b[n],
    ensures
        common_prefix_len(a, b) == n,
    decreases a.len(),
{
    if n == 0 {
    } else {
        let ta = a.drop_first();
        let tb = b.drop_first();
        assert(a[0] == b[0]);
        assert forall|i: int| 0 <= i < n - 1 implies ta[i] == tb[i] by {
            assert(ta[i] == a[i + 1]);
            assert(tb[i] == b[i + 1]);
        }
        if n - 1 < ta.len() && n - 1 < tb.len() {
            assert(ta[n - 1] == a[n]);
            assert(tb[n - 1] == b[n]);
        }
        common_prefix_unique(ta, tb, n - 1);
    }
}

/// A string has the whole of itself in common with itself.
pub proof fn common_prefix_whole(a: Seq<u8>)
    ensures
        common_prefix_len(a, a) == a.len(),
{
    common_prefix_unique(a, a, a.len() as int);
}

/// Counts the leading bytes that `a` and `b` have in common.
pub fn first_mismatch(a: &[u8], b: &[u8]) -> (n: usize)
    ensures
        n == common_prefix_len(a@, b@),
{
    let mut i: usize = 0;
    while i < a.len() && i < b.len() && *slice_index_get(a, i) == *slice_index_get(b, i)
        invariant
            i <= a.len(),
            i <= b.len(),
            forall|j: int| 0 <= j < i ==> a@[j] == b@[j],
        decreases a.len() - i,
    {
        i += 1;
    }
    proof {
        common_prefix_unique(a@, b@, i as int);
    }
    i
}

/// Orders two byte strings lexicographically.
pub fn compare_bytes(a: &[u8], b: &[u8]) -> (order: Ordering)
    ensures
        order == lex_order(a@, b@),
{
    let n = first_mismatch(a, b);
    proof {
        common_prefix_facts(a@, b@);
    }
    if n == a.len() {
        if n == b.len() {
            Ordering::Equal
        } else {
            Ordering::Less
        }
    } else if n == b.len() {
        Ordering::Greater
    } else if *slice_index_get(a, n) < *slice_index_get(b, n) {
        Ordering::Less
    } else {
        Ordering::Greater
    }
}

/// Two byte strings compare equal exactly when they are the same string.
pub proof fn lex_order_equal(a: Seq<u8>, b: Seq<u8>)
    ensures
        lex_order(a, b) == Ordering::Equal <==> a == b,
{
    common_prefix_facts(a, b);
    if a == b {
        common_prefix_whole(a);
    }
    if lex_order(a, b) == Ordering::Equal {
        assert(a =~= b);
    }
}

/// Swapping the arguments swaps `Less` and `Greater`.
pub proof fn lex_order_flip(a: Seq<u8>, b: Seq<u8>)
    ensures
        lex_order(a, b) == Ordering::Less <==> lex_order(b, a) == Ordering::Greater,
        lex_order(a, b) == Ordering::Greater <==> lex_order(b, a) == Ordering::Less,
        lex_order(a, b) == Ordering::Equal <==> lex_order(b, a) == Ordering::Equal,
{
    common_prefix_facts(a, b);
    common_prefix_unique(b, a, common_prefix_len(a, b));
}

/// What is not greater than something not greater than `c` is not greater
/// than `c`.
pub proof fn lex_order_transitive(a: Seq<u8>, b: Seq<u8>, c: Seq<u8>)
    requires
        lex_order(a, b) != Ordering::Greater,
        lex_order(b, c) != Ordering::Greater,
    ensures
        lex_order(a, c) != Ordering::Greater,
{
    common_prefix_facts(a, b);
    common_prefix_facts(b, c);
    let m = common_prefix_len(a, b);
    let n = common_prefix_len(b, c);
    let k = if m <= n { m } else { n };
    if k == a.len() {
        common_prefix_unique(a, c, k);
    } else if m < n {
        common_prefix_unique(a, c, m);
    } else if n < m {
        common_prefix_unique(a, c, n);
    } else {
        if m == b.len() {
            common_prefix_unique(a, c, m);
        } else {
            common_prefix_unique(a, c, m);
        }
    }
}

} // verus!
