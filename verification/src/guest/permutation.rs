//! Permutation witnesses: an injective index map that carries one sequence
//! onto another shows that both hold the same multiset of values.
use vstd::prelude::*;
use vstd::seq_lib::{group_to_multiset_ensures, commutative_foldl, lemma_fold_left_permutation};

verus! {

/// `p` maps every index of `a` to a distinct index of `b` holding the same
/// value, and both sequences have the same length.
pub open spec fn is_perm_witness(a: Seq<u64>, b: Seq<u64>, p: spec_fn(int) -> int) -> bool {
    &&& a.len() == b.len()
    &&& forall|i: int| 0 <= i < a.len() ==> 0 <= #[trigger] p(i) < b.len() && a[i] == b[p(i)]
    &&& forall|i: int, j: int| 0 <= i < j < a.len() ==> #[trigger] p(i) != #[trigger] p(j)
}

/// The index map after removing the last index of `a` and index `j0` of `b`.
pub open spec fn shift_past(p: spec_fn(int) -> int, j0: int) -> spec_fn(int) -> int {
    |i: int| if p(i) < j0 { p(i) } else { p(i) - 1 }
}

/// A permutation witness shows that both sequences are equal as multisets.
pub proof fn lemma_witness_same_multiset(a: Seq<u64>, b: Seq<u64>, p: spec_fn(int) -> int)
    requires
        is_perm_witness(a, b, p),
    ensures
        a.to_multiset() == b.to_multiset(),
    decreases a.len(),
{
    broadcast use group_to_multiset_ensures;

    if a.len() == 0 {
        assert(a.to_multiset().len() == 0);
        assert(b.to_multiset().len() == 0);
        vstd::multiset::lemma_multiset_empty_len(a.to_multiset());
        vstd::multiset::lemma_multiset_empty_len(b.to_multiset());
        assert(a.to_multiset() =~= b.to_multiset());
    } else {
        let n = a.len() - 1;
        let j0 = p(n);
        let a2 = a.drop_last();
        let b2 = b.remove(j0);
        let p2 = shift_past(p, j0);
        assert forall|i: int| 0 <= i < a2.len() implies 0 <= #[trigger] p2(i) < b2.len()
            && a2[i] == b2[p2(i)] by {
            assert(p(i) != p(n));
            assert(0 <= p(i) < b.len() && a[i] == b[p(i)]);
        }
        assert forall|i: int, j: int| 0 <= i < j < a2.len() implies #[trigger] p2(i)
            != #[trigger] p2(j) by {
            assert(p(i) != p(j));
            assert(p(i) != p(n));
            assert(p(j) != p(n));
        }
        lemma_witness_same_multiset(a2, b2, p2);
        assert(a =~= a2.push(a[n]));
        assert(a2.push(a[n]).to_multiset() =~= a2.to_multiset().insert(a[n]));
        assert(b2.to_multiset() == b.to_multiset().remove(b[j0]));
        assert(b.contains(b[j0]));
        assert(b.to_multiset().count(b[j0]) > 0);
        assert(a.to_multiset() =~= b.to_multiset());
    }
}

/// Number of entries among `s[..n]` strictly below `m`.
pub open spec fn count_below(s: Seq<u64>, n: int, m: u64) -> int
    decreases n,
{
    if n <= 0 {
        0
    } else {
        count_below(s, n - 1, m) + if s[n - 1] < m { 1int } else { 0int }
    }
}

/// Number of entries among `s[..n]` strictly above `m`.
pub open spec fn count_above(s: Seq<u64>, n: int, m: u64) -> int
    decreases n,
{
    if n <= 0 {
        0
    } else {
        count_above(s, n - 1, m) + if s[n - 1] > m { 1int } else { 0int }
    }
}

/// One counting step: add one when `x` satisfies the comparison with `m`.
pub open spec fn count_step(m: u64, below: bool) -> spec_fn(int, u64) -> int {
    |acc: int, x: u64| acc + if (if below { x < m } else { x > m }) { 1int } else { 0int }
}

proof fn lemma_count_is_fold(s: Seq<u64>, n: int, m: u64)
    requires
        0 <= n <= s.len(),
    ensures
        count_below(s, n, m) == s.take(n).fold_left(0int, count_step(m, true)),
        count_above(s, n, m) == s.take(n).fold_left(0int, count_step(m, false)),
    decreases n,
{
    if n > 0 {
        lemma_count_is_fold(s, n - 1, m);
        assert(s.take(n).drop_last() =~= s.take(n - 1));
        assert(s.take(n).last() == s[n - 1]);
    }
}

/// Counting entries below or above a value does not depend on their order:
/// two prefixes with the same multiset of values give the same counts.
pub proof fn lemma_counts_follow_multiset(a: Seq<u64>, b: Seq<u64>, n: int, m: u64)
    requires
        0 <= n <= a.len(),
        n <= b.len(),
        a.take(n).to_multiset() == b.take(n).to_multiset(),
    ensures
        count_below(a, n, m) == count_below(b, n, m),
        count_above(a, n, m) == count_above(b, n, m),
{
    lemma_count_is_fold(a, n, m);
    lemma_count_is_fold(b, n, m);
    assert(commutative_foldl(count_step(m, true)));
    assert(commutative_foldl(count_step(m, false)));
    lemma_fold_left_permutation(a.take(n), b.take(n), count_step(m, true), 0int);
    lemma_fold_left_permutation(a.take(n), b.take(n), count_step(m, false), 0int);
}

} // verus!
