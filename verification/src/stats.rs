//! Mathematical summaries of integer sequences shared by the circuits.
use vstd::prelude::*;

verus! {

/// Exact (unbounded) sum of a sequence of `u64`.
pub open spec fn seq_sum(s: Seq<u64>) -> int
    decreases s.len(),
{
    if s.len() == 0 {
        0
    } else {
        seq_sum(s.drop_last()) + s.last()
    }
}

/// Running minimum, starting from `u64::MAX` (the identity of `min`).
pub open spec fn seq_min(s: Seq<u64>) -> u64
    decreases s.len(),
{
    if s.len() == 0 {
        u64::MAX
    } else {
        let m = seq_min(s.drop_last());
        if s.last() < m { s.last() } else { m }
    }
}

/// Running maximum, starting from `0` (the identity of `max`).
pub open spec fn seq_max(s: Seq<u64>) -> u64
    decreases s.len(),
{
    if s.len() == 0 {
        0
    } else {
        let m = seq_max(s.drop_last());
        if s.last() > m { s.last() } else { m }
    }
}

/// The sum of `n` words is at most `n * u64::MAX`.
pub proof fn lemma_seq_sum_bounds(s: Seq<u64>)
    ensures
        0 <= seq_sum(s) <= s.len() * u64::MAX,
    decreases s.len(),
{
    if s.len() > 0 {
        lemma_seq_sum_bounds(s.drop_last());
    }
}

/// `seq_min` is an element of a non-empty sequence and a lower bound of all of them;
/// `seq_max` likewise an element and an upper bound.
pub proof fn lemma_min_max_characterize(s: Seq<u64>)
    requires
        s.len() > 0,
    ensures
        forall|i: int| 0 <= i < s.len() ==> seq_min(s) <= #[trigger] s[i] <= seq_max(s),
        exists|i: int| 0 <= i < s.len() && s[i] == seq_min(s),
        exists|i: int| 0 <= i < s.len() && s[i] == seq_max(s),
    decreases s.len(),
{
    if s.len() == 1 {
        assert(s.drop_last().len() == 0);
        assert(seq_min(s.drop_last()) == u64::MAX);
        assert(seq_max(s.drop_last()) == 0);
        assert(s.last() == s[0]);
        assert(s[0] == seq_min(s));
        assert(s[0] == seq_max(s));
    } else {
        let t = s.drop_last();
        lemma_min_max_characterize(t);
        assert forall|i: int| 0 <= i < s.len() implies seq_min(s) <= #[trigger] s[i] <= seq_max(s) by {
            if i < s.len() - 1 {
                assert(s[i] == t[i]);
            }
        }
        if s.last() < seq_min(t) {
            assert(s[s.len() - 1] == seq_min(s));
        } else {
            let k = choose|k: int| 0 <= k < t.len() && t[k] == seq_min(t);
            assert(s[k] == seq_min(s));
        }
        if s.last() > seq_max(t) {
            assert(s[s.len() - 1] == seq_max(s));
        } else {
            let k = choose|k: int| 0 <= k < t.len() && t[k] == seq_max(t);
            assert(s[k] == seq_max(s));
        }
    }
}

/// A sum of `n` words each within `[lo, hi]` lies within `[n * lo, n * hi]`.
pub proof fn lemma_seq_sum_between(s: Seq<u64>, lo: int, hi: int)
    requires
        forall|i: int| 0 <= i < s.len() ==> lo <= #[trigger] s[i] <= hi,
    ensures
        s.len() * lo <= seq_sum(s) <= s.len() * hi,
    decreases s.len(),
{
    if s.len() > 0 {
        let t = s.drop_last();
        assert forall|i: int| 0 <= i < t.len() implies lo <= #[trigger] t[i] <= hi by {
            assert(t[i] == s[i]);
        }
        lemma_seq_sum_between(t, lo, hi);
        assert(lo <= s[s.len() - 1] <= hi);
        assert(s.len() * lo == t.len() * lo + lo) by (nonlinear_arith)
            requires s.len() == t.len() + 1;
        assert(s.len() * hi == t.len() * hi + hi) by (nonlinear_arith)
            requires s.len() == t.len() + 1;
    }
}

/// Floor division keeps a value that lies within `[n * lo, n * hi]` within `[lo, hi]`.
pub proof fn lemma_div_between(x: int, n: int, lo: int, hi: int)
    requires
        n > 0,
        n * lo <= x <= n * hi,
    ensures
        lo <= x / n <= hi,
{
    vstd::arithmetic::div_mod::lemma_div_is_ordered(n * lo, x, n);
    vstd::arithmetic::div_mod::lemma_div_is_ordered(x, n * hi, n);
    vstd::arithmetic::div_mod::lemma_div_multiples_vanish(lo, n);
    vstd::arithmetic::div_mod::lemma_div_multiples_vanish(hi, n);
}

} // verus!
