//! `aggregation` circuit: SUM / AVG / MIN / MAX in one pass over at most
//! `AGG_MAX` words, with a `u128` accumulator for the sum.
use vstd::prelude::*;
use crate::host::inputs::{AggregationOutput, AGG_MAX};
use crate::stats::{
    seq_sum, seq_min, seq_max, lemma_seq_sum_bounds, lemma_seq_sum_between, lemma_div_between,
    lemma_min_max_characterize,
};

verus! {

/// Wire header on the guest's input channel: the count, then `count` words.
#[derive(Debug, Clone, Copy)]
pub struct AggregationHeader {
    pub count: u32,
}

/// The aggregate of a sequence: zeros when empty, otherwise the exact sum,
/// the floor of the mean, the minimum, the maximum and the length.
pub open spec fn aggregate(s: Seq<u64>) -> AggregationOutput {
    if s.len() == 0 {
        AggregationOutput { sum_u128: 0, avg_u64: 0, min_u64: 0, max_u64: 0, count: 0 }
    } else {
        AggregationOutput {
            sum_u128: seq_sum(s) as u128,
            avg_u64: (seq_sum(s) / (s.len() as int)) as u64,
            min_u64: seq_min(s),
            max_u64: seq_max(s),
            count: s.len() as u32,
        }
    }
}

/// `count` clamped to `AGG_MAX`, as the guest reads it.
pub open spec fn spec_clamped_count(count: int) -> int {
    if count > AGG_MAX { AGG_MAX as int } else { count }
}

/// Aggregate a prefix of at most `AGG_MAX` words (shared by the guest and the host).
pub(crate) fn aggregate_prefix(data: &[u64], n: usize) -> (out: AggregationOutput)
    requires
        0 < n <= data@.len(),
        n <= AGG_MAX,
    ensures
        out == aggregate(data@.take(n as int)),
{
    let mut sum: u128 = 0;
    let mut lo: u64 = u64::MAX;
    let mut hi: u64 = 0;
    let mut i: usize = 0;
    while i < n
        invariant
            0 < n <= data@.len(),
            n <= AGG_MAX,
            i <= n,
            sum == seq_sum(data@.take(i as int)),
            lo == seq_min(data@.take(i as int)),
            hi == seq_max(data@.take(i as int)),
        decreases n - i,
    {
        let v = data[i];
        proof {
            assert(data@.take(i + 1).drop_last() =~= data@.take(i as int));
            lemma_seq_sum_bounds(data@.take(i as int));
            assert(i * u64::MAX <= 4096 * u64::MAX) by (nonlinear_arith)
                requires i <= 4096;
        }
        sum = sum + v as u128;
        if v < lo {
            lo = v;
        }
        if v > hi {
            hi = v;
        }
        i += 1;
    }
    proof {
        lemma_seq_sum_bounds(data@.take(n as int));
        assert(n * u64::MAX <= 4096 * u64::MAX) by (nonlinear_arith)
            requires n <= 4096;
    }
    AggregationOutput {
        sum_u128: sum,
        avg_u64: (sum / (n as u128)) as u64,
        min_u64: lo,
        max_u64: hi,
        count: n as u32,
    }
}

/// Off-zkvm computation of the guest: aggregate the first
/// `min(data.len(), AGG_MAX)` words; zeros for empty input.
pub fn compute(data: &[u64]) -> (out: AggregationOutput)
    ensures
        out == aggregate(data@.take(spec_clamped_count(data@.len() as int))),
{
    if data.len() == 0 {
        proof {
            assert(data@.take(0) =~= Seq::<u64>::empty());
        }
        return AggregationOutput { sum_u128: 0, avg_u64: 0, min_u64: 0, max_u64: 0, count: 0 };
    }
    let n = if data.len() > AGG_MAX { AGG_MAX } else { data.len() };
    aggregate_prefix(data, n)
}

/// Clamp `count` to `AGG_MAX`.
pub fn clamped_count(count: u32) -> (n: usize)
    ensures
        n == spec_clamped_count(count as int),
{
    let n = count as usize;
    if n > AGG_MAX { AGG_MAX } else { n }
}

/// On a non-empty input of at most `AGG_MAX` words the aggregate is
/// consistent: the sum is exact, the average is the floor of the mean and
/// lies between the minimum and the maximum, and the minimum and maximum
/// bound every word and occur among them.
pub proof fn law_aggregate_is_consistent(s: Seq<u64>)
    requires
        0 < s.len() <= AGG_MAX,
    ensures
        aggregate(s).sum_u128 == seq_sum(s),
        aggregate(s).avg_u64 == seq_sum(s) / (s.len() as int),
        aggregate(s).count == s.len(),
        aggregate(s).min_u64 <= aggregate(s).avg_u64 <= aggregate(s).max_u64,
        forall|i: int| 0 <= i < s.len() ==> aggregate(s).min_u64 <= #[trigger] s[i] <= aggregate(s).max_u64,
        exists|i: int| 0 <= i < s.len() && s[i] == aggregate(s).min_u64,
        exists|i: int| 0 <= i < s.len() && s[i] == aggregate(s).max_u64,
{
    let n = s.len() as int;
    lemma_min_max_characterize(s);
    lemma_seq_sum_bounds(s);
    lemma_seq_sum_between(s, seq_min(s) as int, seq_max(s) as int);
    lemma_div_between(seq_sum(s), n, seq_min(s) as int, seq_max(s) as int);
    assert(n * u64::MAX <= 4096 * u64::MAX) by (nonlinear_arith)
        requires n <= 4096;
}

} // verus!
