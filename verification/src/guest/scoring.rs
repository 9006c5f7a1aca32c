//! `scoring` circuit: weighted average of a bounded score vector, with
//! fixed-point weights (scale `2^32`) and `u128` intermediates.
use vstd::prelude::*;
use vstd::arithmetic::div_mod::{lemma_multiply_divide_le, lemma_div_is_ordered};
use crate::host::inputs::{ScoringInput, ScoringOutput, SCORING_MAX};
use crate::stats::{seq_sum, lemma_seq_sum_bounds, lemma_div_between};

verus! {

/// `sum_{i < n} scores[i] * weights[i]`, exactly.
pub open spec fn spec_weighted_sum(scores: Seq<u64>, weights: Seq<u64>, n: int) -> int
    decreases n,
{
    if n <= 0 {
        0
    } else {
        spec_weighted_sum(scores, weights, n - 1) + scores[n - 1] * weights[n - 1]
    }
}

/// `sum_{i < n} weights[i]`, exactly.
pub open spec fn spec_total_weight(weights: Seq<u64>, n: int) -> int {
    seq_sum(weights.take(n))
}

pub open spec fn pow2_128() -> int {
    0x1_0000_0000_0000_0000int * 0x1_0000_0000_0000_0000int
}

/// The scoring output over the first `n` entries: the floor of
/// `weighted_sum / total_weight` (zero when the total weight is zero) and the
/// total weight truncated to 64 bits.
pub open spec fn scoring_output(scores: Seq<u64>, weights: Seq<u64>, n: int) -> ScoringOutput {
    let ws = spec_weighted_sum(scores, weights, n);
    let tw = spec_total_weight(weights, n);
    ScoringOutput {
        weighted_avg_fp: if tw == 0 { 0 } else { (ws / tw) as u64 },
        total_weight: tw as u64,
    }
}

/// `count` clamped to `SCORING_MAX`.
pub open spec fn spec_clamped_count(count: int) -> int {
    if count > SCORING_MAX { SCORING_MAX as int } else { count }
}

proof fn lemma_product_bound(s: u64, w: u64)
    ensures
        0 <= s * w <= u64::MAX * w,
        s * w < pow2_128(),
{
    assert(0 <= s * w <= u64::MAX * w) by (nonlinear_arith);
    assert(u64::MAX * w <= u64::MAX * u64::MAX) by (nonlinear_arith);
}

/// The weighted sum is bounded by `u64::MAX` times the total weight, and is
/// monotone in `n`.
pub proof fn lemma_weighted_sum_bound(scores: Seq<u64>, weights: Seq<u64>, n: int)
    requires
        0 <= n <= scores.len(),
        n <= weights.len(),
    ensures
        0 <= spec_weighted_sum(scores, weights, n) <= u64::MAX * spec_total_weight(weights, n),
        forall|m: int| 0 <= m <= n ==> spec_weighted_sum(scores, weights, m) <= spec_weighted_sum(scores, weights, n),
    decreases n,
{
    if n > 0 {
        lemma_weighted_sum_bound(scores, weights, n - 1);
        assert(weights.take(n).drop_last() =~= weights.take(n - 1));
        lemma_product_bound(scores[n - 1], weights[n - 1]);
        assert(u64::MAX * spec_total_weight(weights, n) == u64::MAX * spec_total_weight(weights, n - 1)
            + u64::MAX * weights[n - 1]) by (nonlinear_arith)
            requires spec_total_weight(weights, n) == spec_total_weight(weights, n - 1) + weights[n - 1];
    } else {
        assert(weights.take(n) =~= Seq::<u64>::empty());
    }
}

/// Whenever the total weight is positive, the (possibly reduced) weighted
/// average fits in a `u64`: it is at most `u64::MAX`.
pub proof fn lemma_average_fits(ws: int, scores: Seq<u64>, weights: Seq<u64>, n: int)
    requires
        0 <= n <= scores.len(),
        n <= weights.len(),
        0 <= ws <= spec_weighted_sum(scores, weights, n),
        spec_total_weight(weights, n) > 0,
    ensures
        ws / spec_total_weight(weights, n) <= u64::MAX,
{
    let tw = spec_total_weight(weights, n);
    lemma_weighted_sum_bound(scores, weights, n);
    assert(ws <= tw * u64::MAX) by (nonlinear_arith)
        requires ws <= u64::MAX * tw;
    lemma_multiply_divide_le(ws, tw, u64::MAX as int);
}

/// Accumulate the first `n` products and weights in `u128`; the weighted
/// sum must fit.
pub(crate) fn accumulate(input: &ScoringInput, n: usize) -> (res: (u128, u128))
    requires
        n <= SCORING_MAX,
        spec_weighted_sum(input.scores@, input.weights@, n as int) < pow2_128(),
    ensures
        res.0 == spec_weighted_sum(input.scores@, input.weights@, n as int),
        res.1 == spec_total_weight(input.weights@, n as int),
{
    let mut weighted_sum: u128 = 0;
    let mut total_weight: u128 = 0;
    let mut i: usize = 0;
    proof {
        assert(input.weights@.take(0) =~= Seq::<u64>::empty());
        lemma_weighted_sum_bound(input.scores@, input.weights@, n as int);
    }
    while i < n
        invariant
            n <= SCORING_MAX,
            i <= n,
            spec_weighted_sum(input.scores@, input.weights@, n as int) < pow2_128(),
            forall|m: int| 0 <= m <= n ==> spec_weighted_sum(input.scores@, input.weights@, m)
                <= spec_weighted_sum(input.scores@, input.weights@, n as int),
            weighted_sum == spec_weighted_sum(input.scores@, input.weights@, i as int),
            total_weight == spec_total_weight(input.weights@, i as int),
        decreases n - i,
    {
        let s = input.scores[i] as u128;
        let w = input.weights[i] as u128;
        proof {
            lemma_product_bound(input.scores[i as int], input.weights[i as int]);
            assert(input.weights@.take(i + 1).drop_last() =~= input.weights@.take(i as int));
            lemma_seq_sum_bounds(input.weights@.take(i as int));
            assert(i * u64::MAX <= 64 * u64::MAX) by (nonlinear_arith) requires i <= 64;
            assert(spec_weighted_sum(input.scores@, input.weights@, i + 1) < pow2_128());
        }
        weighted_sum = weighted_sum + s * w;
        total_weight = total_weight + w;
        i += 1;
    }
    (weighted_sum, total_weight)
}

/// Accumulate the first `n` products exactly, as `hi * 2^128 + lo`, and the
/// weights in one `u128`.
fn accumulate_wide(input: &ScoringInput, n: usize) -> (res: (u128, u128, u128))
    requires
        n <= SCORING_MAX,
    ensures
        res.0 * pow2_128() + res.1 == spec_weighted_sum(input.scores@, input.weights@, n as int),
        res.0 <= n,
        res.2 == spec_total_weight(input.weights@, n as int),
{
    let mut hi: u128 = 0;
    let mut lo: u128 = 0;
    let mut total_weight: u128 = 0;
    let mut i: usize = 0;
    proof {
        assert(input.weights@.take(0) =~= Seq::<u64>::empty());
    }
    while i < n
        invariant
            n <= SCORING_MAX,
            i <= n,
            hi <= i,
            hi * pow2_128() + lo == spec_weighted_sum(input.scores@, input.weights@, i as int),
            total_weight == spec_total_weight(input.weights@, i as int),
        decreases n - i,
    {
        let s = input.scores[i] as u128;
        let w = input.weights[i] as u128;
        proof {
            lemma_product_bound(input.scores[i as int], input.weights[i as int]);
            assert(input.weights@.take(i + 1).drop_last() =~= input.weights@.take(i as int));
            lemma_seq_sum_bounds(input.weights@.take(i as int));
            assert(i * u64::MAX <= 64 * u64::MAX) by (nonlinear_arith) requires i <= 64;
        }
        let p = s * w;
        if p <= u128::MAX - lo {
            lo = lo + p;
        } else {
            lo = p - (u128::MAX - lo) - 1;
            proof {
                assert((hi + 1) * pow2_128() == hi * pow2_128() + pow2_128()) by (nonlinear_arith);
            }
            hi = hi + 1;
        }
        total_weight = total_weight + w;
        i += 1;
    }
    (hi, lo, total_weight)
}

/// `floor((hi * 2^128 + lo) / d)`, for a quotient that fits in 64 bits and a
/// divisor below `2^96`: `2^128 = qk * d + rk` with `0 < rk <= d`, so
/// `hi * 2^128 + lo = d * (hi * qk + lo / d) + (hi * rk + lo % d)`.
fn div_wide(hi: u128, lo: u128, d: u128) -> (q: u64)
    requires
        0 < d < 0x1_0000_0000_0000_0000_0000_0000,
        hi <= 64,
        (hi * pow2_128() + lo) / (d as int) <= u64::MAX,
    ensures
        q == (hi * pow2_128() + lo) / (d as int),
{
    let ghost x: int = hi * pow2_128() + lo;
    let qk0 = u128::MAX / d;
    let rk0 = u128::MAX % d;
    let qk = qk0;
    let rk = rk0 + 1;
    let s = lo / d;
    let u = lo % d;
    proof {
        vstd::arithmetic::div_mod::lemma_fundamental_div_mod(u128::MAX as int, d as int);
        vstd::arithmetic::div_mod::lemma_fundamental_div_mod(lo as int, d as int);
        assert(pow2_128() == d * qk + rk);
        assert(hi * pow2_128() == d * (hi * qk) + hi * rk) by (nonlinear_arith)
            requires pow2_128() == d * qk + rk;
        assert(x == d * (hi * qk + s) + (hi * rk + u)) by (nonlinear_arith)
            requires x == hi * pow2_128() + lo, hi * pow2_128() == d * (hi * qk) + hi * rk,
                lo == d * s + u;
        assert(hi * rk <= 64 * d) by (nonlinear_arith) requires hi <= 64, rk <= d, 0 <= rk;
        assert(0 <= hi * qk) by (nonlinear_arith) requires 0 <= hi, 0 <= qk;
        assert(d * (hi * qk + s) <= x);
        assert(hi * qk + s <= x / (d as int)) by {
            vstd::arithmetic::div_mod::lemma_div_is_ordered(d * (hi * qk + s), x, d as int);
            vstd::arithmetic::div_mod::lemma_div_multiples_vanish(hi * qk + s, d as int);
        }
    }
    let a = hi * qk + s;
    let b = hi * rk + u;
    let t = b / d;
    proof {
        vstd::arithmetic::div_mod::lemma_fundamental_div_mod(b as int, d as int);
        assert(x == d * (a + t) + (b % d) as int) by (nonlinear_arith)
            requires x == d * a + b, b == d * t + (b % d) as int;
        vstd::arithmetic::div_mod::lemma_mod_bound(b as int, d as int);
        vstd::arithmetic::div_mod::lemma_fundamental_div_mod_converse(x, d as int, a + t,
            (b % d) as int);
    }
    (a + t) as u64
}

/// Guest computation: weighted average over the first `min(count, SCORING_MAX)`
/// entries. The weighted sum is accumulated exactly, so the average is the floor
/// of the weighted sum over the total weight (zero for zero weight); the total
/// weight is reported modulo `2^64`.
pub fn compute(input: &ScoringInput) -> (out: ScoringOutput)
    ensures
        out == scoring_output(input.scores@, input.weights@, spec_clamped_count(input.count as int)),
{
    let n = clamped_count(input.count);
    let (hi, lo, total_weight) = accumulate_wide(input, n);
    proof {
        lemma_weighted_sum_bound(input.scores@, input.weights@, n as int);
        lemma_seq_sum_bounds(input.weights@.take(n as int));
        assert(n * u64::MAX <= 64 * u64::MAX) by (nonlinear_arith) requires n <= 64;
    }
    let weighted_avg_fp = if total_weight == 0 {
        0u64
    } else {
        proof {
            lemma_average_fits(hi * pow2_128() + lo, input.scores@, input.weights@, n as int);
        }
        div_wide(hi, lo, total_weight)
    };
    ScoringOutput { weighted_avg_fp, total_weight: total_weight as u64 }
}

/// Clamp `count` to `SCORING_MAX`.
pub fn clamped_count(count: u32) -> (n: usize)
    ensures
        n == spec_clamped_count(count as int),
{
    let n = count as usize;
    if n > SCORING_MAX { SCORING_MAX } else { n }
}

proof fn lemma_weighted_sum_between(scores: Seq<u64>, weights: Seq<u64>, n: int, lo: u64, hi: u64)
    requires
        0 <= n <= scores.len(),
        n <= weights.len(),
        forall|i: int| 0 <= i < n ==> lo <= #[trigger] scores[i] <= hi,
    ensures
        lo * spec_total_weight(weights, n) <= spec_weighted_sum(scores, weights, n)
            <= hi * spec_total_weight(weights, n),
    decreases n,
{
    if n > 0 {
        lemma_weighted_sum_between(scores, weights, n - 1, lo, hi);
        assert(weights.take(n).drop_last() =~= weights.take(n - 1));
        let w = weights[n - 1];
        let x = scores[n - 1];
        assert(lo <= x <= hi);
        assert(lo * w <= x * w <= hi * w) by (nonlinear_arith)
            requires lo <= x <= hi, 0 <= w;
        let tw0 = spec_total_weight(weights, n - 1);
        assert(lo * (tw0 + w) == lo * tw0 + lo * w) by (nonlinear_arith);
        assert(hi * (tw0 + w) == hi * tw0 + hi * w) by (nonlinear_arith);
    } else {
        assert(weights.take(n) =~= Seq::<u64>::empty());
    }
}

/// When the weighted sum does not wrap and some weight is positive, the
/// weighted average lies within any range that holds every score; in
/// particular equal scores average to that score.
pub proof fn law_scoring_average_within_score_range(
    scores: Seq<u64>,
    weights: Seq<u64>,
    n: int,
    lo: u64,
    hi: u64,
)
    requires
        0 <= n <= scores.len(),
        n <= weights.len(),
        forall|i: int| 0 <= i < n ==> lo <= #[trigger] scores[i] <= hi,
        spec_total_weight(weights, n) > 0,
        spec_weighted_sum(scores, weights, n) < pow2_128(),
    ensures
        lo <= scoring_output(scores, weights, n).weighted_avg_fp <= hi,
{
    let ws = spec_weighted_sum(scores, weights, n);
    let tw = spec_total_weight(weights, n);
    lemma_weighted_sum_bound(scores, weights, n);
    lemma_weighted_sum_between(scores, weights, n, lo, hi);
    assert(tw * lo <= ws <= tw * hi) by (nonlinear_arith)
        requires lo * tw <= ws <= hi * tw;
    lemma_div_between(ws, tw, lo as int, hi as int);
}

} // verus!
