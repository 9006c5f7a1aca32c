//! Circuit registry and the host-side reference implementations.
use vstd::prelude::*;
use crate::host::error::{HostError, HostResult};
use crate::host::inputs::{
    AggregationInput, AggregationOutput, ScoringInput, ScoringOutput, MedianInput, MedianOutput,
    SortInput, SortOutput, MlInput, MlOutput, commit_u64_be, AGG_MAX, SCORING_MAX, MEDIAN_MAX,
    SORT_MAX, ML_OUT,
};
use crate::guest::median::{
    WitnessFault, median_witness_fault, median_outcome, lower_median, check_median_witness, is_monotone, monotone,
    first_perm_fault,
};
use crate::guest::sort::{
    challenge_preimage, challenge_with, running_product, running_products, sort_accepted, sort_outcome,
    CHALLENGE_DOMAIN,
};
use crate::guest::ml_inference::{
    logits, ml_outcome, model_bytes, model_bytes_vec, forward, spec_relu_saturating, spec_saturating_cast,
};
use crate::digest::{host_sha256, sha256, sha2_sha256};
use crate::encoding::{be_u64s, u64_from_be, u64_from_be_prefix, push_bytes};
use crate::text::{decimal, fmt_decimal};
use crate::guest::aggregation::{aggregate, aggregate_prefix};
use crate::guest::scoring::{
    accumulate, scoring_output, spec_weighted_sum, spec_total_weight, pow2_128, lemma_average_fits,
    lemma_weighted_sum_bound,
};

verus! {

/// The five circuits. `id` gives the stable numeric id.
#[derive(Debug, Clone, Copy, PartialEq, Eq, Hash, Structural)]
pub enum CircuitId {
    Scoring,
    Aggregation,
    Median,
    Sort,
    MlInference,
}

/// Stable kebab-case name of each circuit.
pub open spec fn circuit_name(c: CircuitId) -> Seq<char> {
    match c {
        CircuitId::Scoring => "scoring"@,
        CircuitId::Aggregation => "aggregation"@,
        CircuitId::Median => "median"@,
        CircuitId::Sort => "sort"@,
        CircuitId::MlInference => "ml-inference"@,
    }
}

/// The circuit a name denotes, if any (`ml_inference` is accepted as an alias).
pub open spec fn parse_circuit(s: Seq<char>) -> Option<CircuitId> {
    if s == "scoring"@ {
        Some(CircuitId::Scoring)
    } else if s == "aggregation"@ {
        Some(CircuitId::Aggregation)
    } else if s == "median"@ {
        Some(CircuitId::Median)
    } else if s == "sort"@ {
        Some(CircuitId::Sort)
    } else if s == "ml-inference"@ || s == "ml_inference"@ {
        Some(CircuitId::MlInference)
    } else {
        None
    }
}

/// Stable numeric id of each circuit.
pub open spec fn circuit_id(c: CircuitId) -> u8 {
    match c {
        CircuitId::Scoring => 1,
        CircuitId::Aggregation => 2,
        CircuitId::Median => 3,
        CircuitId::Sort => 4,
        CircuitId::MlInference => 5,
    }
}

/// Every circuit's name parses back to that circuit, and its id is in `1..=5`.
pub proof fn law_circuit_name_round_trip(c: CircuitId)
    ensures
        parse_circuit(circuit_name(c)) == Some(c),
        1 <= circuit_id(c) <= 5,
{
    reveal_strlit("scoring");
    reveal_strlit("aggregation");
    reveal_strlit("median");
    reveal_strlit("sort");
    reveal_strlit("ml-inference");
    reveal_strlit("ml_inference");
    assert("scoring"@.len() == 7);
    assert("aggregation"@.len() == 11);
    assert("median"@.len() == 6);
    assert("sort"@.len() == 4);
    assert("ml-inference"@.len() == 12);
}

/// Distinct circuits have distinct ids.
pub proof fn law_circuit_ids_distinct(a: CircuitId, b: CircuitId)
    ensures
        circuit_id(a) == circuit_id(b) ==> a == b,
{
}

fn str_equal(a: &str, b: &str) -> (r: bool)
    ensures
        r == (a@ == b@),
{
    String::from_str(a) == String::from_str(b)
}

impl CircuitId {
    /// All known circuits, in id order.
    pub const ALL: [CircuitId; 5] = [
        CircuitId::Scoring,
        CircuitId::Aggregation,
        CircuitId::Median,
        CircuitId::Sort,
        CircuitId::MlInference,
    ];

    /// Stable numeric id, as used by the on-chain verifier's dispatch table.
    pub fn id(self) -> (r: u8)
        ensures
            r == circuit_id(self),
    {
        match self {
            CircuitId::Scoring => 1,
            CircuitId::Aggregation => 2,
            CircuitId::Median => 3,
            CircuitId::Sort => 4,
            CircuitId::MlInference => 5,
        }
    }

    /// Stable kebab-case name used in CLI args and JSON payloads.
    pub fn name(self) -> (r: &'static str)
        ensures
            r@ == circuit_name(self),
    {
        match self {
            CircuitId::Scoring => "scoring",
            CircuitId::Aggregation => "aggregation",
            CircuitId::Median => "median",
            CircuitId::Sort => "sort",
            CircuitId::MlInference => "ml-inference",
        }
    }

    /// Inverse of [`Self::name`]; `ml_inference` is also accepted.
    pub fn from_str(s: &str) -> (res: HostResult<Self>)
        ensures
            parse_circuit(s@) matches Some(c) ==> res == Ok::<CircuitId, HostError>(c),
            parse_circuit(s@) is None ==> (res matches Err(HostError::UnknownCircuit(t)) && t@ == s@),
    {
        if str_equal(s, "scoring") {
            Ok(CircuitId::Scoring)
        } else if str_equal(s, "aggregation") {
            Ok(CircuitId::Aggregation)
        } else if str_equal(s, "median") {
            Ok(CircuitId::Median)
        } else if str_equal(s, "sort") {
            Ok(CircuitId::Sort)
        } else if str_equal(s, "ml-inference") || str_equal(s, "ml_inference") {
            Ok(CircuitId::MlInference)
        } else {
            Err(HostError::UnknownCircuit(String::from_str(s)))
        }
    }

    /// Whether an SP1 ELF for this circuit is embedded in this build; when not,
    /// the host uses the in-process reference implementation.
    pub fn elf_embedded(self) -> (r: bool)
        ensures
            r == false,
    {
        self.elf().is_some()
    }

    /// The embedded ELF for this circuit. No build step embeds one, so this
    /// is always `None` and the reference path is taken.
    pub fn elf(self) -> (r: Option<&'static [u8]>)
        ensures
            r is None,
    {
        None
    }
}

impl core::str::FromStr for CircuitId {
    type Err = HostError;

    /// Same as [`CircuitId::from_str`].
    fn from_str(s: &str) -> (res: Result<Self, Self::Err>)
        ensures
            parse_circuit(s@) matches Some(c) ==> res == Ok::<CircuitId, HostError>(c),
            parse_circuit(s@) is None ==> (res matches Err(HostError::UnknownCircuit(t)) && t@ == s@),
    {
        CircuitId::from_str(s)
    }
}


/// Whether `ref_scoring` can accumulate the weighted sum of `input` without
/// overflowing its `u128` accumulator (inputs past `SCORING_MAX` are
/// rejected before any sum is formed, so they pass).
pub fn scoring_sum_fits(input: &ScoringInput) -> (ok: bool)
    ensures
        ok == (input.count <= SCORING_MAX ==> spec_weighted_sum(input.scores@, input.weights@,
            input.count as int) < pow2_128()),
{
    if input.count as usize > SCORING_MAX {
        return true;
    }
    let n = input.count as usize;
    let mut ws: u128 = 0;
    let mut i: usize = 0;
    proof {
        lemma_weighted_sum_bound(input.scores@, input.weights@, n as int);
    }
    while i < n
        invariant
            i <= n <= SCORING_MAX,
            n == input.count,
            ws == spec_weighted_sum(input.scores@, input.weights@, i as int),
            forall|m: int| 0 <= m <= n ==> spec_weighted_sum(input.scores@, input.weights@, m)
                <= spec_weighted_sum(input.scores@, input.weights@, n as int),
        decreases n - i,
    {
        let s = input.scores[i];
        let w = input.weights[i];
        proof {
            assert(0 <= s * w <= u64::MAX * u64::MAX) by (nonlinear_arith)
                requires 0 <= s <= u64::MAX, 0 <= w <= u64::MAX;
        }
        let p = (s as u128) * (w as u128);
        match ws.checked_add(p) {
            None => {
                assert(spec_weighted_sum(input.scores@, input.weights@, i + 1) >= pow2_128());
                return false;
            },
            Some(next) => {
                ws = next;
            },
        }
        i += 1;
    }
    true
}

/// Reference implementation of the scoring circuit: rejects `count > SCORING_MAX`,
/// otherwise the weighted average over the first `count` entries (floor of
/// `weighted_sum / total_weight`, zero for zero weight) and the total weight
/// truncated to 64 bits. The weighted sum is accumulated without wrapping, so
/// it must fit in a `u128`.
pub fn ref_scoring(input: &ScoringInput) -> (res: HostResult<ScoringOutput>)
    requires
        input.count <= SCORING_MAX ==> spec_weighted_sum(input.scores@, input.weights@, input.count as int)
            < pow2_128(),
    ensures
        input.count > SCORING_MAX ==> (res matches Err(HostError::OutOfBounds { got, max })
            && got == input.count && max == SCORING_MAX),
        input.count <= SCORING_MAX ==> res == Ok::<ScoringOutput, HostError>(
            scoring_output(input.scores@, input.weights@, input.count as int)),
        input.count <= SCORING_MAX && spec_total_weight(input.weights@, input.count as int) > 0
            ==> (res matches Ok(out) && out.weighted_avg_fp == spec_weighted_sum(input.scores@,
            input.weights@, input.count as int) / spec_total_weight(input.weights@, input.count as int)),
{
    if input.count as usize > SCORING_MAX {
        return Err(HostError::OutOfBounds { got: input.count as usize, max: SCORING_MAX });
    }
    let n = input.count as usize;
    let (weighted_sum, total_weight) = accumulate(input, n);
    let weighted_avg_fp = if total_weight == 0 {
        0u64
    } else {
        proof {
            lemma_average_fits(weighted_sum as int, input.scores@, input.weights@, n as int);
        }
        (weighted_sum / total_weight) as u64
    };
    Ok(ScoringOutput { weighted_avg_fp, total_weight: total_weight as u64 })
}

/// Reference implementation of the aggregation circuit: rejects more than
/// `AGG_MAX` words, otherwise aggregates all of them.
pub fn ref_aggregation(input: &AggregationInput) -> (res: HostResult<AggregationOutput>)
    ensures
        input.data@.len() > AGG_MAX ==> (res matches Err(HostError::OutOfBounds { got, max })
            && got == input.data@.len() && max == AGG_MAX),
        input.data@.len() <= AGG_MAX ==> res == Ok::<AggregationOutput, HostError>(aggregate(input.data@)),
{
    if input.data.len() > AGG_MAX {
        return Err(HostError::OutOfBounds { got: input.data.len(), max: AGG_MAX });
    }
    if input.data.len() == 0 {
        return Ok(AggregationOutput { sum_u128: 0, avg_u64: 0, min_u64: 0, max_u64: 0, count: 0 });
    }
    let out = aggregate_prefix(input.data.as_slice(), input.data.len());
    proof {
        assert(input.data@.take(input.data@.len() as int) =~= input.data@);
    }
    Ok(out)
}

/// The message reported for a rejected median witness.
pub open spec fn median_fault_message(input: MedianInput, f: WitnessFault) -> Seq<char> {
    match f {
        WitnessFault::NotMonotonic => "sorted witness not monotonic"@,
        WitnessFault::InvalidPerm { at, index } => "invalid perm at "@ + decimal(at as nat) + ": "@
            + decimal(index as nat),
        WitnessFault::Mismatch { at, index } => "perm/sorted mismatch at "@ + decimal(at as nat)
            + ": raw["@ + decimal(index as nat) + "]="@ + decimal(input.raw[index as int] as nat)
            + " sorted["@ + decimal(at as nat) + "]="@ + decimal(input.sorted[at as int] as nat),
    }
}

fn median_fault_text(input: &MedianInput, f: WitnessFault) -> (msg: String)
    requires
        f matches WitnessFault::Mismatch { at, index } ==> at < MEDIAN_MAX && index < MEDIAN_MAX,
    ensures
        msg@ == median_fault_message(*input, f),
{
    match f {
        WitnessFault::NotMonotonic => String::from_str("sorted witness not monotonic"),
        WitnessFault::InvalidPerm { at, index } => {
            let mut m = String::from_str("invalid perm at ");
            m.append(fmt_decimal(at as u64).as_str());
            m.append(": ");
            m.append(fmt_decimal(index as u64).as_str());
            m
        },
        WitnessFault::Mismatch { at, index } => {
            let mut m = String::from_str("perm/sorted mismatch at ");
            m.append(fmt_decimal(at as u64).as_str());
            m.append(": raw[");
            m.append(fmt_decimal(index as u64).as_str());
            m.append("]=");
            m.append(fmt_decimal(input.raw[index]).as_str());
            m.append(" sorted[");
            m.append(fmt_decimal(at as u64).as_str());
            m.append("]=");
            m.append(fmt_decimal(input.sorted[at]).as_str());
            m
        },
    }
}

/// A reported fault names entries below the count it was checked against.
proof fn lemma_fault_in_range(input: MedianInput, n: int, k: int)
    requires
        0 <= k <= n <= MEDIAN_MAX,
    ensures
        first_perm_fault(input.raw@, input.sorted@, input.perm@, n, k) matches Some(f) ==> (f matches
            WitnessFault::Mismatch { at, index } ==> at < n && index < n),
    decreases k,
{
    if k > 0 {
        lemma_fault_in_range(input, n, k - 1);
    }
}

/// Reference implementation of the median circuit: rejects `count > MEDIAN_MAX`,
/// returns zeros for zero count, rejects a bad sorted-permutation witness with a
/// message naming its first fault, and otherwise returns the lower median, the
/// SHA-256 of the sorted prefix in big-endian bytes, and `count`.
pub fn ref_median(input: &MedianInput) -> (res: HostResult<MedianOutput>)
    ensures
        input.count > MEDIAN_MAX ==> (res matches Err(HostError::OutOfBounds { got, max })
            && got == input.count && max == MEDIAN_MAX),
        input.count == 0 ==> (res matches Ok(out) && (out.median, out.sorted_commit@, out.count)
            == median_outcome(*input, 0, host_sha256())),
        0 < input.count <= MEDIAN_MAX ==> match median_witness_fault(*input, input.count as int) {
            Some(f) => res matches Err(HostError::Folding(msg)) && msg@ == median_fault_message(*input, f),
            None => res matches Ok(out) && (out.median, out.sorted_commit@, out.count)
                == median_outcome(*input, input.count as int, host_sha256()),
        },
{
    let n = input.count as usize;
    if n > MEDIAN_MAX {
        return Err(HostError::OutOfBounds { got: n, max: MEDIAN_MAX });
    }
    if n == 0 {
        let out = MedianOutput { median: 0, sorted_commit: [0u8; 32], count: 0 };
        assert(out.sorted_commit@ =~= Seq::new(32, |i: int| 0u8));
        return Ok(out);
    }
    match check_median_witness(input, n) {
        Err(f) => {
            proof {
                lemma_fault_in_range(*input, n as int, n as int);
            }
            return Err(HostError::Folding(median_fault_text(input, f)));
        },
        Ok(()) => {},
    }
    let median = if n % 2 == 1 { input.sorted[n / 2] } else { input.sorted[n / 2 - 1] };
    let sorted_commit = commit_u64_be(&input.sorted[0..n]);
    proof {
        assert(input.sorted@.subrange(0, n as int) =~= input.sorted@.take(n as int));
    }
    Ok(MedianOutput { median, sorted_commit, count: input.count })
}

/// Reference implementation of the sort circuit: rejects `count > SORT_MAX`,
/// rejects a non-monotone `sorted` prefix, rejects unequal running products
/// under the challenge derived from both commitments, and otherwise returns the
/// SHA-256 commitments of both prefixes and `count`.
pub fn ref_sort(input: &SortInput) -> (res: HostResult<SortOutput>)
    ensures
        input.count > SORT_MAX ==> (res matches Err(HostError::OutOfBounds { got, max })
            && got == input.count && max == SORT_MAX),
        input.count <= SORT_MAX ==> ({
            let n = input.count as int;
            let r = challenge_with(sort_outcome(*input, n, host_sha256()).0,
                sort_outcome(*input, n, host_sha256()).1, host_sha256());
            if !monotone(input.sorted@, n) {
                res matches Err(HostError::Folding(msg)) && msg@ == "sorted witness not monotonic"@
            } else if running_product(r, input.input@, n) != running_product(r, input.sorted@, n) {
                res matches Err(HostError::Folding(msg))
                    && msg@ == "multiset mismatch (running product check failed)"@
            } else {
                res matches Ok(out)
                    && (out.input_commit@, out.sorted_commit@, out.count) == sort_outcome(*input, n,
                    host_sha256())
            }
        }),
        input.count <= SORT_MAX ==> (res is Ok <==> sort_accepted(*input, input.count as int,
            host_sha256())),
{
    let n = input.count as usize;
    if n > SORT_MAX {
        return Err(HostError::OutOfBounds { got: n, max: SORT_MAX });
    }
    if !is_monotone(&input.sorted, n) {
        return Err(HostError::Folding(String::from_str("sorted witness not monotonic")));
    }
    let input_commit = commit_u64_be(&input.input[0..n]);
    let sorted_commit = commit_u64_be(&input.sorted[0..n]);
    proof {
        assert(input.input@.subrange(0, n as int) =~= input.input@.take(n as int));
        assert(input.sorted@.subrange(0, n as int) =~= input.sorted@.take(n as int));
    }
    let r = derive_challenge(&input_commit, &sorted_commit);
    let (prod_in, prod_out) = running_products(r, &input.input, &input.sorted, n);
    if prod_in != prod_out {
        return Err(HostError::Folding(
            String::from_str("multiset mismatch (running product check failed)"),
        ));
    }
    Ok(SortOutput { sorted_commit, input_commit, count: input.count })
}

/// Reference implementation of the ml-inference circuit: the forward pass and
/// the SHA-256 of the model bytes `w1 || b1 || w2 || b2 || w3 || b3`.
pub fn ref_ml(input: &MlInput) -> (res: HostResult<MlOutput>)
    ensures
        res matches Ok(out) && (out.logits@, out.model_commit@) == ml_outcome(*input, host_sha256()),
{
    let logits = forward(input);
    let bytes = model_bytes_vec(input);
    let model_commit = sha256(bytes.as_slice());
    Ok(MlOutput { logits, model_commit })
}

/// ReLU, saturated at `i32::MAX`.
pub fn relu_saturating_i64(acc: i64) -> (r: i32)
    ensures
        r == spec_relu_saturating(acc),
{
    if acc <= 0 {
        0
    } else if acc > i32::MAX as i64 {
        i32::MAX
    } else {
        acc as i32
    }
}

/// Clamp to the `i32` range.
pub fn saturating_cast_i64_to_i32(acc: i64) -> (r: i32)
    ensures
        r == spec_saturating_cast(acc),
{
    if acc > i32::MAX as i64 {
        i32::MAX
    } else if acc < i32::MIN as i64 {
        i32::MIN
    } else {
        acc as i32
    }
}

/// Fiat-Shamir challenge from two commitments: the first eight bytes,
/// big-endian, of `SHA-256(domain || a || b)`.
pub fn derive_challenge(a: &[u8; 32], b: &[u8; 32]) -> (r: u64)
    ensures
        r == challenge_with(a@, b@, host_sha256()),
{
    let mut bytes: Vec<u8> = Vec::new();
    push_bytes(&mut bytes, &CHALLENGE_DOMAIN);
    push_bytes(&mut bytes, a);
    push_bytes(&mut bytes, b);
    assert(bytes@ =~= challenge_preimage(a@, b@));
    let d = sha256(bytes.as_slice());
    u64_from_be_prefix(&d)
}

} // verus!
