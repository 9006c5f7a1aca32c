//! Shared input/output schemas of the five circuits.
//!
//! Every field is a fixed-length array so the layout has constant size.
//! Real numbers are fixed-point: scale `2^32` for the `u64` fields of
//! `scoring`/`aggregation`, scale `2^16` for the `i32` fields of `ml-inference`.
use vstd::prelude::*;
use crate::digest::{sha256, sha2_sha256};
use crate::encoding::{be_u64s, be_i32s, u64s_to_be, i32s_to_be_into};

verus! {

// ---------------------------------------------------------------------
// scoring
// ---------------------------------------------------------------------

/// Max scoring vector length. Padded with zero scores / weights.
pub const SCORING_MAX: usize = 64;

#[derive(Debug, Clone, Copy)]
pub struct ScoringInput {
    pub scores: [u64; SCORING_MAX],
    /// Weights in fixed-point, scale `2^32`.
    pub weights: [u64; SCORING_MAX],
    pub count: u32,
}

#[derive(Debug, Clone, Copy, PartialEq, Eq)]
pub struct ScoringOutput {
    /// Weighted average in fixed-point scale `2^32`.
    pub weighted_avg_fp: u64,
    pub total_weight: u64,
}

impl ScoringInput {
    /// Construct from variable-length slices, padding with zeros to `SCORING_MAX`.
    /// `None` when the lengths differ or exceed the bound.
    pub fn new(scores: &[u64], weights: &[u64]) -> (res: Option<Self>)
        ensures
            res is None <==> (scores@.len() != weights@.len() || scores@.len() > SCORING_MAX),
            res matches Some(s) ==> {
                &&& s.count == scores@.len()
                &&& forall|i: int| 0 <= i < scores@.len() ==> s.scores[i] == scores@[i]
                    && s.weights[i] == weights@[i]
                &&& forall|i: int| scores@.len() <= i < SCORING_MAX ==> s.scores[i] == 0
                    && s.weights[i] == 0
            },
    {
        if scores.len() != weights.len() || scores.len() > SCORING_MAX {
            return None;
        }
        let mut s = [0u64; SCORING_MAX];
        let mut w = [0u64; SCORING_MAX];
        let n = scores.len();
        let mut i: usize = 0;
        while i < n
            invariant
                n == scores@.len() == weights@.len(),
                n <= SCORING_MAX,
                i <= n,
                forall|k: int| 0 <= k < i ==> s[k] == scores@[k] && w[k] == weights@[k],
                forall|k: int| i <= k < SCORING_MAX ==> s[k] == 0 && w[k] == 0,
            decreases n - i,
        {
            s[i] = scores[i];
            w[i] = weights[i];
            i += 1;
        }
        Some(ScoringInput { scores: s, weights: w, count: n as u32 })
    }
}

// ---------------------------------------------------------------------
// aggregation
// ---------------------------------------------------------------------

/// Max aggregation vector length.
pub const AGG_MAX: usize = 4096;

#[derive(Debug, Clone)]
pub struct AggregationInput {
    /// Variable-length data; at most `AGG_MAX` entries are accepted.
    pub data: Vec<u64>,
}

#[derive(Debug, Clone, Copy, PartialEq, Eq)]
pub struct AggregationOutput {
    pub sum_u128: u128,
    pub avg_u64: u64,
    pub min_u64: u64,
    pub max_u64: u64,
    pub count: u32,
}

// ---------------------------------------------------------------------
// median
// ---------------------------------------------------------------------

pub const MEDIAN_MAX: usize = 256;

#[derive(Debug, Clone, Copy)]
pub struct MedianInput {
    pub raw: [u64; MEDIAN_MAX],
    pub sorted: [u64; MEDIAN_MAX],
    /// `perm[i]` is the index into `raw` such that `sorted[i] == raw[perm[i]]`.
    pub perm: [u16; MEDIAN_MAX],
    pub count: u32,
}

#[derive(Debug, Clone, Copy, PartialEq, Eq)]
pub struct MedianOutput {
    pub median: u64,
    /// 32-byte commitment to the sorted vector.
    pub sorted_commit: [u8; 32],
    pub count: u32,
}

// ---------------------------------------------------------------------
// sort
// ---------------------------------------------------------------------

pub const SORT_MAX: usize = 256;

#[derive(Debug, Clone, Copy)]
pub struct SortInput {
    pub input: [u64; SORT_MAX],
    pub sorted: [u64; SORT_MAX],
    pub perm: [u16; SORT_MAX],
    pub count: u32,
}

#[derive(Debug, Clone, Copy, PartialEq, Eq)]
pub struct SortOutput {
    /// 32-byte commitment to the sorted permutation.
    pub sorted_commit: [u8; 32],
    /// 32-byte commitment to the unsorted input.
    pub input_commit: [u8; 32],
    pub count: u32,
}

// ---------------------------------------------------------------------
// ml-inference
// ---------------------------------------------------------------------

pub const ML_IN: usize = 32;
pub const ML_H1: usize = 16;
pub const ML_H2: usize = 8;
pub const ML_OUT: usize = 4;

/// Fixed-point scale of the ml-inference circuit: values are `i32` with scale `2^16`.
pub const ML_FP_SHIFT: u32 = 16;

#[derive(Debug, Clone, Copy)]
pub struct MlInput {
    pub features: [i32; ML_IN],
    pub w1: [[i32; ML_IN]; ML_H1],
    pub b1: [i32; ML_H1],
    pub w2: [[i32; ML_H1]; ML_H2],
    pub b2: [i32; ML_H2],
    pub w3: [[i32; ML_H2]; ML_OUT],
    pub b3: [i32; ML_OUT],
}

#[derive(Debug, Clone, Copy, PartialEq, Eq)]
pub struct MlOutput {
    pub logits: [i32; ML_OUT],
    /// Commitment to the model weights so verifiers can pin a model id.
    pub model_commit: [u8; 32],
}

impl Default for MlInput {
    /// All features, weights and biases zero.
    fn default() -> (m: Self)
        ensures
            forall|i: int| 0 <= i < ML_IN ==> m.features[i] == 0,
            forall|j: int, i: int| 0 <= j < ML_H1 && 0 <= i < ML_IN ==> m.w1[j][i] == 0,
            forall|j: int| 0 <= j < ML_H1 ==> m.b1[j] == 0,
            forall|j: int, i: int| 0 <= j < ML_H2 && 0 <= i < ML_H1 ==> m.w2[j][i] == 0,
            forall|j: int| 0 <= j < ML_H2 ==> m.b2[j] == 0,
            forall|j: int, i: int| 0 <= j < ML_OUT && 0 <= i < ML_H2 ==> m.w3[j][i] == 0,
            forall|j: int| 0 <= j < ML_OUT ==> m.b3[j] == 0,
    {
        MlInput {
            features: [0; ML_IN],
            w1: [[0; ML_IN]; ML_H1],
            b1: [0; ML_H1],
            w2: [[0; ML_H1]; ML_H2],
            b2: [0; ML_H2],
            w3: [[0; ML_H2]; ML_OUT],
            b3: [0; ML_OUT],
        }
    }
}

// ---------------------------------------------------------------------
// shared helpers
// ---------------------------------------------------------------------

/// SHA-256 digest over a `u64` slice in big-endian byte order.
pub fn commit_u64_be(data: &[u64]) -> (d: [u8; 32])
    ensures
        d@ == sha2_sha256(be_u64s(data@)),
{
    let bytes = u64s_to_be(data, data.len());
    assert(data@.take(data@.len() as int) =~= data@);
    sha256(bytes.as_slice())
}

/// SHA-256 digest over an `i32` slice in big-endian byte order.
pub fn commit_i32_be(data: &[i32]) -> (d: [u8; 32])
    ensures
        d@ == sha2_sha256(be_i32s(data@)),
{
    let mut bytes: Vec<u8> = Vec::new();
    i32s_to_be_into(&mut bytes, data);
    assert(bytes@ =~= be_i32s(data@));
    sha256(bytes.as_slice())
}

} // verus!
