//! The host's reference implementations and the guests compute the same
//! values on every input the host accepts. Where an output carries a
//! commitment, both sides' contracts are one function of the SHA-256 in use
//! (`median_outcome`, `sort_outcome`, `ml_outcome`, `challenge_with`): the
//! guest instantiates it with its own proved SHA-256, the host with that of
//! `sha2`. The laws below show that, for the same hash function, the two
//! instances coincide, so the commitments hash the same bytes.
use vstd::prelude::*;
use crate::host::inputs::{MedianInput, MlInput, ScoringInput, SortInput, AGG_MAX, MEDIAN_MAX, SCORING_MAX, SORT_MAX};
use crate::guest::aggregation::aggregate;
use crate::guest::median::{median_outcome, median_witness_fault};
use crate::guest::ml_inference::{logits, ml_outcome, model_bytes};
use crate::guest::scoring::scoring_output;
use crate::guest::sort::{challenge_preimage, challenge_with, sort_accepted, sort_outcome, CHALLENGE_DOMAIN};
use crate::encoding::{be_u64s, u64_from_be};

verus! {

/// On every scoring input the host accepts (`count <= SCORING_MAX`), the
/// guest's output is the value `ref_scoring` returns.
pub proof fn law_scoring_host_agrees_with_guest(input: ScoringInput)
    requires
        input.count <= SCORING_MAX,
    ensures
        scoring_output(
            input.scores@,
            input.weights@,
            crate::guest::scoring::spec_clamped_count(input.count as int),
        ) == scoring_output(input.scores@, input.weights@, input.count as int),
{
}

/// On every aggregation input the host accepts (at most `AGG_MAX` words),
/// the guest aggregates all of them, as `ref_aggregation` does.
pub proof fn law_aggregation_host_agrees_with_guest(data: Seq<u64>)
    requires
        data.len() <= AGG_MAX,
    ensures
        aggregate(data.take(crate::guest::aggregation::spec_clamped_count(data.len() as int)))
            == aggregate(data),
{
    assert(data.take(data.len() as int) =~= data);
}

/// Every median witness the host accepts is accepted by the guest, and for
/// any SHA-256 function both report the same median, the same count, and the
/// commitment of the same big-endian bytes of the sorted prefix.
pub proof fn law_median_host_agrees_with_guest(input: MedianInput, h: spec_fn(Seq<u8>) -> Seq<u8>)
    requires
        input.count <= MEDIAN_MAX,
        input.count > 0 ==> median_witness_fault(input, input.count as int) is None,
    ensures
        median_witness_fault(input, crate::guest::median::spec_clamped_count(input.count as int))
            is None || input.count == 0,
        median_outcome(input, crate::guest::median::spec_clamped_count(input.count as int), h)
            == median_outcome(input, input.count as int, h),
        input.count > 0 ==> median_outcome(input, input.count as int, h).1 == h(
            be_u64s(input.sorted@.take(input.count as int))),
{
}

/// A sort witness is accepted by the guest exactly when it is accepted by
/// the host, were both to hash with the same SHA-256 function; and then both
/// report the commitments of the same big-endian bytes of both prefixes and
/// the same count. The challenge is the first eight bytes of the hash of the
/// domain tag and both commitments on either side.
pub proof fn law_sort_host_agrees_with_guest(input: SortInput, h: spec_fn(Seq<u8>) -> Seq<u8>)
    requires
        input.count <= SORT_MAX,
    ensures
        sort_accepted(input, crate::guest::sort::spec_clamped_count(input.count as int), h)
            == sort_accepted(input, input.count as int, h),
        sort_outcome(input, crate::guest::sort::spec_clamped_count(input.count as int), h)
            == sort_outcome(input, input.count as int, h),
        sort_outcome(input, input.count as int, h).0 == h(be_u64s(input.input@.take(input.count as int))),
        sort_outcome(input, input.count as int, h).1 == h(be_u64s(input.sorted@.take(input.count as int))),
        forall|a: Seq<u8>, b: Seq<u8>| #[trigger] challenge_with(a, b, h) == u64_from_be(
            h(CHALLENGE_DOMAIN@ + a + b)),
{
    assert forall|a: Seq<u8>, b: Seq<u8>| #[trigger] challenge_with(a, b, h) == u64_from_be(
        h(CHALLENGE_DOMAIN@ + a + b)) by {
        assert(challenge_preimage(a, b) == CHALLENGE_DOMAIN@ + a + b);
    }
}

/// Guest and host report the same logits, and for any SHA-256 function the
/// same commitment: the hash of the model bytes, which depend on the weights
/// and biases only, not on the features.
pub proof fn law_ml_host_agrees_with_guest(m1: MlInput, m2: MlInput, h: spec_fn(Seq<u8>) -> Seq<u8>)
    requires
        m1.w1 == m2.w1,
        m1.b1 == m2.b1,
        m1.w2 == m2.w2,
        m1.b2 == m2.b2,
        m1.w3 == m2.w3,
        m1.b3 == m2.b3,
    ensures
        ml_outcome(m1, h).0 == logits(m1),
        ml_outcome(m1, h).1 == h(model_bytes(m1)),
        ml_outcome(m1, h).1 == ml_outcome(m2, h).1,
        m1.features == m2.features ==> ml_outcome(m1, h) == ml_outcome(m2, h),
{
    if m1.features == m2.features {
        assert(m1 == m2);
    }
}

} // verus!
