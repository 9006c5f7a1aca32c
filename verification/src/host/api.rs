//! The decisions of the HTTP bridge: what a fold request is answered with, and
//! which HTTP status each error maps to. Routing and JSON live outside the library.
use vstd::prelude::*;
use crate::host::circuits::CircuitId;
use crate::host::error::HostError;
use crate::host::folding::{FoldedProof, FoldingAdapter, folds};
use crate::host::prover::ProveOutput;
use crate::text::{hex_encode, hex_lower};

verus! {

/// Per-sub-proof metadata returned by `POST /fold`.
#[derive(Debug, Clone)]
pub struct SubProofSummary {
    pub circuit: CircuitId,
    pub public_hash_hex: String,
    pub cycles: u64,
}

/// Response body of `POST /fold`.
#[derive(Debug, Clone)]
pub struct FoldResponse {
    pub folded: FoldedProof,
    pub sub_proofs: Vec<SubProofSummary>,
    /// Whether any sub-proof came from the real SP1 prover.
    pub real: bool,
}

/// The summary of one sub-proof.
pub open spec fn summary_of(s: SubProofSummary, o: ProveOutput) -> bool {
    s.circuit == o.circuit && s.public_hash_hex@ == hex_lower(o.public_hash@) && s.cycles == o.cycles
}

/// Whether any sub-proof is real.
pub open spec fn any_real(outs: Seq<ProveOutput>) -> bool {
    exists|i: int| 0 <= i < outs.len() && #[trigger] outs[i].real
}

/// Reject an empty fold request before any proving work.
pub fn check_items_nonempty(n_items: usize) -> (res: Result<(), HostError>)
    ensures
        n_items == 0 ==> (res matches Err(HostError::Folding(msg))
            && msg@ == "fold requires at least one item"@),
        n_items > 0 ==> res is Ok,
{
    if n_items == 0 {
        return Err(HostError::Folding(String::from_str("fold requires at least one item")));
    }
    Ok(())
}

/// Fold the sub-proof outputs of a request and build the response.
pub fn fold_response(outs: Vec<ProveOutput>) -> (res: Result<FoldResponse, HostError>)
    ensures
        outs@.len() == 0 ==> (res matches Err(HostError::Folding(msg))
            && msg@ == "cannot finish an empty fold"@),
        outs@.len() > u32::MAX ==> (res matches Err(HostError::Folding(msg))
            && msg@ == "accumulator length overflow"@),
        0 < outs@.len() <= u32::MAX ==> (res matches Ok(r) && folds(r.folded, outs@)
            && r.sub_proofs@.len() == outs@.len()
            && (forall|i: int| 0 <= i < outs@.len() ==> summary_of(#[trigger] r.sub_proofs@[i], outs@[i]))
            && r.real == any_real(outs@)),
{
    let folded = FoldingAdapter::fold_all(outs.as_slice())?;
    let mut any = false;
    let mut sub_proofs: Vec<SubProofSummary> = Vec::new();
    let mut i: usize = 0;
    while i < outs.len()
        invariant
            i <= outs@.len(),
            sub_proofs@.len() == i,
            forall|k: int| 0 <= k < i ==> summary_of(#[trigger] sub_proofs@[k], outs@[k]),
            any == exists|k: int| 0 <= k < i && #[trigger] outs@[k].real,
        decreases outs@.len() - i,
    {
        let o = &outs[i];
        if o.real {
            any = true;
        }
        sub_proofs.push(SubProofSummary {
            circuit: o.circuit,
            public_hash_hex: hex_encode(&o.public_hash),
            cycles: o.cycles,
        });
        i += 1;
    }
    Ok(FoldResponse { folded, sub_proofs, real: any })
}

/// HTTP status for an error: 400 for a bad request, 413 for an oversized
/// input, 500 otherwise.
pub open spec fn spec_http_status(e: HostError) -> u16 {
    match e {
        HostError::UnknownCircuit(_) | HostError::InvalidInput { .. } => 400,
        HostError::OutOfBounds { .. } => 413,
        _ => 500,
    }
}

/// HTTP status for an error: 400 for a bad request, 413 for an oversized
/// input, 500 otherwise.
pub fn http_status(e: &HostError) -> (s: u16)
    ensures
        s == spec_http_status(*e),
{
    match e {
        HostError::UnknownCircuit(_) | HostError::InvalidInput { .. } => 400,
        HostError::OutOfBounds { .. } => 413,
        _ => 500,
    }
}

} // verus!
