//! Entry points of the verifier program, one per instruction.
use vstd::prelude::*;
use crate::onchain::errors::VerifierError;
use crate::onchain::instructions::{
    handler_initialize, handler_update_vk, handler_verify_proof, initialize_post,
    update_vk_post, verify_proof_post, Initialize, UpdateVk, VerifyProof,
};
use crate::onchain::state::{ProofVerified, VerifierInitialized, VkRotated};

verus! {

/// Bootstraps the verifier; see `handler_initialize`.
pub fn initialize(ctx: &mut Initialize, vk_hash: [u8; 32], cluster_label: Vec<u8>) -> (r: Result<
    VerifierInitialized,
    VerifierError,
>)
    ensures
        initialize_post(*old(ctx), *final(ctx), vk_hash, cluster_label@, r),
{
    handler_initialize(ctx, vk_hash, cluster_label)
}

/// Verifies a proof and writes its record; see `handler_verify_proof`.
pub fn verify_proof(
    ctx: &mut VerifyProof,
    proof_hash: [u8; 32],
    proof_bytes: Vec<u8>,
    public_inputs: Vec<u8>,
    circuit_id: u8,
    expected_vk_hash: [u8; 32],
) -> (r: Result<ProofVerified, VerifierError>)
    ensures
        verify_proof_post(
            *old(ctx),
            *final(ctx),
            proof_hash,
            proof_bytes@,
            public_inputs@,
            circuit_id,
            expected_vk_hash,
            r,
        ),
{
    handler_verify_proof(ctx, proof_hash, proof_bytes, public_inputs, circuit_id, expected_vk_hash)
}

/// Admin only: rotates the verification key hash; see `handler_update_vk`.
pub fn update_vk(ctx: &mut UpdateVk, new_vk_hash: [u8; 32]) -> (r: Result<VkRotated, VerifierError>)
    ensures
        update_vk_post(*old(ctx), *final(ctx), new_vk_hash, r),
{
    handler_update_vk(ctx, new_vk_hash)
}

} // verus!
