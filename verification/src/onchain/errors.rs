//! Errors returned by the verifier program. Codes are stable across releases:
//! new variants are appended at the end.
use vstd::prelude::*;

verus! {

/// All custom errors the verifier can return.
#[derive(Debug, Clone, Copy, PartialEq, Eq, Structural)]
pub enum VerifierError {
    /// The proof failed verification under the registered key.
    InvalidProof,
    /// The public inputs blob has the wrong shape or length.
    InvalidPublicInputs,
    /// A record already exists for this proof hash.
    ProofAlreadyVerified,
    /// `circuit_id` is outside `0..=MAX_CIRCUIT_ID`.
    CircuitIdOutOfRange,
    /// The signer is not the registered admin.
    UnauthorizedAdmin,
    /// The supplied verification key hash does not match the registered one.
    VkMismatch,
    /// The public inputs were generated for another cluster.
    ClusterMismatch,
    /// `proof_bytes` or `public_inputs` is empty.
    EmptyPayload,
    /// `proof_bytes` exceeds `MAX_PROOF_BYTES`.
    ProofTooLarge,
}

/// The stable string code of each error.
pub open spec fn verifier_error_code(e: VerifierError) -> Seq<char> {
    match e {
        VerifierError::InvalidProof => "invalid_proof"@,
        VerifierError::InvalidPublicInputs => "invalid_public_inputs"@,
        VerifierError::ProofAlreadyVerified => "proof_already_verified"@,
        VerifierError::CircuitIdOutOfRange => "circuit_id_out_of_range"@,
        VerifierError::UnauthorizedAdmin => "unauthorized_admin"@,
        VerifierError::VkMismatch => "vk_mismatch"@,
        VerifierError::ClusterMismatch => "cluster_mismatch"@,
        VerifierError::EmptyPayload => "empty_payload"@,
        VerifierError::ProofTooLarge => "proof_too_large"@,
    }
}

impl VerifierError {
    /// A stable string code suitable for SDK error mapping.
    pub fn code(&self) -> (c: &'static str)
        ensures
            c@ == verifier_error_code(*self),
    {
        match self {
            VerifierError::InvalidProof => "invalid_proof",
            VerifierError::InvalidPublicInputs => "invalid_public_inputs",
            VerifierError::ProofAlreadyVerified => "proof_already_verified",
            VerifierError::CircuitIdOutOfRange => "circuit_id_out_of_range",
            VerifierError::UnauthorizedAdmin => "unauthorized_admin",
            VerifierError::VkMismatch => "vk_mismatch",
            VerifierError::ClusterMismatch => "cluster_mismatch",
            VerifierError::EmptyPayload => "empty_payload",
            VerifierError::ProofTooLarge => "proof_too_large",
        }
    }

    /// Every error is a hard reject: none can be retried with the same payload.
    pub fn is_retryable(&self) -> (r: bool)
        ensures
            !r,
    {
        false
    }

    /// Whether the error indicates a verification-key rotation race.
    pub fn is_vk_related(&self) -> (r: bool)
        ensures
            r == (*self == VerifierError::VkMismatch),
    {
        matches!(self, VerifierError::VkMismatch)
    }
}

} // verus!
