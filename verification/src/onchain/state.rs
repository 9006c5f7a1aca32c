//! Account state of the verifier program: the singleton `VerifierConfig`,
//! one `ProofRecord` per verified proof, and the events the instructions
//! emit. Keys are held as their 32 raw bytes.
use vstd::prelude::*;
use crate::encoding::bytes_equal;

verus! {

/// Highest legal `circuit_id` (scoring 0, aggregation 1, median 2, sort 3,
/// ml-inference 4).
pub const MAX_CIRCUIT_ID: u8 = 4;

/// Hard cap on the proof bytes the verifier accepts.
pub const MAX_PROOF_BYTES: usize = 1024;

/// Hard cap on the public inputs blob.
pub const MAX_PUBLIC_INPUTS: usize = 4096;

/// A public key, as its 32 bytes.
pub type Pubkey = [u8; 32];

/// Singleton configuration account, seeded by `"config"`.
#[derive(Debug, Clone, Copy)]
pub struct VerifierConfig {
    /// Authority that may rotate the verification key.
    pub admin: Pubkey,
    /// SHA-256 of the active verification key.
    pub vk_hash: [u8; 32],
    /// Prefix that every public inputs blob must start with.
    pub cluster_prefix: [u8; 8],
    /// Successful verifications since `initialize` (saturating).
    pub total_verified: u64,
    /// Bumped by every successful `update_vk`.
    pub vk_epoch: u32,
    /// Bump of the account's address.
    pub bump: u8,
    /// Alignment padding.
    pub _padding: [u8; 3],
}

/// Calls `anchor_lang::solana_program::program_memory::sol_memcmp` (off
/// chain: a byte loop that stops at the first difference and returns its
/// signed difference, else 0). The contract claims that the result is 0
/// exactly when the first `n` bytes agree; `n` may not pass either slice.
#[verifier::external_body]
fn sol_memcmp(s1: &[u8], s2: &[u8], n: usize) -> (r: i32)
    requires
        n <= s1@.len(),
        n <= s2@.len(),
    ensures
        (r == 0) == (forall|i: int| 0 <= i < n ==> s1@[i] == s2@[i]),
{
    anchor_lang::solana_program::program_memory::sol_memcmp(s1, s2, n)
}

impl VerifierConfig {
    /// Account size without the 8-byte discriminator:
    /// 32 + 32 + 8 + 8 + 4 + 1 + 3.
    pub const LEN: usize = 32 + 32 + 8 + 8 + 4 + 1 + 3;

    /// Address seed, `"config"`.
    pub const SEED: [u8; 6] = [0x63, 0x6f, 0x6e, 0x66, 0x69, 0x67];

    /// Whether `hash` is the registered verification key hash.
    pub fn has_vk(&self, hash: &[u8; 32]) -> (r: bool)
        ensures
            r == (self.vk_hash@ == hash@),
    {
        let c = sol_memcmp(self.vk_hash.as_slice(), hash.as_slice(), 32);
        proof {
            if c == 0 {
                assert(self.vk_hash@ =~= hash@);
            }
        }
        c == 0
    }

    /// Whether `signer` is the registered admin.
    pub fn is_admin(&self, signer: &Pubkey) -> (r: bool)
        ensures
            r == (self.admin@ == signer@),
    {
        bytes_equal(self.admin.as_slice(), signer.as_slice())
    }

    /// The prefix that public inputs must carry to be accepted here.
    pub fn cluster_prefix_bytes(&self) -> (p: &[u8; 8])
        ensures
            *p == self.cluster_prefix,
    {
        &self.cluster_prefix
    }
}

/// The label of a circuit id, `"unknown"` past the known range.
pub open spec fn circuit_label_of(id: u8) -> Seq<char> {
    if id == 0 {
        "scoring"@
    } else if id == 1 {
        "aggregation"@
    } else if id == 2 {
        "median"@
    } else if id == 3 {
        "sort"@
    } else if id == 4 {
        "ml-inference"@
    } else {
        "unknown"@
    }
}

/// Record of one verified proof, seeded by `"proof"` and the proof hash.
#[derive(Debug, Clone, Copy)]
pub struct ProofRecord {
    /// Which circuit the proof discharges.
    pub circuit_id: u8,
    /// SHA-256 of the public inputs blob.
    pub public_inputs_hash: [u8; 32],
    /// Clock time of the verification.
    pub verified_at: i64,
    /// Signer that submitted the proof.
    pub submitter: Pubkey,
    /// `vk_epoch` of the config at verification time.
    pub vk_epoch_at_verify: u32,
    /// Bump of the account's address.
    pub bump: u8,
    /// Alignment padding.
    pub _padding: [u8; 2],
}

impl ProofRecord {
    /// Account size without the 8-byte discriminator:
    /// 1 + 32 + 8 + 32 + 4 + 1 + 2.
    pub const LEN: usize = 1 + 32 + 8 + 32 + 4 + 1 + 2;

    /// Address seed prefix, `"proof"`.
    pub const SEED: [u8; 5] = [0x70, 0x72, 0x6f, 0x6f, 0x66];

    /// Whether the record is for circuit `id`.
    pub fn is_for_circuit(&self, id: u8) -> (r: bool)
        ensures
            r == (self.circuit_id == id),
    {
        self.circuit_id == id
    }

    /// Human-readable label of the record's circuit.
    pub fn circuit_label(&self) -> (s: &'static str)
        ensures
            s@ == circuit_label_of(self.circuit_id),
    {
        match self.circuit_id {
            0 => "scoring",
            1 => "aggregation",
            2 => "median",
            3 => "sort",
            4 => "ml-inference",
            _ => "unknown",
        }
    }

    /// Whether the record was verified under an epoch older than `current_epoch`.
    pub fn is_stale_vs(&self, current_epoch: u32) -> (r: bool)
        ensures
            r == (self.vk_epoch_at_verify < current_epoch),
    {
        self.vk_epoch_at_verify < current_epoch
    }
}

/// Emitted by `verify_proof` after a successful check.
#[derive(Debug, Clone, Copy)]
pub struct ProofVerified {
    pub submitter: Pubkey,
    pub proof_record: Pubkey,
    pub proof_hash: [u8; 32],
    pub public_inputs_hash: [u8; 32],
    pub circuit_id: u8,
    pub verified_at: i64,
    pub vk_epoch: u32,
}

/// Emitted by `initialize`.
#[derive(Debug, Clone, Copy)]
pub struct VerifierInitialized {
    pub admin: Pubkey,
    pub vk_hash: [u8; 32],
    pub cluster_prefix: [u8; 8],
}

/// Emitted by `update_vk`.
#[derive(Debug, Clone, Copy)]
pub struct VkRotated {
    pub admin: Pubkey,
    pub old_vk_hash: [u8; 32],
    pub new_vk_hash: [u8; 32],
    pub new_epoch: u32,
}

} // verus!
