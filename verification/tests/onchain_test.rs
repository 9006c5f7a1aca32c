use sha2::{Digest, Sha256};
use veria::onchain::errors::VerifierError;
use veria::onchain::hash::{cluster_prefix_for, compute_proof_hash, compute_public_inputs_hash, compute_vk_hash};
use veria::onchain::instructions::{
    handler_initialize, handler_update_vk, handler_verify_proof, verify_sp1_groth16, Initialize, UpdateVk,
    VerifyProof,
};
use veria::onchain::state::{ProofRecord, VerifierConfig, MAX_PROOF_BYTES, MAX_PUBLIC_INPUTS};
use veria::onchain::veria_verifier;

fn sha(data: &[u8]) -> [u8; 32] {
    Sha256::digest(data).into()
}

fn blank_config() -> VerifierConfig {
    VerifierConfig {
        admin: [0u8; 32],
        vk_hash: [0u8; 32],
        cluster_prefix: [0u8; 8],
        total_verified: 0,
        vk_epoch: 0,
        bump: 0,
        _padding: [0u8; 3],
    }
}

fn blank_record() -> ProofRecord {
    ProofRecord {
        circuit_id: 0,
        public_inputs_hash: [0u8; 32],
        verified_at: 0,
        submitter: [0u8; 32],
        vk_epoch_at_verify: 0,
        bump: 0,
        _padding: [0u8; 2],
    }
}

fn initialized(label: &[u8], vk: [u8; 32]) -> VerifierConfig {
    let mut ctx = Initialize { admin: [7u8; 32], config: blank_config(), config_bump: 254 };
    handler_initialize(&mut ctx, vk, label.to_vec()).unwrap();
    ctx.config
}

fn verify_ctx(config: VerifierConfig) -> VerifyProof {
    VerifyProof {
        submitter: [9u8; 32],
        config,
        proof_record: blank_record(),
        proof_record_key: [5u8; 32],
        proof_record_bump: 200,
        unix_timestamp: 1_700_000_000,
    }
}

fn payload(config: &VerifierConfig) -> (Vec<u8>, Vec<u8>, [u8; 32]) {
    let proof = vec![0xAA, 0xBB, 0xCC, 0xDD, 0xEE];
    let mut inputs = config.cluster_prefix.to_vec();
    inputs.extend_from_slice(b"public values");
    let h = compute_proof_hash(&proof, &inputs);
    (proof, inputs, h)
}

#[test]
fn stub_rejects_sentinel_bad_proof() {
    let proof = vec![0xFF, 0xFF, 0xFF, 0xFF, 0x01];
    let public_inputs = vec![0u8; 16];
    let vk_hash = [0u8; 32];
    let err = verify_sp1_groth16(&proof, &public_inputs, &vk_hash).unwrap_err();
    let msg = format!("{err:?}");
    assert!(msg.contains("InvalidProof"), "got {msg}");
}

#[test]
fn stub_accepts_well_formed_proof() {
    let proof = vec![0xAA, 0xBB, 0xCC, 0xDD, 0xEE];
    let public_inputs = vec![0u8; 16];
    let vk_hash = [0u8; 32];
    verify_sp1_groth16(&proof, &public_inputs, &vk_hash).unwrap();
}

#[test]
fn recomputed_proof_hash_matches_helper() {
    let proof = vec![1, 2, 3, 4];
    let public_inputs = vec![9, 9, 9];
    let a = compute_proof_hash(&proof, &public_inputs);
    let b = compute_proof_hash(&proof, &public_inputs);
    assert_eq!(a, b);
}

#[test]
fn proof_hash_is_deterministic() {
    let a = compute_proof_hash(b"proof-bytes", b"public-inputs");
    let b = compute_proof_hash(b"proof-bytes", b"public-inputs");
    assert_eq!(a, b);
}

#[test]
fn proof_hash_distinguishes_payload() {
    let a = compute_proof_hash(b"proof-bytes", b"public-inputs-a");
    let b = compute_proof_hash(b"proof-bytes", b"public-inputs-b");
    assert_ne!(a, b);
}

#[test]
fn proof_hash_distinguishes_proof_vs_inputs_split() {
    let a = compute_proof_hash(b"abc", b"");
    let b = compute_proof_hash(b"ab", b"c");
    assert_ne!(a, b);
}

#[test]
fn cluster_prefix_is_stable_across_calls() {
    let a = cluster_prefix_for(b"solana-mainnet-beta");
    let b = cluster_prefix_for(b"solana-mainnet-beta");
    assert_eq!(a, b);
}

#[test]
fn cluster_prefix_distinguishes_labels() {
    let a = cluster_prefix_for(b"solana-mainnet-beta");
    let b = cluster_prefix_for(b"solana-devnet");
    assert_ne!(a, b);
}

#[test]
fn vk_hash_is_full_32_bytes() {
    let h = compute_vk_hash(b"placeholder-verification-key");
    assert_eq!(h.len(), 32);
}

#[test]
fn hashes_follow_their_preimages() {
    let mut pre = 3u32.to_le_bytes().to_vec();
    pre.extend_from_slice(b"abc");
    pre.extend_from_slice(b"xyz");
    assert_eq!(compute_proof_hash(b"abc", b"xyz"), sha(&pre));
    assert_eq!(compute_public_inputs_hash(b"xyz"), sha(b"xyz"));
    assert_eq!(compute_vk_hash(b"vk"), sha(b"vk"));
    assert_eq!(cluster_prefix_for(b"solana-devnet")[..], sha(b"solana-devnet")[..8]);
}

#[test]
fn initialize_fills_the_config() {
    let vk = [3u8; 32];
    let mut ctx = Initialize { admin: [7u8; 32], config: blank_config(), config_bump: 254 };
    let ev = handler_initialize(&mut ctx, vk, b"solana-devnet".to_vec()).unwrap();
    assert_eq!(ctx.config.admin, [7u8; 32]);
    assert_eq!(ctx.config.vk_hash, vk);
    assert_eq!(ctx.config.cluster_prefix, cluster_prefix_for(b"solana-devnet"));
    assert_eq!(ctx.config.total_verified, 0);
    assert_eq!(ctx.config.vk_epoch, 1);
    assert_eq!(ctx.config.bump, 254);
    assert_eq!(ev.admin, [7u8; 32]);
    assert_eq!(ev.vk_hash, vk);
    assert_eq!(ev.cluster_prefix, ctx.config.cluster_prefix);
}

#[test]
fn initialize_rejects_bad_labels() {
    let mut ctx = Initialize { admin: [7u8; 32], config: blank_config(), config_bump: 1 };
    assert_eq!(handler_initialize(&mut ctx, [1u8; 32], Vec::new()).unwrap_err(), VerifierError::EmptyPayload);
    assert_eq!(
        veria_verifier::initialize(&mut ctx, [1u8; 32], vec![b'x'; 65]).unwrap_err(),
        VerifierError::InvalidPublicInputs
    );
    assert_eq!(ctx.config.vk_epoch, 0);
    assert!(handler_initialize(&mut ctx, [1u8; 32], vec![b'x'; 64]).is_ok());
}

#[test]
fn verify_proof_writes_the_record() {
    let config = initialized(b"solana-mainnet-beta", [4u8; 32]);
    let mut ctx = verify_ctx(config);
    let (proof, inputs, h) = payload(&config);
    let ev = handler_verify_proof(&mut ctx, h, proof, inputs.clone(), 3, [4u8; 32]).unwrap();
    assert_eq!(ctx.proof_record.circuit_id, 3);
    assert_eq!(ctx.proof_record.public_inputs_hash, sha(&inputs));
    assert_eq!(ctx.proof_record.verified_at, 1_700_000_000);
    assert_eq!(ctx.proof_record.submitter, [9u8; 32]);
    assert_eq!(ctx.proof_record.vk_epoch_at_verify, 1);
    assert_eq!(ctx.proof_record.bump, 200);
    assert_eq!(ctx.config.total_verified, 1);
    assert_eq!(ev.proof_record, [5u8; 32]);
    assert_eq!(ev.proof_hash, h);
    assert_eq!(ev.circuit_id, 3);
    assert_eq!(ev.vk_epoch, 1);
    assert!(ctx.proof_record.is_for_circuit(3));
    assert_eq!(ctx.proof_record.circuit_label(), "sort");
    assert!(!ctx.proof_record.is_stale_vs(ctx.config.vk_epoch));
}

#[test]
fn verify_proof_rejections_in_order() {
    let config = initialized(b"solana-mainnet-beta", [4u8; 32]);
    let (proof, inputs, h) = payload(&config);
    let cases: Vec<(Vec<u8>, Vec<u8>, u8, [u8; 32], [u8; 32], VerifierError)> = vec![
        (Vec::new(), inputs.clone(), 0, h, [4u8; 32], VerifierError::EmptyPayload),
        (proof.clone(), Vec::new(), 0, h, [4u8; 32], VerifierError::EmptyPayload),
        (vec![1u8; MAX_PROOF_BYTES + 1], inputs.clone(), 0, h, [4u8; 32], VerifierError::ProofTooLarge),
        (proof.clone(), vec![0u8; MAX_PUBLIC_INPUTS + 1], 0, h, [4u8; 32], VerifierError::InvalidPublicInputs),
        (proof.clone(), inputs.clone(), 5, h, [4u8; 32], VerifierError::CircuitIdOutOfRange),
        (proof.clone(), vec![1u8; 7], 0, h, [4u8; 32], VerifierError::InvalidPublicInputs),
        (proof.clone(), vec![0u8; 16], 0, h, [4u8; 32], VerifierError::ClusterMismatch),
        (proof.clone(), inputs.clone(), 0, h, [8u8; 32], VerifierError::VkMismatch),
        (proof.clone(), inputs.clone(), 0, [0u8; 32], [4u8; 32], VerifierError::InvalidProof),
    ];
    for (p, i, c, ph, vk, want) in cases {
        let mut ctx = verify_ctx(config);
        let got = handler_verify_proof(&mut ctx, ph, p, i, c, vk).unwrap_err();
        assert_eq!(got, want);
        assert_eq!(ctx.config.total_verified, 0);
        assert_eq!(ctx.proof_record.vk_epoch_at_verify, 0);
    }
    let bad = vec![0xFF, 0xFF, 0xFF, 0xFF, 0x00];
    let bh = compute_proof_hash(&bad, &inputs);
    let mut ctx = verify_ctx(config);
    let got = veria_verifier::verify_proof(&mut ctx, bh, bad, inputs, 0, [4u8; 32]).unwrap_err();
    assert_eq!(got, VerifierError::InvalidProof);
}

#[test]
fn counter_saturates() {
    let mut config = initialized(b"solana-mainnet-beta", [4u8; 32]);
    config.total_verified = u64::MAX;
    let mut ctx = verify_ctx(config);
    let (proof, inputs, h) = payload(&config);
    handler_verify_proof(&mut ctx, h, proof, inputs, 0, [4u8; 32]).unwrap();
    assert_eq!(ctx.config.total_verified, u64::MAX);
}

#[test]
fn update_vk_rotates_and_outdates_records() {
    let config = initialized(b"solana-test-validator", [4u8; 32]);
    let mut vctx = verify_ctx(config);
    let (proof, inputs, h) = payload(&config);
    handler_verify_proof(&mut vctx, h, proof, inputs, 1, [4u8; 32]).unwrap();
    let record = vctx.proof_record;

    let mut ctx = UpdateVk { admin: [7u8; 32], config: vctx.config };
    let ev = handler_update_vk(&mut ctx, [6u8; 32]).unwrap();
    assert_eq!(ctx.config.vk_hash, [6u8; 32]);
    assert_eq!(ctx.config.vk_epoch, 2);
    assert_eq!(ev.old_vk_hash, [4u8; 32]);
    assert_eq!(ev.new_vk_hash, [6u8; 32]);
    assert_eq!(ev.new_epoch, 2);
    assert!(record.is_stale_vs(ctx.config.vk_epoch));
    assert!(ctx.config.has_vk(&[6u8; 32]));
    assert!(!ctx.config.has_vk(&[4u8; 32]));
}

#[test]
fn update_vk_rejections() {
    let config = initialized(b"solana-devnet", [4u8; 32]);
    let mut ctx = UpdateVk { admin: [8u8; 32], config };
    assert_eq!(handler_update_vk(&mut ctx, [6u8; 32]).unwrap_err(), VerifierError::UnauthorizedAdmin);
    assert_eq!(ctx.config.vk_hash, [4u8; 32]);
    let mut ctx = UpdateVk { admin: [7u8; 32], config };
    assert_eq!(veria_verifier::update_vk(&mut ctx, [4u8; 32]).unwrap_err(), VerifierError::VkMismatch);
    let mut last = config;
    last.vk_epoch = u32::MAX;
    let mut ctx = UpdateVk { admin: [7u8; 32], config: last };
    assert_eq!(handler_update_vk(&mut ctx, [6u8; 32]).unwrap_err(), VerifierError::VkMismatch);
    assert_eq!(ctx.config.vk_epoch, u32::MAX);
}

#[test]
fn state_helpers() {
    let config = initialized(b"solana-devnet", [4u8; 32]);
    assert!(config.is_admin(&[7u8; 32]));
    assert!(!config.is_admin(&[8u8; 32]));
    assert_eq!(*config.cluster_prefix_bytes(), cluster_prefix_for(b"solana-devnet"));
    assert_eq!(VerifierConfig::LEN, 88);
    assert_eq!(ProofRecord::LEN, 80);
    assert_eq!(&VerifierConfig::SEED, b"config");
    assert_eq!(&ProofRecord::SEED, b"proof");
    let mut r = blank_record();
    for (id, name) in [(0u8, "scoring"), (1, "aggregation"), (2, "median"), (3, "sort"), (4, "ml-inference"), (9, "unknown")] {
        r.circuit_id = id;
        assert_eq!(r.circuit_label(), name);
    }
    r.vk_epoch_at_verify = 3;
    assert!(!r.is_stale_vs(3));
    assert!(r.is_stale_vs(4));
}

#[test]
fn error_codes() {
    assert_eq!(VerifierError::InvalidProof.code(), "invalid_proof");
    assert_eq!(VerifierError::ProofTooLarge.code(), "proof_too_large");
    assert_eq!(VerifierError::ClusterMismatch.code(), "cluster_mismatch");
    assert!(!VerifierError::VkMismatch.is_retryable());
    assert!(VerifierError::VkMismatch.is_vk_related());
    assert!(!VerifierError::EmptyPayload.is_vk_related());
}
