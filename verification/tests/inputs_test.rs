use sha2::{Digest, Sha256};
use veria::host::inputs::{commit_i32_be, commit_u64_be, ScoringInput, SCORING_MAX};

#[test]
fn scoring_pad_works() {
    let s = ScoringInput::new(&[1, 2, 3], &[10, 20, 30]).unwrap();
    assert_eq!(s.count, 3);
    assert_eq!(s.scores[0], 1);
    assert_eq!(s.scores[3], 0);
    assert_eq!(s.weights[2], 30);
}

#[test]
fn scoring_rejects_overflow() {
    let big = vec![0u64; SCORING_MAX + 1];
    assert!(ScoringInput::new(&big, &big).is_none());
}

#[test]
fn scoring_rejects_length_mismatch() {
    assert!(ScoringInput::new(&[1, 2], &[10, 20, 30]).is_none());
}

#[test]
fn commit_deterministic() {
    let a = commit_u64_be(&[1, 2, 3]);
    let b = commit_u64_be(&[1, 2, 3]);
    assert_eq!(a, b);
    let c = commit_u64_be(&[1, 2, 4]);
    assert_ne!(a, c);
}

#[test]
fn scoring_accepts_the_full_length() {
    let v = vec![1u64; SCORING_MAX];
    let s = ScoringInput::new(&v, &v).unwrap();
    assert_eq!(s.count as usize, SCORING_MAX);
    assert_eq!(s.weights[SCORING_MAX - 1], 1);
}

#[test]
fn commitments_hash_big_endian_bytes() {
    let mut bytes = Vec::new();
    for v in [1u64, 0x0102_0304_0506_0708] {
        bytes.extend_from_slice(&v.to_be_bytes());
    }
    let want: [u8; 32] = Sha256::digest(&bytes).into();
    assert_eq!(commit_u64_be(&[1, 0x0102_0304_0506_0708]), want);

    let mut ibytes = Vec::new();
    for v in [-1i32, 7] {
        ibytes.extend_from_slice(&v.to_be_bytes());
    }
    let iwant: [u8; 32] = Sha256::digest(&ibytes).into();
    assert_eq!(commit_i32_be(&[-1, 7]), iwant);
}
