use sha2::{Digest, Sha256};
use veria::host::circuits::CircuitId;
use veria::host::error::HostError;
use veria::host::folding::FoldingAdapter;
use veria::host::prover::ProveOutput;

fn dummy(circuit: CircuitId, b: u8) -> ProveOutput {
    let bytes = vec![b; 8];
    let hash: [u8; 32] = Sha256::digest(&bytes).into();
    ProveOutput { circuit, public_bytes: bytes, public_hash: hash, cycles: 0, real: false }
}

#[test]
fn empty_fold_rejected() {
    let f = FoldingAdapter::new().finish();
    assert!(f.is_err());
}

#[test]
fn single_fold_homogeneous() {
    let mut a = FoldingAdapter::new();
    a.absorb(&dummy(CircuitId::Scoring, 1)).unwrap();
    let p = a.finish().unwrap();
    assert!(p.homogeneous);
    assert_eq!(p.n, 1);
    p.check().expect("accumulator self-consistent");
}

#[test]
fn many_folds_homogeneous() {
    let xs: Vec<ProveOutput> = (0..16).map(|i| dummy(CircuitId::Aggregation, i)).collect();
    let p = FoldingAdapter::fold_all(&xs).unwrap();
    assert!(p.homogeneous);
    assert_eq!(p.n, 16);
    p.check().unwrap();
}

#[test]
fn mixed_circuits_yield_supernova_path() {
    let xs = vec![dummy(CircuitId::Scoring, 1), dummy(CircuitId::Median, 2), dummy(CircuitId::Sort, 3)];
    let p = FoldingAdapter::fold_all(&xs).unwrap();
    assert!(!p.homogeneous);
    assert_eq!(p.n, 3);
    p.check().unwrap();
}

#[test]
fn order_changes_accumulator() {
    let a = FoldingAdapter::fold_all(&[dummy(CircuitId::Scoring, 1), dummy(CircuitId::Scoring, 2)]).unwrap();
    let b = FoldingAdapter::fold_all(&[dummy(CircuitId::Scoring, 2), dummy(CircuitId::Scoring, 1)]).unwrap();
    assert_ne!(a.accumulator, b.accumulator);
}

#[test]
fn accumulator_follows_the_documented_chain() {
    let items = [dummy(CircuitId::Sort, 5), dummy(CircuitId::Median, 6)];
    let p = FoldingAdapter::fold_all(&items).unwrap();
    let mut acc: Vec<u8> = b"veria-fold-v1".to_vec();
    for it in items.iter() {
        let mut h = Sha256::new();
        h.update(&acc);
        h.update([it.circuit.id()]);
        h.update(it.public_hash);
        let d: [u8; 32] = h.finalize().into();
        acc = d.to_vec();
    }
    let acc: [u8; 32] = acc.try_into().unwrap();
    assert_eq!(p.accumulator, acc);
    assert_eq!(p.recompute_accumulator(), acc);
    assert_eq!(p.circuit_seq, vec![CircuitId::Sort, CircuitId::Median]);
    assert_eq!(p.pub_hashes, vec![items[0].public_hash, items[1].public_hash]);
}

#[test]
fn drifted_accumulator_is_reported() {
    let mut p = FoldingAdapter::fold_all(&[dummy(CircuitId::Scoring, 1)]).unwrap();
    let good = p.accumulator;
    p.accumulator = [0u8; 32];
    match p.check() {
        Err(HostError::Folding(msg)) => {
            assert_eq!(
                msg,
                format!("accumulator drift: stored={} recomputed={}", hex::encode([0u8; 32]), hex::encode(good))
            );
        }
        _ => panic!("drift not detected"),
    }
}

#[test]
fn default_adapter_is_empty() {
    let a = FoldingAdapter::default();
    assert!(a.finish().is_err());
}

#[test]
fn empty_batch_is_rejected() {
    match veria::host::folding::check_batch_nonempty(0) {
        Err(HostError::Folding(m)) => assert_eq!(m, "input array must contain at least one element"),
        _ => panic!("expected rejection"),
    }
    assert!(veria::host::folding::check_batch_nonempty(2).is_ok());
}

#[test]
fn first_accumulator_hashes_domain_circuit_and_hash() {
    let item = dummy(CircuitId::Median, 4);
    let p = FoldingAdapter::fold_all(&[item.clone()]).unwrap();
    let mut h = Sha256::new();
    h.update(b"veria-fold-v1");
    h.update([3u8]);
    h.update(item.public_hash);
    let want: [u8; 32] = h.finalize().into();
    assert_eq!(p.accumulator, want);
}

#[test]
fn empty_chain_has_the_initial_accumulator() {
    let init: [u8; 32] = {
        let mut h = Sha256::new();
        h.update(b"veria-fold-v1");
        h.update(b"init");
        h.finalize().into()
    };
    let p = veria::host::folding::FoldedProof {
        n: 0,
        accumulator: init,
        circuit_seq: Vec::new(),
        pub_hashes: Vec::new(),
        homogeneous: true,
    };
    assert_eq!(p.recompute_accumulator(), init);
    assert!(p.check().is_ok());
    let zero = veria::host::folding::FoldedProof { accumulator: [0u8; 32], ..p };
    assert!(zero.check().is_err());
}
