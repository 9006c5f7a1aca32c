use sha2::{Digest, Sha256};
use veria::host::api::{check_items_nonempty, fold_response};
use veria::host::circuits::{ref_aggregation, ref_median, ref_ml, ref_scoring, ref_sort, CircuitId};
use veria::host::error::HostError;
use veria::host::folding::FoldingAdapter;
use veria::host::inputs::{
    AggregationInput, MedianInput, MlInput, ScoringInput, SortInput, MEDIAN_MAX, ML_FP_SHIFT, ML_H1,
    ML_H2, ML_IN, ML_OUT, SORT_MAX,
};
use veria::host::prover::{cross_check, ProveOptions, ProveOutput, SpProver};

fn opts() -> ProveOptions {
    ProveOptions { real_proof: false, cross_check: true }
}

fn hex_array(bytes: &[u8]) -> String {
    let parts: Vec<String> = bytes.iter().map(|b| b.to_string()).collect();
    format!("[{}]", parts.join(","))
}

fn scoring_input() -> ScoringInput {
    let scores = [10u64, 20, 30, 40];
    let weights = [1u64 << ML_FP_SHIFT, 1u64 << ML_FP_SHIFT, 1u64 << ML_FP_SHIFT, 1u64 << ML_FP_SHIFT];
    ScoringInput::new(&scores, &weights).expect("scoring fits")
}

fn agg_input() -> AggregationInput {
    AggregationInput { data: (1u64..=100).collect() }
}

fn median_input() -> MedianInput {
    let mut raw = [0u64; MEDIAN_MAX];
    for i in 0..7 {
        raw[i] = (7 - i) as u64;
    }
    let mut sorted = raw;
    let n = 7;
    sorted[..n].sort();
    let mut perm = [0u16; MEDIAN_MAX];
    let mut taken = [false; MEDIAN_MAX];
    for i in 0..n {
        for j in 0..n {
            if !taken[j] && raw[j] == sorted[i] {
                perm[i] = j as u16;
                taken[j] = true;
                break;
            }
        }
    }
    MedianInput { raw, sorted, perm, count: n as u32 }
}

fn sort_input() -> SortInput {
    let mut input = [0u64; SORT_MAX];
    let raw_seq = [9u64, 3, 7, 1, 5, 8, 2, 4, 6];
    for (i, v) in raw_seq.iter().enumerate() {
        input[i] = *v;
    }
    let n = raw_seq.len();
    let mut sorted = input;
    sorted[..n].sort();
    let mut perm = [0u16; SORT_MAX];
    let mut taken = [false; SORT_MAX];
    for i in 0..n {
        for j in 0..n {
            if !taken[j] && input[j] == sorted[i] {
                perm[i] = j as u16;
                taken[j] = true;
                break;
            }
        }
    }
    SortInput { input, sorted, perm, count: n as u32 }
}

fn ml_input() -> MlInput {
    let mut ml = MlInput::default();
    for i in 0..ML_IN {
        ml.features[i] = (1i32 << ML_FP_SHIFT) / 2;
    }
    for j in 0..ML_H1 {
        for i in 0..ML_IN {
            ml.w1[j][i] = 1 << (ML_FP_SHIFT - 4);
        }
        ml.b1[j] = 0;
    }
    for j in 0..ML_H2 {
        for i in 0..ML_H1 {
            ml.w2[j][i] = 1 << (ML_FP_SHIFT - 4);
        }
        ml.b2[j] = 0;
    }
    for j in 0..ML_OUT {
        for i in 0..ML_H2 {
            ml.w3[j][i] = 1 << (ML_FP_SHIFT - 4);
        }
        ml.b3[j] = 0;
    }
    ml
}

/// The public bytes of each circuit's reference output, in the JSON shape the
/// host commits.
fn run_all(p: &SpProver) -> Vec<ProveOutput> {
    let s = ref_scoring(&scoring_input()).unwrap();
    let a = ref_aggregation(&agg_input()).unwrap();
    let m = ref_median(&median_input()).unwrap();
    let so = ref_sort(&sort_input()).unwrap();
    let ml = ref_ml(&ml_input()).unwrap();
    let jsons = vec![
        (CircuitId::Scoring, format!("{{\"weighted_avg_fp\":{},\"total_weight\":{}}}", s.weighted_avg_fp, s.total_weight)),
        (
            CircuitId::Aggregation,
            format!(
                "{{\"sum_u128\":{},\"avg_u64\":{},\"min_u64\":{},\"max_u64\":{},\"count\":{}}}",
                a.sum_u128, a.avg_u64, a.min_u64, a.max_u64, a.count
            ),
        ),
        (
            CircuitId::Median,
            format!("{{\"median\":{},\"sorted_commit\":{},\"count\":{}}}", m.median, hex_array(&m.sorted_commit), m.count),
        ),
        (
            CircuitId::Sort,
            format!(
                "{{\"sorted_commit\":{},\"input_commit\":{},\"count\":{}}}",
                hex_array(&so.sorted_commit),
                hex_array(&so.input_commit),
                so.count
            ),
        ),
        (
            CircuitId::MlInference,
            format!(
                "{{\"logits\":[{}],\"model_commit\":{}}}",
                ml.logits.iter().map(|v| v.to_string()).collect::<Vec<_>>().join(","),
                hex_array(&ml.model_commit)
            ),
        ),
    ];
    jsons.into_iter().map(|(c, j)| p.prove_bytes(c, j.as_bytes(), &opts()).unwrap()).collect()
}

#[test]
fn all_five_circuits_execute_and_fold() {
    let p = SpProver::new();
    let outs = run_all(&p);
    let outs2 = run_all(&p);
    for (a, b) in outs.iter().zip(outs2.iter()) {
        assert_eq!(a.public_hash, b.public_hash, "non-deterministic circuit");
    }
    let seen: Vec<CircuitId> = outs.iter().map(|o| o.circuit).collect();
    assert_eq!(
        seen,
        vec![CircuitId::Scoring, CircuitId::Aggregation, CircuitId::Median, CircuitId::Sort, CircuitId::MlInference]
    );
    let folded = FoldingAdapter::fold_all(&outs).unwrap();
    assert_eq!(folded.n, 5);
    assert!(!folded.homogeneous);
    folded.check().expect("accumulator stable");
}

#[test]
fn prover_runs_aggregation_via_simulator() {
    let p = SpProver::new();
    let out = ref_aggregation(&AggregationInput { data: vec![1, 2, 3, 4, 5] }).unwrap();
    let json = format!(
        "{{\"sum_u128\":{},\"avg_u64\":{},\"min_u64\":{},\"max_u64\":{},\"count\":{}}}",
        out.sum_u128, out.avg_u64, out.min_u64, out.max_u64, out.count
    );
    let o = p.prove_bytes(CircuitId::Aggregation, json.as_bytes(), &ProveOptions::default()).expect("agg ok");
    assert!(!o.real, "simulator path used when no ELF embedded");
    assert_eq!(o.circuit, CircuitId::Aggregation);
    assert_eq!(o.cycles, 0);
    assert_eq!(o.public_hash.len(), 32);
}

#[test]
fn cross_check_matches_simulator() {
    let p = SpProver::new();
    let out = ref_aggregation(&AggregationInput { data: vec![7; 9] }).unwrap();
    let json = format!(
        "{{\"sum_u128\":{},\"avg_u64\":{},\"min_u64\":{},\"max_u64\":{},\"count\":{}}}",
        out.sum_u128, out.avg_u64, out.min_u64, out.max_u64, out.count
    );
    let o = p.prove_bytes(CircuitId::Aggregation, json.as_bytes(), &ProveOptions { real_proof: false, cross_check: true }).unwrap();
    assert!(o.public_bytes.len() > 0);
    assert_eq!(o.public_bytes, json.as_bytes());
}

#[test]
fn public_hash_is_sha256_of_public_bytes() {
    let p = SpProver::new();
    let o = p.prove_bytes(CircuitId::Sort, b"{\"x\":1}", &opts()).unwrap();
    let want: [u8; 32] = Sha256::digest(b"{\"x\":1}").into();
    assert_eq!(o.public_hash, want);
    assert_eq!(o.public_bytes, b"{\"x\":1}".to_vec());
}

#[test]
fn cross_check_reports_both_sides_in_hex() {
    assert!(cross_check(b"ab", b"ab").is_ok());
    match cross_check(&[0x01, 0xab], &[0xff]) {
        Err(HostError::CrossCheck { host_hex, guest_hex }) => {
            assert_eq!(host_hex, "01ab");
            assert_eq!(guest_hex, "ff");
        }
        _ => panic!("expected CrossCheck"),
    }
}

#[test]
fn fold_response_summarises_every_sub_proof() {
    let p = SpProver::new();
    let outs = run_all(&p);
    let resp = fold_response(outs.clone()).unwrap();
    assert_eq!(resp.folded.n, 5);
    assert!(!resp.real);
    assert_eq!(resp.sub_proofs.len(), 5);
    for (s, o) in resp.sub_proofs.iter().zip(outs.iter()) {
        assert_eq!(s.circuit, o.circuit);
        assert_eq!(s.public_hash_hex, hex::encode(o.public_hash));
        assert_eq!(s.cycles, 0);
    }
    assert_eq!(resp.folded, FoldingAdapter::fold_all(&outs).unwrap());
}

#[test]
fn empty_fold_request_is_rejected() {
    match check_items_nonempty(0) {
        Err(HostError::Folding(m)) => assert_eq!(m, "fold requires at least one item"),
        _ => panic!("expected rejection"),
    }
    assert!(check_items_nonempty(3).is_ok());
    match fold_response(Vec::new()) {
        Err(HostError::Folding(m)) => assert_eq!(m, "cannot finish an empty fold"),
        _ => panic!("expected rejection"),
    }
}
