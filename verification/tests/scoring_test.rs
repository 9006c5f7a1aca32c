use veria::guest::scoring;
use veria::host::circuits::{ref_scoring, scoring_sum_fits, CircuitId};
use veria::host::error::HostError;
use veria::host::inputs::{ScoringInput, SCORING_MAX};
use veria::host::prover::{ProveOptions, SpProver};

const FP_ONE: u64 = 1u64 << 32;

fn run(scores: &[u64], weights: &[u64], count: u32) -> ScoringInput {
    let mut s = [0u64; SCORING_MAX];
    let mut w = [0u64; SCORING_MAX];
    s[..scores.len()].copy_from_slice(scores);
    w[..weights.len()].copy_from_slice(weights);
    ScoringInput { scores: s, weights: w, count }
}

fn opts() -> ProveOptions {
    ProveOptions { real_proof: false, cross_check: true }
}

#[test]
fn empty_count_returns_zero() {
    let inp = run(&[], &[], 0);
    let out = ref_scoring(&inp).unwrap();
    assert_eq!(out.weighted_avg_fp, 0);
    assert_eq!(out.total_weight, 0);
}

#[test]
fn single_element_passes_through() {
    let inp = run(&[42], &[FP_ONE], 1);
    let out = ref_scoring(&inp).unwrap();
    assert_eq!(out.weighted_avg_fp, 42);
    assert_eq!(out.total_weight, FP_ONE);
}

#[test]
fn all_equal_weights_is_arithmetic_mean() {
    let scores = [10u64, 20, 30, 40, 50, 60, 70, 80, 90, 100];
    let weights = [FP_ONE; 10];
    let inp = run(&scores, &weights, scores.len() as u32);
    let out = ref_scoring(&inp).unwrap();
    assert_eq!(out.weighted_avg_fp, 55);
    assert_eq!(out.total_weight, FP_ONE * 10);
}

#[test]
fn weighted_mix_skews_toward_higher_weight() {
    let scores = [0u64, 100];
    let weights = [FP_ONE, FP_ONE * 3];
    let inp = run(&scores, &weights, 2);
    let out = ref_scoring(&inp).unwrap();
    assert_eq!(out.weighted_avg_fp, 75);
    assert_eq!(out.total_weight, FP_ONE * 4);
}

#[test]
fn overflow_edge_uses_u128_intermediates() {
    let large = (1u64 << 33).saturating_sub(1);
    let inp = run(&[large, large], &[FP_ONE, FP_ONE], 2);
    let out = ref_scoring(&inp).unwrap();
    assert_eq!(out.weighted_avg_fp, large);
    assert_eq!(out.total_weight, FP_ONE * 2);
}

#[test]
fn prover_simulator_matches_reference() {
    let inp = run(&[5, 10, 15], &[FP_ONE, FP_ONE, FP_ONE], 3);
    let out = ref_scoring(&inp).unwrap();
    let json = format!("{{\"weighted_avg_fp\":{},\"total_weight\":{}}}", out.weighted_avg_fp, out.total_weight);
    let prover = SpProver::new();
    let p = prover.prove_bytes(CircuitId::Scoring, json.as_bytes(), &opts()).unwrap();
    assert!(!p.real, "simulator path used");
    assert_eq!(p.cycles, 0);
    assert!(!p.public_bytes.is_empty());
}

#[test]
fn count_past_the_bound_is_rejected_by_host_and_clamped_by_guest() {
    let inp = run(&[1, 2], &[FP_ONE, FP_ONE], 65);
    match ref_scoring(&inp) {
        Err(HostError::OutOfBounds { got, max }) => {
            assert_eq!(got, 65);
            assert_eq!(max, SCORING_MAX);
        }
        _ => panic!("expected OutOfBounds"),
    }
    let g = scoring::compute(&inp);
    let mut full = inp;
    full.count = SCORING_MAX as u32;
    assert_eq!(g, ref_scoring(&full).unwrap());
    assert_eq!(scoring::clamped_count(1000), SCORING_MAX);
}

#[test]
fn zero_weights_give_zero_average() {
    let inp = run(&[10, 20], &[0, 0], 2);
    let out = ref_scoring(&inp).unwrap();
    assert_eq!(out.weighted_avg_fp, 0);
    assert_eq!(out.total_weight, 0);
}

#[test]
fn scoring_guest_agrees_with_host() {
    let inp = run(&[3, 9, 27, 81], &[FP_ONE, 2 * FP_ONE, 3, 4], 4);
    assert_eq!(scoring::compute(&inp), ref_scoring(&inp).unwrap());
}

#[test]
fn total_weight_reports_the_low_64_bits() {
    let inp = run(&[1, 1], &[u64::MAX, 2], 2);
    let out = ref_scoring(&inp).unwrap();
    assert_eq!(out.total_weight, 1);
    assert_eq!(out.weighted_avg_fp, 1);
}

#[test]
fn weighted_sum_fit_is_detected() {
    assert!(scoring_sum_fits(&run(&[u64::MAX; 64], &[1; 64], 64)));
    assert!(!scoring_sum_fits(&run(&[u64::MAX; 64], &[u64::MAX; 64], 64)));
    assert!(scoring_sum_fits(&run(&[u64::MAX; 2], &[u64::MAX; 2], 1)));
    assert!(scoring_sum_fits(&run(&[u64::MAX; 64], &[u64::MAX; 64], 65)));
}

#[test]
fn guest_average_is_exact_past_u128() {
    let inp = run(&[u64::MAX, u64::MAX], &[u64::MAX, u64::MAX], 2);
    let out = scoring::compute(&inp);
    assert_eq!(out.weighted_avg_fp, u64::MAX);
    assert_eq!(out.total_weight, u64::MAX - 1);
    let all = run(&[u64::MAX; 64], &[u64::MAX; 64], 64);
    assert_eq!(scoring::compute(&all).weighted_avg_fp, u64::MAX);
    let mixed = run(&[u64::MAX, 1], &[u64::MAX, u64::MAX], 2);
    assert_eq!(scoring::compute(&mixed).weighted_avg_fp, 1u64 << 63);
}
