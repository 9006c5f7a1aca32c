use veria::guest::aggregation;
use veria::host::circuits::ref_aggregation;
use veria::host::error::HostError;
use veria::host::inputs::{AggregationInput, AGG_MAX};
use veria::host::prover::{ProveOptions, SpProver};

fn opts() -> ProveOptions {
    ProveOptions { real_proof: false, cross_check: true }
}

#[test]
fn random_pile_matches_naive() {
    let data: Vec<u64> = vec![17, 42, 99, 3, 256, 1, 7, 1024, 33, 500];
    let out = ref_aggregation(&AggregationInput { data: data.clone() }).unwrap();
    let sum: u128 = data.iter().map(|&v| v as u128).sum();
    let avg: u64 = (sum / data.len() as u128) as u64;
    let lo = *data.iter().min().unwrap();
    let hi = *data.iter().max().unwrap();
    assert_eq!(out.sum_u128, sum);
    assert_eq!(out.avg_u64, avg);
    assert_eq!(out.min_u64, lo);
    assert_eq!(out.max_u64, hi);
    assert_eq!(out.count, data.len() as u32);
}

#[test]
fn monotone_sequence() {
    let data: Vec<u64> = (1u64..=100).collect();
    let out = ref_aggregation(&AggregationInput { data: data.clone() }).unwrap();
    assert_eq!(out.sum_u128, (1 + 100) * 100 / 2);
    assert_eq!(out.avg_u64, 50);
    assert_eq!(out.min_u64, 1);
    assert_eq!(out.max_u64, 100);
}

#[test]
fn single_element() {
    let data = vec![7u64];
    let out = ref_aggregation(&AggregationInput { data }).unwrap();
    assert_eq!(out.sum_u128, 7);
    assert_eq!(out.avg_u64, 7);
    assert_eq!(out.min_u64, 7);
    assert_eq!(out.max_u64, 7);
}

#[test]
fn empty_input() {
    let data: Vec<u64> = vec![];
    let out = ref_aggregation(&AggregationInput { data }).unwrap();
    assert_eq!(out.sum_u128, 0);
    assert_eq!(out.avg_u64, 0);
    assert_eq!(out.min_u64, 0);
    assert_eq!(out.max_u64, 0);
    assert_eq!(out.count, 0);
}

#[test]
fn out_of_bounds_rejected() {
    let data = vec![1u64; AGG_MAX + 1];
    let res = ref_aggregation(&AggregationInput { data });
    assert!(res.is_err());
}

#[test]
fn prover_simulator_path() {
    let inp = AggregationInput { data: vec![100, 200, 300] };
    let out = ref_aggregation(&inp).unwrap();
    let json = format!(
        "{{\"sum_u128\":{},\"avg_u64\":{},\"min_u64\":{},\"max_u64\":{},\"count\":{}}}",
        out.sum_u128, out.avg_u64, out.min_u64, out.max_u64, out.count
    );
    let prover = SpProver::new();
    let p = prover.prove_bytes(veria::host::circuits::CircuitId::Aggregation, json.as_bytes(), &opts()).unwrap();
    assert!(!p.real);
    assert_eq!(p.cycles, 0);
}

#[test]
fn out_of_bounds_reports_both_sides() {
    match ref_aggregation(&AggregationInput { data: vec![0u64; AGG_MAX + 3] }) {
        Err(HostError::OutOfBounds { got, max }) => {
            assert_eq!(got, AGG_MAX + 3);
            assert_eq!(max, AGG_MAX);
        }
        _ => panic!("expected OutOfBounds"),
    }
}

#[test]
fn full_length_of_max_words_does_not_overflow() {
    let data = vec![u64::MAX; AGG_MAX];
    let out = ref_aggregation(&AggregationInput { data }).unwrap();
    assert_eq!(out.sum_u128, u64::MAX as u128 * AGG_MAX as u128);
    assert_eq!(out.avg_u64, u64::MAX);
    assert_eq!(out.count as usize, AGG_MAX);
}

#[test]
fn aggregation_guest_agrees_with_host() {
    let data: Vec<u64> = vec![9, 2, 7, 4];
    assert_eq!(aggregation::compute(&data), ref_aggregation(&AggregationInput { data: data.clone() }).unwrap());
    let long: Vec<u64> = (0..(AGG_MAX as u64 + 10)).collect();
    let g = aggregation::compute(&long);
    let h = ref_aggregation(&AggregationInput { data: long[..AGG_MAX].to_vec() }).unwrap();
    assert_eq!(g, h);
    assert_eq!(aggregation::clamped_count(5000), AGG_MAX);
    assert_eq!(aggregation::clamped_count(12), 12);
}

#[test]
fn mean_lies_between_min_and_max() {
    let data: Vec<u64> = vec![5, 1000, 3, 3, 999];
    let out = ref_aggregation(&AggregationInput { data }).unwrap();
    assert!(out.min_u64 <= out.avg_u64 && out.avg_u64 <= out.max_u64);
    assert_eq!(out.avg_u64, 2010 / 5);
}
