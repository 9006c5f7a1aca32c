use veria::guest::sort;
use veria::host::circuits::ref_sort;
use veria::host::error::HostError;
use veria::host::inputs::{commit_u64_be, SortInput, SORT_MAX};

fn build(raw_seq: &[u64]) -> SortInput {
    let n = raw_seq.len();
    let mut input = [0u64; SORT_MAX];
    input[..n].copy_from_slice(raw_seq);
    let mut sorted = input;
    sorted[..n].sort();
    let mut perm = [0u16; SORT_MAX];
    let mut taken = [false; SORT_MAX];
    for i in 0..n {
        for j in 0..n {
            if !taken[j] && input[j] == sorted[i] {
                perm[i] = j as u16;
                taken[j] = true;
                break;
            }
        }
    }
    SortInput { input, sorted, perm, count: n as u32 }
}

#[test]
fn random_input() {
    let inp = build(&[3, 1, 4, 1, 5, 9, 2, 6, 5, 3, 5]);
    let out = ref_sort(&inp).unwrap();
    assert_eq!(out.count, 11);
    assert_ne!(out.sorted_commit, [0u8; 32]);
    assert_ne!(out.input_commit, out.sorted_commit);
}

#[test]
fn with_duplicates() {
    let inp = build(&[7, 7, 7, 1, 1, 9, 9, 9]);
    let out = ref_sort(&inp).unwrap();
    assert_eq!(out.count, 8);
}

#[test]
fn presorted_input() {
    let inp = build(&[1, 2, 3, 4, 5, 6, 7, 8, 9, 10]);
    let out = ref_sort(&inp).unwrap();
    assert_eq!(out.input_commit, out.sorted_commit);
}

#[test]
fn sort_test_reverse_input() {
    let inp = build(&[10, 9, 8, 7, 6, 5, 4, 3, 2, 1]);
    let out = ref_sort(&inp).unwrap();
    assert_ne!(out.input_commit, out.sorted_commit);
}

#[test]
fn sort_test_bad_sorted_rejected() {
    let mut inp = build(&[5, 1, 3]);
    inp.sorted[0] = 999;
    assert!(ref_sort(&inp).is_err());
}

#[test]
fn tampered_multiset_rejected() {
    let mut inp = build(&[5, 1, 3]);
    inp.sorted[0] = 2;
    inp.sorted[1] = 4;
    inp.sorted[2] = 6;
    assert!(ref_sort(&inp).is_err());
}

fn folding_message(inp: &SortInput) -> String {
    match ref_sort(inp) {
        Err(HostError::Folding(m)) => m,
        _ => panic!("expected a witness rejection"),
    }
}

#[test]
fn rejection_messages_are_exact() {
    let mut a = build(&[5, 1, 3]);
    a.sorted[0] = 999;
    assert_eq!(folding_message(&a), "sorted witness not monotonic");
    let mut b = build(&[5, 1, 3]);
    b.sorted[0] = 2;
    b.sorted[1] = 4;
    b.sorted[2] = 6;
    assert_eq!(folding_message(&b), "multiset mismatch (running product check failed)");
}

#[test]
fn commitments_cover_the_prefix() {
    let inp = build(&[30, 10, 20]);
    let out = ref_sort(&inp).unwrap();
    assert_eq!(out.input_commit, commit_u64_be(&[30, 10, 20]));
    assert_eq!(out.sorted_commit, commit_u64_be(&[10, 20, 30]));
}

#[test]
fn sort_count_past_the_bound_is_rejected() {
    let mut inp = build(&[1]);
    inp.count = SORT_MAX as u32 + 5;
    match ref_sort(&inp) {
        Err(HostError::OutOfBounds { got, max }) => {
            assert_eq!(got, SORT_MAX + 5);
            assert_eq!(max, SORT_MAX);
        }
        _ => panic!("expected OutOfBounds"),
    }
}

#[test]
fn sort_guest_agrees_with_host() {
    let inp = build(&[8, 3, 3, 11, 0]);
    let h = ref_sort(&inp).unwrap();
    let g = sort::compute(&inp);
    assert_eq!(g, h);
    assert_eq!(sort::derive_challenge(&h.input_commit, &h.sorted_commit),
        veria::host::circuits::derive_challenge(&h.input_commit, &h.sorted_commit));
}

#[test]
fn running_products_agree_on_a_permutation() {
    let a = [4u64, 9, 1, u64::MAX];
    let b = [u64::MAX, 1, 4, 9];
    for r in [0u64, 1, 12345, u64::MAX] {
        let (pa, pb) = sort::running_products(r, &a, &b, 4);
        assert_eq!(pa, pb);
    }
    let (x, y) = sort::running_products(7, &[1, 2], &[1, 3], 2);
    assert_eq!(x, 8 * 9);
    assert_eq!(y, 8 * 10);
}

#[test]
fn zero_count_commits_to_the_empty_prefix() {
    let inp = build(&[]);
    let g = sort::compute(&inp);
    let h = ref_sort(&inp).unwrap();
    assert_eq!(g, h);
    assert_eq!(g.count, 0);
    assert_eq!(
        hex::encode(g.input_commit),
        "e3b0c44298fc1c149afbf4c8996fb92427ae41e4649b934ca495991b7852b855"
    );
    assert_eq!(g.sorted_commit, g.input_commit);
}
