//! `median` circuit: the median of a vector, checked against a host-provided
//! sorted permutation witness, plus a SHA-256 commitment to the sorted vector.
use vstd::prelude::*;
use crate::host::inputs::{MedianInput, MedianOutput, MEDIAN_MAX};
use crate::guest::mini_sha256::{guest_sha256, sha256_spec, sha256_u64_prefix};
use crate::encoding::be_u64s;
use crate::guest::permutation::{
    is_perm_witness, lemma_witness_same_multiset, count_below, count_above,
    lemma_counts_follow_multiset,
};

verus! {

/// The first way in which a sorted-permutation witness fails.
#[derive(Debug, Clone, Copy, PartialEq, Eq)]
pub enum WitnessFault {
    /// Some `sorted[i] < sorted[i - 1]`.
    NotMonotonic,
    /// `perm[at] == index` is out of range or repeats an earlier entry.
    InvalidPerm { at: usize, index: usize },
    /// `sorted[at] != raw[index]` where `index == perm[at]`.
    Mismatch { at: usize, index: usize },
}

/// `s[..n]` is non-decreasing.
pub open spec fn monotone(s: Seq<u64>, n: int) -> bool {
    forall|i: int| 1 <= i < n ==> s[i - 1] <= #[trigger] s[i]
}

/// The fault of permutation entry `i`, if any.
pub open spec fn perm_fault_at(raw: Seq<u64>, sorted: Seq<u64>, perm: Seq<u16>, n: int, i: int) -> Option<WitnessFault> {
    let p = perm[i] as int;
    if p >= n || exists|j: int| 0 <= j < i && perm[j] == perm[i] {
        Some(WitnessFault::InvalidPerm { at: i as usize, index: p as usize })
    } else if sorted[i] != raw[p] {
        Some(WitnessFault::Mismatch { at: i as usize, index: p as usize })
    } else {
        None
    }
}

/// The first fault among permutation entries `0..k`.
pub open spec fn first_perm_fault(raw: Seq<u64>, sorted: Seq<u64>, perm: Seq<u16>, n: int, k: int) -> Option<WitnessFault>
    decreases k,
{
    if k <= 0 {
        None
    } else {
        match first_perm_fault(raw, sorted, perm, n, k - 1) {
            Some(f) => Some(f),
            None => perm_fault_at(raw, sorted, perm, n, k - 1),
        }
    }
}

/// The first fault of a median witness over `n` entries: monotonicity is
/// checked first, then each permutation entry in order.
pub open spec fn median_witness_fault(input: MedianInput, n: int) -> Option<WitnessFault> {
    if !monotone(input.sorted@, n) {
        Some(WitnessFault::NotMonotonic)
    } else {
        first_perm_fault(input.raw@, input.sorted@, input.perm@, n, n)
    }
}

/// The lower median of a sorted vector of `n > 0` entries.
pub open spec fn lower_median(sorted: Seq<u64>, n: int) -> u64 {
    if n % 2 == 1 { sorted[n / 2] } else { sorted[n / 2 - 1] }
}

/// What a median check over `n` entries reports when it hashes with `h`:
/// zeros when `n` is zero, otherwise the lower median, the commitment to the
/// big-endian bytes of the sorted prefix, and the count as given.
pub open spec fn median_outcome(input: MedianInput, n: int, h: spec_fn(Seq<u8>) -> Seq<u8>) -> (u64, Seq<u8>, u32) {
    if n == 0 {
        (0, Seq::new(32, |i: int| 0u8), 0)
    } else {
        (lower_median(input.sorted@, n), h(be_u64s(input.sorted@.take(n))), input.count)
    }
}

/// `count` clamped to `MEDIAN_MAX`.
pub open spec fn spec_clamped_count(count: int) -> int {
    if count > MEDIAN_MAX { MEDIAN_MAX as int } else { count }
}

/// Once a fault is found, it stays the first fault for every longer prefix.
pub proof fn lemma_first_fault_stable(raw: Seq<u64>, sorted: Seq<u64>, perm: Seq<u16>, n: int, k: int, k2: int)
    requires
        0 <= k <= k2,
        first_perm_fault(raw, sorted, perm, n, k) is Some,
    ensures
        first_perm_fault(raw, sorted, perm, n, k2) == first_perm_fault(raw, sorted, perm, n, k),
    decreases k2 - k,
{
    if k2 > k {
        lemma_first_fault_stable(raw, sorted, perm, n, k, k2 - 1);
    }
}

/// Whether `s[..n]` is non-decreasing.
pub fn is_monotone(s: &[u64], n: usize) -> (ok: bool)
    requires
        n <= s@.len(),
    ensures
        ok == monotone(s@, n as int),
{
    let mut i: usize = 1;
    while i < n
        invariant
            1 <= i,
            n <= s@.len(),
            forall|k: int| 1 <= k < i && k < n ==> s@[k - 1] <= #[trigger] s@[k],
        decreases n - i,
    {
        if s[i] < s[i - 1] {
            return false;
        }
        i += 1;
    }
    true
}

/// Check the permutation part of a median witness over `n` entries.
pub fn check_permutation(input: &MedianInput, n: usize) -> (res: Result<(), WitnessFault>)
    requires
        n <= MEDIAN_MAX,
    ensures
        res matches Err(f) ==> first_perm_fault(input.raw@, input.sorted@, input.perm@, n as int, n as int) == Some(f),
        res is Ok ==> first_perm_fault(input.raw@, input.sorted@, input.perm@, n as int, n as int) is None,
{
    let mut seen = [false; MEDIAN_MAX];
    let mut i: usize = 0;
    while i < n
        invariant
            i <= n <= MEDIAN_MAX,
            first_perm_fault(input.raw@, input.sorted@, input.perm@, n as int, i as int) is None,
            forall|q: int| 0 <= q < MEDIAN_MAX ==> (#[trigger] seen[q] <==> exists|j: int| 0 <= j < i
                && input.perm[j] as int == q),
        decreases n - i,
    {
        let p = input.perm[i] as usize;
        if p >= n || seen[p] {
            proof {
                if p < n {
                    let j = choose|j: int| 0 <= j < i && input.perm[j] as int == p as int;
                    assert(input.perm@[j] == input.perm@[i as int]);
                }
            }
            proof {
                lemma_first_fault_stable(input.raw@, input.sorted@, input.perm@, n as int, i + 1, n as int);
            }
            return Err(WitnessFault::InvalidPerm { at: i, index: p });
        }
        proof {
            assert(!exists|j: int| 0 <= j < i && input.perm@[j] == input.perm@[i as int]) by {
                if exists|j: int| 0 <= j < i && input.perm@[j] == input.perm@[i as int] {
                    let j = choose|j: int| 0 <= j < i && input.perm@[j] == input.perm@[i as int];
                    assert(input.perm[j] as int == p as int);
                }
            }
        }
        seen[p] = true;
        if input.sorted[i] != input.raw[p] {
            proof {
                lemma_first_fault_stable(input.raw@, input.sorted@, input.perm@, n as int, i + 1, n as int);
            }
            return Err(WitnessFault::Mismatch { at: i, index: p });
        }
        i += 1;
        proof {
            assert forall|q: int| 0 <= q < MEDIAN_MAX implies (#[trigger] seen[q] <==> exists|j: int|
                0 <= j < i && input.perm[j] as int == q) by {
                if q == p as int {
                    assert(input.perm[i - 1] as int == q);
                } else if seen[q] {
                    let j = choose|j: int| 0 <= j < i - 1 && input.perm[j] as int == q;
                    assert(0 <= j < i && input.perm[j] as int == q);
                } else {
                    if exists|j: int| 0 <= j < i && input.perm[j] as int == q {
                        let j = choose|j: int| 0 <= j < i && input.perm[j] as int == q;
                        assert(j != i - 1);
                    }
                }
            }
        }
    }
    Ok(())
}

/// Check a whole median witness over `n` entries, reporting the first fault.
pub fn check_median_witness(input: &MedianInput, n: usize) -> (res: Result<(), WitnessFault>)
    requires
        n <= MEDIAN_MAX,
    ensures
        res matches Err(f) ==> median_witness_fault(*input, n as int) == Some(f),
        res is Ok ==> median_witness_fault(*input, n as int) is None,
{
    if !is_monotone(&input.sorted, n) {
        return Err(WitnessFault::NotMonotonic);
    }
    check_permutation(input, n)
}

/// Guest computation: checks the witness over the first `min(count, MEDIAN_MAX)`
/// entries (the guest aborts on a bad witness, so a valid one is required), then
/// returns the lower median, the SHA-256 of the sorted prefix in big-endian
/// bytes, and `count` as given. Zero count gives an all-zero output.
pub fn compute(input: &MedianInput) -> (out: MedianOutput)
    requires
        median_witness_fault(*input, spec_clamped_count(input.count as int)) is None,
    ensures
        (out.median, out.sorted_commit@, out.count) == median_outcome(*input,
            spec_clamped_count(input.count as int), guest_sha256()),
{
    let n = clamped_count(input.count);
    if n == 0 {
        let out = MedianOutput { median: 0, sorted_commit: [0u8; 32], count: 0 };
        assert(out.sorted_commit@ =~= Seq::new(32, |i: int| 0u8));
        return out;
    }
    let checked = check_median_witness(input, n);
    if checked.is_err() {
        proof {
            assert(false);
        }
        return MedianOutput { median: 0, sorted_commit: [0u8; 32], count: 0 };
    }
    let median = if n % 2 == 1 { input.sorted[n / 2] } else { input.sorted[n / 2 - 1] };
    let sorted_commit = sha256_u64_be(&input.sorted, n);
    MedianOutput { median, sorted_commit, count: input.count }
}

/// Clamp the public `count` to `MEDIAN_MAX`.
pub fn clamped_count(count: u32) -> (n: usize)
    ensures
        n == spec_clamped_count(count as int),
{
    let n = count as usize;
    if n > MEDIAN_MAX { MEDIAN_MAX } else { n }
}

/// SHA-256 over the first `n` entries of `buf`, in big-endian byte order.
pub fn sha256_u64_be(buf: &[u64; MEDIAN_MAX], n: usize) -> (d: [u8; 32])
    requires
        n <= MEDIAN_MAX,
    ensures
        d@ == sha256_spec(be_u64s(buf@.take(n as int))),
{
    sha256_u64_prefix(buf, n)
}

/// SHA-256 over the big-endian byte representation of a `u64` slice.
pub fn sha256_be_u64(data: &[u64]) -> (d: [u8; 32])
    ensures
        d@ == sha256_spec(be_u64s(data@)),
{
    let d = sha256_u64_prefix(data, data.len());
    assert(data@.take(data@.len() as int) =~= data@);
    d
}

proof fn lemma_no_fault_entries(raw: Seq<u64>, sorted: Seq<u64>, perm: Seq<u16>, n: int, k: int)
    requires
        first_perm_fault(raw, sorted, perm, n, k) is None,
    ensures
        forall|i: int| 0 <= i < k ==> #[trigger] perm_fault_at(raw, sorted, perm, n, i) is None,
    decreases k,
{
    if k > 0 {
        lemma_no_fault_entries(raw, sorted, perm, n, k - 1);
    }
}

/// Adjacent order over `s[..n]` gives order between any two positions.
pub proof fn lemma_monotone_ordered(s: Seq<u64>, n: int)
    requires
        monotone(s, n),
    ensures
        forall|i: int, j: int| 0 <= i <= j < n ==> s[i] <= s[j],
    decreases n,
{
    if n > 0 {
        lemma_monotone_ordered(s, n - 1);
        assert forall|i: int, j: int| 0 <= i <= j < n implies s[i] <= s[j] by {
            if j == n - 1 && i < j {
                assert(s[j - 1] <= s[j]);
            }
        }
    }
}

/// A median witness without fault is sound: over the first `n` entries,
/// `sorted` holds exactly the values of `raw` (equal as multisets) in
/// non-decreasing order, so the reported lower median is the value of rank
/// `(n - 1) / 2` of the raw input.
pub proof fn law_median_witness_sound(input: MedianInput, n: int)
    requires
        0 <= n <= MEDIAN_MAX,
        median_witness_fault(input, n) is None,
    ensures
        input.sorted@.take(n).to_multiset() == input.raw@.take(n).to_multiset(),
        forall|i: int, j: int| 0 <= i <= j < n ==> input.sorted[i] <= input.sorted[j],
        n > 0 ==> lower_median(input.sorted@, n) == input.sorted[(n - 1) / 2],
{
    let a = input.sorted@.take(n);
    let b = input.raw@.take(n);
    let p = |i: int| input.perm@[i] as int;
    lemma_no_fault_entries(input.raw@, input.sorted@, input.perm@, n, n);
    assert forall|i: int| 0 <= i < a.len() implies 0 <= #[trigger] p(i) < b.len() && a[i] == b[p(i)] by {
        assert(perm_fault_at(input.raw@, input.sorted@, input.perm@, n, i) is None);
    }
    assert forall|i: int, j: int| 0 <= i < j < a.len() implies #[trigger] p(i) != #[trigger] p(j) by {
        assert(perm_fault_at(input.raw@, input.sorted@, input.perm@, n, j) is None);
        if input.perm@[i] == input.perm@[j] {
            assert(exists|k: int| 0 <= k < j && input.perm@[k] == input.perm@[j]);
        }
    }
    assert(is_perm_witness(a, b, p));
    lemma_witness_same_multiset(a, b, p);
    lemma_monotone_ordered(input.sorted@, n);
}

/// Entries from index `j` on add at most one each to the counts.
proof fn lemma_count_growth(s: Seq<u64>, j: int, n: int, m: u64)
    requires
        0 <= j <= n,
    ensures
        0 <= count_below(s, n, m) - count_below(s, j, m) <= n - j,
        0 <= count_above(s, n, m) - count_above(s, j, m) <= n - j,
    decreases n,
{
    if n > j {
        lemma_count_growth(s, j, n - 1, m);
    }
}

/// Entries at or past `j` that are not below `m` leave the below-count unchanged.
proof fn lemma_none_below_from(s: Seq<u64>, j: int, n: int, m: u64)
    requires
        0 <= j <= n,
        forall|i: int| j <= i < n ==> s[i] >= m,
    ensures
        count_below(s, n, m) == count_below(s, j, m),
    decreases n,
{
    if n > j {
        lemma_none_below_from(s, j, n - 1, m);
    }
}

/// A prefix with no entry above `m` has an above-count of zero.
proof fn lemma_none_above(s: Seq<u64>, k: int, m: u64)
    requires
        forall|i: int| 0 <= i < k ==> s[i] <= m,
    ensures
        count_above(s, k, m) == 0,
    decreases k,
{
    if k > 0 {
        lemma_none_above(s, k - 1, m);
    }
}

/// The reported median is a middle value of the raw input: it is one of the
/// first `n` raw entries, at most `(n - 1) / 2` of them lie strictly below it
/// and at most `n / 2` strictly above it.
pub proof fn law_median_is_middle(input: MedianInput, n: int)
    requires
        0 < n <= MEDIAN_MAX,
        median_witness_fault(input, n) is None,
    ensures
        exists|j: int| 0 <= j < n && input.raw[j] == lower_median(input.sorted@, n),
        count_below(input.raw@, n, lower_median(input.sorted@, n)) <= (n - 1) / 2,
        count_above(input.raw@, n, lower_median(input.sorted@, n)) <= n / 2,
{
    broadcast use vstd::seq_lib::group_to_multiset_ensures;

    law_median_witness_sound(input, n);
    let k = (n - 1) / 2;
    let med = lower_median(input.sorted@, n);
    let sorted = input.sorted@;
    assert(med == sorted[k]);
    lemma_counts_follow_multiset(sorted, input.raw@, n, med);
    assert(forall|i: int| k <= i < n ==> sorted[i] >= med);
    lemma_none_below_from(sorted, k, n, med);
    lemma_count_growth(sorted, 0, k, med);
    assert(forall|i: int| 0 <= i < k + 1 ==> sorted[i] <= med);
    lemma_none_above(sorted, k + 1, med);
    lemma_count_growth(sorted, k + 1, n, med);
    assert(sorted.take(n)[k] == med);
    assert(sorted.take(n).contains(med));
    assert(input.raw@.take(n).to_multiset().count(med) > 0);
    assert(input.raw@.take(n).contains(med));
    let j = choose|j: int| 0 <= j < input.raw@.take(n).len() && input.raw@.take(n)[j] == med;
    assert(input.raw[j] == med);
}

/// A valid permutation leaves no fault in any prefix of the entries.
proof fn lemma_valid_perm_no_fault(raw: Seq<u64>, sorted: Seq<u64>, perm: Seq<u16>, n: int, k: int)
    requires
        0 <= k <= n,
        forall|i: int| 0 <= i < n ==> (#[trigger] perm[i] as int) < n,
        forall|i: int, j: int| 0 <= i < j < n ==> #[trigger] perm[i] != #[trigger] perm[j],
        forall|i: int| 0 <= i < n ==> #[trigger] sorted[i] == raw[perm[i] as int],
    ensures
        first_perm_fault(raw, sorted, perm, n, k) is None,
    decreases k,
{
    if k > 0 {
        lemma_valid_perm_no_fault(raw, sorted, perm, n, k - 1);
        let i = k - 1;
        assert((perm[i] as int) < n);
        assert(sorted[i] == raw[perm[i] as int]);
        assert(!exists|j: int| 0 <= j < i && perm[j] == perm[i]) by {
            if exists|j: int| 0 <= j < i && perm[j] == perm[i] {
                let j = choose|j: int| 0 <= j < i && perm[j] == perm[i];
                assert(perm[j] != perm[i]);
            }
        }
        assert(perm_fault_at(raw, sorted, perm, n, i) is None);
    }
}

/// Every valid witness is accepted: when `sorted[..n]` is non-decreasing and
/// `perm[..n]` lists distinct indices below `n` with `sorted[i] == raw[perm[i]]`,
/// in whatever order equal values come, the witness has no fault and the
/// reported median is `sorted[(n - 1) / 2]`.
pub proof fn law_valid_median_witness_accepted(input: MedianInput, n: int, h: spec_fn(Seq<u8>) -> Seq<u8>)
    requires
        0 <= n <= MEDIAN_MAX,
        forall|i: int, j: int| 0 <= i <= j < n ==> input.sorted[i] <= input.sorted[j],
        forall|i: int| 0 <= i < n ==> (#[trigger] input.perm[i] as int) < n,
        forall|i: int, j: int| 0 <= i < j < n ==> #[trigger] input.perm[i] != #[trigger] input.perm[j],
        forall|i: int| 0 <= i < n ==> #[trigger] input.sorted[i] == input.raw[input.perm[i] as int],
    ensures
        median_witness_fault(input, n) is None,
        n > 0 ==> median_outcome(input, n, h).0 == input.sorted[(n - 1) / 2],
{
    assert(monotone(input.sorted@, n)) by {
        assert forall|i: int| 1 <= i < n implies input.sorted@[i - 1] <= #[trigger] input.sorted@[i] by {
            assert(input.sorted[i - 1] <= input.sorted[i]);
        }
    }
    lemma_valid_perm_no_fault(input.raw@, input.sorted@, input.perm@, n, n);
}

} // verus!
