//! `sort` circuit: proves that `sorted` is a non-decreasing permutation of
//! `input` with a running-product multiset check
//! `prod (r + input[i]) == prod (r + sorted[i])` (all mod `2^64`), where `r` is
//! a Fiat-Shamir challenge derived from the SHA-256 commitments of both vectors.
use vstd::prelude::*;
use crate::host::inputs::{SortInput, SortOutput, SORT_MAX};
use crate::guest::mini_sha256::{guest_sha256, sha256_spec, sha256_u64_prefix, MiniSha256};
use crate::guest::median::{monotone, is_monotone};
use crate::encoding::{be_u64s, u64_from_be, u64_from_be_prefix};
use vstd::seq_lib::{commutative_foldl, lemma_fold_left_permutation};

verus! {

/// ASCII bytes of the challenge domain tag `veria-multiset-challenge-v1`.
pub const CHALLENGE_DOMAIN: [u8; 27] = [
    0x76, 0x65, 0x72, 0x69, 0x61, 0x2d, 0x6d, 0x75, 0x6c, 0x74, 0x69, 0x73, 0x65, 0x74, 0x2d, 0x63,
    0x68, 0x61, 0x6c, 0x6c, 0x65, 0x6e, 0x67, 0x65, 0x2d, 0x76, 0x31,
];

pub open spec fn pow2_64() -> int {
    0x1_0000_0000_0000_0000int
}

/// The bytes hashed to derive the challenge: `domain || a || b`.
pub open spec fn challenge_preimage(a: Seq<u8>, b: Seq<u8>) -> Seq<u8> {
    CHALLENGE_DOMAIN@ + a + b
}

/// Running product `prod_{i < n} ((r + s[i]) mod 2^64)`, reduced mod `2^64` at each step.
pub open spec fn running_product(r: u64, s: Seq<u64>, n: int) -> int
    decreases n,
{
    if n <= 0 {
        1
    } else {
        (running_product(r, s, n - 1) * ((r + s[n - 1]) % pow2_64())) % pow2_64()
    }
}

/// `count` clamped to `SORT_MAX`.
pub open spec fn spec_clamped_count(count: int) -> int {
    if count > SORT_MAX { SORT_MAX as int } else { count }
}

/// The Fiat-Shamir challenge from two commitments, for a given SHA-256
/// function `h`: the first eight bytes, big-endian, of `h(domain || a || b)`.
pub open spec fn challenge_with(a: Seq<u8>, b: Seq<u8>, h: spec_fn(Seq<u8>) -> Seq<u8>) -> u64 {
    u64_from_be(h(challenge_preimage(a, b)))
}

/// The commitments a sort check over `n` entries reports when it hashes with
/// `h`: of the unsorted prefix, of the sorted prefix, and the count as given.
pub open spec fn sort_outcome(input: SortInput, n: int, h: spec_fn(Seq<u8>) -> Seq<u8>) -> (Seq<u8>, Seq<u8>, u32) {
    (h(be_u64s(input.input@.take(n))), h(be_u64s(input.sorted@.take(n))), input.count)
}

/// Whether a sort check over `n` entries that hashes with `h` accepts the
/// witness: the sorted prefix is non-decreasing and both running products
/// agree under the challenge derived from the two commitments.
pub open spec fn sort_accepted(input: SortInput, n: int, h: spec_fn(Seq<u8>) -> Seq<u8>) -> bool {
    let r = challenge_with(sort_outcome(input, n, h).0, sort_outcome(input, n, h).1, h);
    &&& monotone(input.sorted@, n)
    &&& running_product(r, input.input@, n) == running_product(r, input.sorted@, n)
}

/// Whether the guest accepts a sort witness over `n` entries.
pub open spec fn guest_accepts(input: SortInput, n: int) -> bool {
    sort_accepted(input, n, guest_sha256())
}

pub proof fn lemma_mask_is_mod(x: u128)
    ensures
        x & 0xFFFF_FFFF_FFFF_FFFFu128 == x % 0x1_0000_0000_0000_0000u128,
{
    assert(x & 0xFFFF_FFFF_FFFF_FFFFu128 == x % 0x1_0000_0000_0000_0000u128) by (bit_vector);
}

/// Both running products over the first `n` entries of `a` and `b`, with challenge `r`.
pub fn running_products(r: u64, a: &[u64], b: &[u64], n: usize) -> (res: (u128, u128))
    requires
        n <= a@.len(),
        n <= b@.len(),
    ensures
        res.0 == running_product(r, a@, n as int),
        res.1 == running_product(r, b@, n as int),
{
    let r128 = r as u128;
    let mask: u128 = 0xFFFF_FFFF_FFFF_FFFF;
    let mut prod_in: u128 = 1;
    let mut prod_out: u128 = 1;
    let mut j: usize = 0;
    while j < n
        invariant
            j <= n <= a@.len(),
            n <= b@.len(),
            r128 == r,
            mask == 0xFFFF_FFFF_FFFF_FFFFu128,
            prod_in == running_product(r, a@, j as int),
            prod_out == running_product(r, b@, j as int),
            prod_in < pow2_64(),
            prod_out < pow2_64(),
        decreases n - j,
    {
        let x = r128.wrapping_add(a[j] as u128);
        let y = r128.wrapping_add(b[j] as u128);
        let xa = x & mask;
        let yb = y & mask;
        proof {
            lemma_mask_is_mod(x);
            lemma_mask_is_mod(y);
        }
        assert(xa < pow2_64() && yb < pow2_64());
        proof {
            assert(prod_in * xa < pow2_64() * pow2_64()) by (nonlinear_arith)
                requires prod_in < pow2_64(), xa < pow2_64(), 0 <= prod_in, 0 <= xa;
            assert(prod_out * yb < pow2_64() * pow2_64()) by (nonlinear_arith)
                requires prod_out < pow2_64(), yb < pow2_64(), 0 <= prod_out, 0 <= yb;
        }
        let pi = prod_in.wrapping_mul(xa);
        let po = prod_out.wrapping_mul(yb);
        proof {
            vstd::arithmetic::div_mod::lemma_small_mod((prod_in * xa) as nat,
                0x1_0000_0000_0000_0000_0000_0000_0000_0000nat);
            vstd::arithmetic::div_mod::lemma_small_mod((prod_out * yb) as nat,
                0x1_0000_0000_0000_0000_0000_0000_0000_0000nat);
            lemma_mask_is_mod(pi);
            lemma_mask_is_mod(po);
        }
        prod_in = pi & mask;
        prod_out = po & mask;
        j += 1;
    }
    (prod_in, prod_out)
}

/// Guest computation: checks the witness over the first `min(count, SORT_MAX)`
/// entries (the guest aborts on a bad witness, so one the guest accepts is
/// required) and returns the SHA-256 commitments of both prefixes (of the empty
/// prefix when the count is zero) and `count` as given.
pub fn compute(input: &SortInput) -> (out: SortOutput)
    requires
        guest_accepts(*input, spec_clamped_count(input.count as int)),
    ensures
        (out.input_commit@, out.sorted_commit@, out.count) == sort_outcome(*input,
            spec_clamped_count(input.count as int), guest_sha256()),
{
    let n = clamped_count(input.count);
    if !is_monotone(&input.sorted, n) {
        proof {
            assert(false);
        }
    }
    let input_commit = sha256_be_u64(&input.input, n);
    let sorted_commit = sha256_be_u64(&input.sorted, n);
    let r = derive_challenge(&input_commit, &sorted_commit);
    let (prod_in, prod_out) = running_products(r, &input.input, &input.sorted, n);
    if prod_in != prod_out {
        proof {
            assert(false);
        }
    }
    SortOutput { sorted_commit, input_commit, count: input.count }
}

/// Clamp the public `count` to `SORT_MAX`.
pub fn clamped_count(count: u32) -> (n: usize)
    ensures
        n == spec_clamped_count(count as int),
{
    let n = count as usize;
    if n > SORT_MAX { SORT_MAX } else { n }
}

/// Fiat-Shamir challenge: the first eight bytes, big-endian, of
/// `SHA-256(domain || a || b)`.
pub fn derive_challenge(a: &[u8; 32], b: &[u8; 32]) -> (r: u64)
    ensures
        r == challenge_with(a@, b@, guest_sha256()),
{
    let mut h = MiniSha256::new();
    h.update(&CHALLENGE_DOMAIN);
    h.update(a);
    h.update(b);
    let d = h.finalize();
    u64_from_be_prefix(&d)
}

/// SHA-256 over the first `n` entries of `buf`, in big-endian byte order.
pub fn sha256_be_u64(buf: &[u64; SORT_MAX], n: usize) -> (d: [u8; 32])
    requires
        n <= SORT_MAX,
    ensures
        d@ == sha256_spec(be_u64s(buf@.take(n as int))),
{
    sha256_u64_prefix(buf, n)
}

/// One step of the running product: `(acc * ((r + x) mod 2^64)) mod 2^64`.
pub open spec fn product_step(r: u64) -> spec_fn(int, u64) -> int {
    |acc: int, x: u64| (acc * ((r + x) % pow2_64())) % pow2_64()
}

proof fn lemma_running_product_is_fold(r: u64, s: Seq<u64>, n: int)
    requires
        0 <= n <= s.len(),
    ensures
        running_product(r, s, n) == s.take(n).fold_left(1int, product_step(r)),
    decreases n,
{
    if n > 0 {
        lemma_running_product_is_fold(r, s, n - 1);
        assert(s.take(n).drop_last() =~= s.take(n - 1));
        assert(s.take(n).last() == s[n - 1]);
    }
}

proof fn lemma_product_step_commutes(r: u64)
    ensures
        commutative_foldl(product_step(r)),
{
    let f = product_step(r);
    let m = pow2_64();
    assert forall|x: u64, y: u64, v: int| #[trigger] f(f(v, x), y) == f(f(v, y), x) by {
        let xx = (r + x) % m;
        let yy = (r + y) % m;
        vstd::arithmetic::div_mod::lemma_mul_mod_noop_left(v * xx, yy, m);
        vstd::arithmetic::div_mod::lemma_mul_mod_noop_left(v * yy, xx, m);
        assert(v * xx * yy == v * yy * xx) by (nonlinear_arith);
    }
}

/// The running product is the same for any two sequences whose first `n`
/// entries hold the same multiset of values, whatever the challenge.
pub proof fn law_running_product_order_free(r: u64, a: Seq<u64>, b: Seq<u64>, n: int)
    requires
        0 <= n <= a.len(),
        n <= b.len(),
        a.take(n).to_multiset() == b.take(n).to_multiset(),
    ensures
        running_product(r, a, n) == running_product(r, b, n),
{
    lemma_running_product_is_fold(r, a, n);
    lemma_running_product_is_fold(r, b, n);
    lemma_product_step_commutes(r);
    lemma_fold_left_permutation(a.take(n), b.take(n), product_step(r), 1int);
}

/// The sort check is complete: a witness that is non-decreasing and holds
/// the same multiset of values as the input is accepted by the guest, and
/// its running products agree under every challenge.
pub proof fn law_sort_accepts_honest_witness(input: SortInput, n: int)
    requires
        0 <= n <= SORT_MAX,
        monotone(input.sorted@, n),
        input.sorted@.take(n).to_multiset() == input.input@.take(n).to_multiset(),
    ensures
        guest_accepts(input, n),
        forall|r: u64| running_product(r, input.input@, n) == #[trigger] running_product(r, input.sorted@, n),
{
    assert forall|r: u64| running_product(r, input.input@, n) == #[trigger] running_product(r, input.sorted@, n) by {
        law_running_product_order_free(r, input.input@, input.sorted@, n);
    }
}

/// Each entry enters the running product as a factor `(r + x) mod 2^64` of
/// its whole 64-bit value `x`: the product over `n + 1` entries is the product
/// over `n` entries times that factor, reduced mod `2^64`.
pub proof fn law_running_product_factor(r: u64, s: Seq<u64>, n: int)
    requires
        0 <= n < s.len(),
    ensures
        running_product(r, s, n + 1) == (running_product(r, s, n) * ((r as int + s[n] as int)
            % 0x1_0000_0000_0000_0000int)) % 0x1_0000_0000_0000_0000int,
{
}

/// (r + x) mod 2^64 tells the 64-bit values apart under any fixed challenge.
proof fn lemma_factor_injective(r: u64, a: u64, b: u64)
    ensures
        (r as int + a as int) % pow2_64() == (r as int + b as int) % pow2_64() <==> a == b,
{
    let m = pow2_64();
    if r as int + a as int >= m {
        vstd::arithmetic::div_mod::lemma_mod_sub_multiples_vanish(r as int + a as int - m, m);
        vstd::arithmetic::div_mod::lemma_small_mod((r as int + a as int - m) as nat, m as nat);
    } else {
        vstd::arithmetic::div_mod::lemma_small_mod((r as int + a as int) as nat, m as nat);
    }
    if r as int + b as int >= m {
        vstd::arithmetic::div_mod::lemma_mod_sub_multiples_vanish(r as int + b as int - m, m);
        vstd::arithmetic::div_mod::lemma_small_mod((r as int + b as int - m) as nat, m as nat);
    } else {
        vstd::arithmetic::div_mod::lemma_small_mod((r as int + b as int) as nat, m as nat);
    }
}

/// The running product of one entry is `(r + x) mod 2^64` of its whole value,
/// so under every challenge two one-entry sequences get the same running
/// product exactly when their entries are equal.
pub proof fn law_running_product_single_entry(r: u64, s: Seq<u64>, t: Seq<u64>)
    requires
        1 <= s.len(),
        1 <= t.len(),
    ensures
        running_product(r, s, 1) == (r as int + s[0] as int) % 0x1_0000_0000_0000_0000int,
        running_product(r, s, 1) == running_product(r, t, 1) <==> s[0] == t[0],
{
    let m = pow2_64();
    let x = (r as int + s[0] as int) % m;
    let y = (r as int + t[0] as int) % m;
    assert(running_product(r, s, 0) == 1);
    assert(running_product(r, t, 0) == 1);
    vstd::arithmetic::div_mod::lemma_small_mod(x as nat, m as nat);
    vstd::arithmetic::div_mod::lemma_small_mod(y as nat, m as nat);
    assert(running_product(r, s, 1) == x);
    assert(running_product(r, t, 1) == y);
    lemma_factor_injective(r, s[0], t[0]);
}

/// The sort check is sound on one entry: whatever the hash, a one-entry
/// witness is accepted only when it equals the input entry.
pub proof fn law_sort_single_entry_sound(input: SortInput, h: spec_fn(Seq<u8>) -> Seq<u8>)
    requires
        sort_accepted(input, 1, h),
    ensures
        input.sorted[0] == input.input[0],
{
    let r = challenge_with(sort_outcome(input, 1, h).0, sort_outcome(input, 1, h).1, h);
    law_running_product_single_entry(r, input.input@, input.sorted@);
}

} // verus!
