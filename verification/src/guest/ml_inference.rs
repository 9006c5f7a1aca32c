//! `ml-inference` circuit: fixed-point forward pass of a 3-layer MLP
//! (32 -> 16 -> 8 -> 4, ReLU on the hidden layers) with scale `2^16`, and a
//! SHA-256 commitment to the model weights.
//!
//! Each product `x * w` is computed in `i64`, arithmetically shifted right by
//! 16 and accumulated onto the bias with saturating `i64` addition; the hidden
//! activations are clamped to `[0, i32::MAX]` and the logits to the `i32` range.
use vstd::prelude::*;
use crate::host::inputs::{MlInput, MlOutput, ML_IN, ML_H1, ML_H2, ML_OUT, ML_FP_SHIFT};
use crate::guest::mini_sha256::{guest_sha256, sha256_spec, MiniSha256};
use crate::encoding::{be_i32s, i32s_to_be_into, lemma_be_i32s_len};

verus! {

/// What the ml-inference circuit reports when it hashes with `h`: the logits
/// of the forward pass and the commitment to the model bytes.
pub open spec fn ml_outcome(m: MlInput, h: spec_fn(Seq<u8>) -> Seq<u8>) -> (Seq<i32>, Seq<u8>) {
    (logits(m), h(model_bytes(m)))
}

/// Saturating `i64` addition.
pub open spec fn sat_add(a: i64, b: i64) -> i64 {
    if a + b > i64::MAX {
        i64::MAX
    } else if a + b < i64::MIN {
        i64::MIN
    } else {
        (a + b) as i64
    }
}

/// One fixed-point product term: `(x * w) >> 16` (arithmetic shift).
pub open spec fn fp_term(x: i32, w: i32) -> i64 {
    ((x as int * w as int) as i64) >> 16u32
}

/// Accumulator of a neuron after its first `k` inputs.
pub open spec fn neuron_acc(bias: i32, x: Seq<i32>, w: Seq<i32>, k: int) -> i64
    decreases k,
{
    if k <= 0 {
        bias as i64
    } else {
        sat_add(neuron_acc(bias, x, w, k - 1), fp_term(x[k - 1], w[k - 1]))
    }
}

/// ReLU, saturated at `i32::MAX`.
pub open spec fn spec_relu_saturating(acc: i64) -> i32 {
    if acc <= 0 {
        0
    } else if acc > i32::MAX {
        i32::MAX
    } else {
        acc as i32
    }
}

/// Clamp to the `i32` range.
pub open spec fn spec_saturating_cast(acc: i64) -> i32 {
    if acc > i32::MAX {
        i32::MAX
    } else if acc < i32::MIN {
        i32::MIN
    } else {
        acc as i32
    }
}

/// Hidden layer 1 activations.
pub open spec fn hidden1(m: MlInput) -> Seq<i32> {
    Seq::new(
        ML_H1 as nat,
        |j: int| spec_relu_saturating(neuron_acc(m.b1[j], m.features@, m.w1[j]@, ML_IN as int)),
    )
}

/// Hidden layer 2 activations.
pub open spec fn hidden2(m: MlInput) -> Seq<i32> {
    Seq::new(
        ML_H2 as nat,
        |j: int| spec_relu_saturating(neuron_acc(m.b2[j], hidden1(m), m.w2[j]@, ML_H1 as int)),
    )
}

/// Output logits.
pub open spec fn logits(m: MlInput) -> Seq<i32> {
    Seq::new(
        ML_OUT as nat,
        |j: int| spec_saturating_cast(neuron_acc(m.b3[j], hidden2(m), m.w3[j]@, ML_H2 as int)),
    )
}

/// Row-major concatenation of a weight matrix.
pub open spec fn rows_flat<const N: usize>(rows: Seq<[i32; N]>) -> Seq<i32>
    decreases rows.len(),
{
    if rows.len() == 0 {
        Seq::empty()
    } else {
        rows_flat(rows.drop_last()) + rows.last()@
    }
}

/// The committed model bytes: big-endian `w1 || b1 || w2 || b2 || w3 || b3`.
pub open spec fn model_bytes(m: MlInput) -> Seq<u8> {
    be_i32s(rows_flat(m.w1@)) + be_i32s(m.b1@) + be_i32s(rows_flat(m.w2@)) + be_i32s(m.b2@)
        + be_i32s(rows_flat(m.w3@)) + be_i32s(m.b3@)
}

/// Saturating `i64` addition.
pub fn sat_add_i64(a: i64, b: i64) -> (r: i64)
    ensures
        r == sat_add(a, b),
{
    match a.checked_add(b) {
        Some(v) => v,
        None => if b > 0 { i64::MAX } else { i64::MIN },
    }
}

/// Accumulate the first `n` fixed-point product terms onto `bias`.
pub fn neuron(bias: i32, x: &[i32], w: &[i32], n: usize) -> (acc: i64)
    requires
        n <= x@.len(),
        n <= w@.len(),
    ensures
        acc == neuron_acc(bias, x@, w@, n as int),
{
    let mut acc: i64 = bias as i64;
    let mut i: usize = 0;
    while i < n
        invariant
            i <= n <= x@.len(),
            n <= w@.len(),
            acc == neuron_acc(bias, x@, w@, i as int),
        decreases n - i,
    {
        proof {
            let xi = x@[i as int] as int;
            let wi = w@[i as int] as int;
            assert(-0x8000_0000int * 0x8000_0000int <= xi * wi <= 0x8000_0000int * 0x8000_0000int)
                by (nonlinear_arith)
                requires -0x8000_0000int <= xi < 0x8000_0000int, -0x8000_0000int <= wi < 0x8000_0000int;
        }
        let p = (x[i] as i64) * (w[i] as i64);
        acc = sat_add_i64(acc, p >> ML_FP_SHIFT);
        i += 1;
    }
    acc
}

/// ReLU, saturated at `i32::MAX`.
pub fn relu_saturating(acc: i64) -> (r: i32)
    ensures
        r == spec_relu_saturating(acc),
{
    if acc <= 0 {
        0
    } else if acc > i32::MAX as i64 {
        i32::MAX
    } else {
        acc as i32
    }
}

/// Clamp to the `i32` range.
pub fn saturating_cast(acc: i64) -> (r: i32)
    ensures
        r == spec_saturating_cast(acc),
{
    if acc > i32::MAX as i64 {
        i32::MAX
    } else if acc < i32::MIN as i64 {
        i32::MIN
    } else {
        acc as i32
    }
}

/// The forward pass: the four output logits.
pub(crate) fn forward(input: &MlInput) -> (out: [i32; ML_OUT])
    ensures
        out@ == logits(*input),
{
    let mut h1 = [0i32; ML_H1];
    let mut j: usize = 0;
    while j < ML_H1
        invariant
            j <= ML_H1,
            forall|k: int| 0 <= k < j ==> h1[k] == hidden1(*input)[k],
        decreases ML_H1 - j,
    {
        let acc = neuron(input.b1[j], &input.features, &input.w1[j], ML_IN);
        h1[j] = relu_saturating(acc);
        j += 1;
    }
    assert(h1@ =~= hidden1(*input));
    let mut h2 = [0i32; ML_H2];
    let mut j: usize = 0;
    while j < ML_H2
        invariant
            j <= ML_H2,
            h1@ == hidden1(*input),
            forall|k: int| 0 <= k < j ==> h2[k] == hidden2(*input)[k],
        decreases ML_H2 - j,
    {
        let acc = neuron(input.b2[j], &h1, &input.w2[j], ML_H1);
        h2[j] = relu_saturating(acc);
        j += 1;
    }
    assert(h2@ =~= hidden2(*input));
    let mut out = [0i32; ML_OUT];
    let mut j: usize = 0;
    while j < ML_OUT
        invariant
            j <= ML_OUT,
            h2@ == hidden2(*input),
            forall|k: int| 0 <= k < j ==> out[k] == logits(*input)[k],
        decreases ML_OUT - j,
    {
        let acc = neuron(input.b3[j], &h2, &input.w3[j], ML_H2);
        out[j] = saturating_cast(acc);
        j += 1;
    }
    assert(out@ =~= logits(*input));
    out
}

/// Append the row-major big-endian bytes of a weight matrix.
fn push_rows<const N: usize>(out: &mut Vec<u8>, rows: &[[i32; N]])
    ensures
        final(out)@ == old(out)@ + be_i32s(rows_flat(rows@)),
{
    let ghost start = out@;
    let mut r: usize = 0;
    proof {
        assert(rows@.take(0) =~= Seq::<[i32; N]>::empty());
        assert(start + be_i32s(rows_flat(Seq::<[i32; N]>::empty())) =~= start);
    }
    while r < rows.len()
        invariant
            r <= rows@.len(),
            out@ == start + be_i32s(rows_flat(rows@.take(r as int))),
        decreases rows@.len() - r,
    {
        i32s_to_be_into(out, &rows[r]);
        proof {
            assert(rows@.take(r + 1).drop_last() =~= rows@.take(r as int));
            lemma_be_i32s_append(rows_flat(rows@.take(r as int)), rows@[r as int]@);
            assert(start + be_i32s(rows_flat(rows@.take(r + 1))) =~= start + be_i32s(rows_flat(
                rows@.take(r as int),
            )) + be_i32s(rows@[r as int]@));
        }
        r += 1;
    }
    assert(rows@.take(rows@.len() as int) =~= rows@);
}

/// The encoding of a concatenation is the concatenation of the encodings.
pub proof fn lemma_be_i32s_append(a: Seq<i32>, b: Seq<i32>)
    ensures
        be_i32s(a + b) == be_i32s(a) + be_i32s(b),
    decreases b.len(),
{
    if b.len() == 0 {
        assert(a + b =~= a);
        assert(be_i32s(a) + be_i32s(b) =~= be_i32s(a));
    } else {
        lemma_be_i32s_append(a, b.drop_last());
        assert((a + b).drop_last() =~= a + b.drop_last());
        assert((a + b).last() == b.last());
        assert(be_i32s(a + b) =~= be_i32s(a) + be_i32s(b.drop_last()) + crate::encoding::be32i(b.last()));
    }
}

/// The model bytes `w1 || b1 || w2 || b2 || w3 || b3`, big-endian.
pub fn model_bytes_vec(input: &MlInput) -> (out: Vec<u8>)
    ensures
        out@ == model_bytes(*input),
{
    let mut out: Vec<u8> = Vec::new();
    push_rows(&mut out, &input.w1);
    i32s_to_be_into(&mut out, &input.b1);
    push_rows(&mut out, &input.w2);
    i32s_to_be_into(&mut out, &input.b2);
    push_rows(&mut out, &input.w3);
    i32s_to_be_into(&mut out, &input.b3);
    assert(out@ =~= model_bytes(*input));
    out
}

/// SHA-256 over the model bytes `w1 || b1 || w2 || b2 || w3 || b3` (big-endian `i32`s).
pub fn model_commitment(input: &MlInput) -> (d: [u8; 32])
    ensures
        d@ == ml_outcome(*input, guest_sha256()).1,
{
    let bytes = model_bytes_vec(input);
    let mut h = MiniSha256::new();
    proof {
        lemma_model_bytes_len(*input);
    }
    h.update(bytes.as_slice());
    assert(h@ =~= bytes@);
    h.finalize()
}

proof fn lemma_rows_flat_len<const N: usize>(rows: Seq<[i32; N]>)
    ensures
        rows_flat(rows).len() == rows.len() * N,
    decreases rows.len(),
{
    if rows.len() > 0 {
        lemma_rows_flat_len(rows.drop_last());
        assert(rows.len() * N == (rows.len() - 1) * N + N) by (nonlinear_arith);
    }
}

/// The model is 2800 bytes long.
pub proof fn lemma_model_bytes_len(m: MlInput)
    ensures
        model_bytes(m).len() == 2800,
{
    lemma_rows_flat_len(m.w1@);
    lemma_rows_flat_len(m.w2@);
    lemma_rows_flat_len(m.w3@);
    lemma_be_i32s_len(rows_flat(m.w1@));
    lemma_be_i32s_len(rows_flat(m.w2@));
    lemma_be_i32s_len(rows_flat(m.w3@));
    lemma_be_i32s_len(m.b1@);
    lemma_be_i32s_len(m.b2@);
    lemma_be_i32s_len(m.b3@);
}

/// Guest computation: the forward pass and the model commitment.
pub fn compute(input: &MlInput) -> (out: MlOutput)
    ensures
        (out.logits@, out.model_commit@) == ml_outcome(*input, guest_sha256()),
{
    let logits = forward(input);
    let model_commit = model_commitment(input);
    MlOutput { logits, model_commit }
}

/// A zero weight contributes nothing: its product term is zero.
proof fn lemma_zero_weight_term(x: i32)
    ensures
        fp_term(x, 0i32) == 0,
{
    assert(((x as int * 0int) as i64) == 0i64);
    assert((0i64 >> 16u32) == 0i64) by (bit_vector);
}

/// A weight of one (`2^16`) passes its input through unchanged.
proof fn lemma_unit_weight_term(x: i32)
    ensures
        fp_term(x, 0x1_0000i32) == x as i64,
{
    let y: i64 = (x as int * 0x1_0000int) as i64;
    assert(y == (x as i64) * 0x1_0000i64) by (nonlinear_arith)
        requires y == (x as int * 0x1_0000int) as i64, -0x8000_0000 <= x < 0x8000_0000;
    let xi: i64 = x as i64;
    assert(y >> 16u32 == xi) by (bit_vector)
        requires y == (xi * 0x1_0000i64) as i64, -0x8000_0000i64 <= xi < 0x8000_0000i64;
}

/// With all weights of a neuron before input `k` zero except possibly the
/// first, its accumulator is the bias plus the first term.
proof fn lemma_neuron_first_weight_only(bias: i32, x: Seq<i32>, w: Seq<i32>, k: int)
    requires
        1 <= k <= x.len(),
        k <= w.len(),
        forall|i: int| 1 <= i < k ==> w[i] == 0,
    ensures
        neuron_acc(bias, x, w, k) == sat_add(bias as i64, fp_term(x[0], w[0])),
    decreases k,
{
    if k > 1 {
        lemma_neuron_first_weight_only(bias, x, w, k - 1);
        lemma_zero_weight_term(x[k - 1]);
        assert(w[k - 1] == 0);
        let prev = neuron_acc(bias, x, w, k - 1);
        assert(sat_add(prev, 0i64) == prev);
        assert(neuron_acc(bias, x, w, k) == sat_add(prev, fp_term(x[k - 1], w[k - 1])));
    } else {
        assert(neuron_acc(bias, x, w, 0) == bias as i64);
        assert(neuron_acc(bias, x, w, 1) == sat_add(neuron_acc(bias, x, w, 0), fp_term(x[0], w[0])));
    }
}

/// With all weights of a neuron zero, its accumulator is its bias.
proof fn lemma_neuron_no_weights(bias: i32, x: Seq<i32>, w: Seq<i32>, k: int)
    requires
        0 <= k <= x.len(),
        k <= w.len(),
        forall|i: int| 0 <= i < k ==> w[i] == 0,
    ensures
        neuron_acc(bias, x, w, k) == bias as i64,
    decreases k,
{
    if k > 0 {
        lemma_neuron_no_weights(bias, x, w, k - 1);
        lemma_zero_weight_term(x[k - 1]);
    }
}

/// When the first layer has no weights, each first-layer activation is its
/// bias passed through ReLU: `max(b1[j], 0)`, whatever the features.
pub proof fn law_ml_first_layer_bias(m: MlInput)
    requires
        forall|j: int, i: int| 0 <= j < ML_H1 && 0 <= i < ML_IN ==> m.w1[j][i] == 0,
    ensures
        forall|j: int| 0 <= j < ML_H1 ==> #[trigger] hidden1(m)[j] == (if m.b1[j] > 0 { m.b1[j] } else { 0i32 }),
{
    assert forall|j: int| 0 <= j < ML_H1 implies #[trigger] hidden1(m)[j] == (if m.b1[j] > 0 { m.b1[j] } else {
        0i32 }) by {
        lemma_neuron_no_weights(m.b1[j], m.features@, m.w1[j]@, ML_IN as int);
    }
}

/// With no weights at all, the network outputs its last-layer biases.
pub proof fn law_ml_biases_only(m: MlInput)
    requires
        forall|j: int, i: int| 0 <= j < ML_H1 && 0 <= i < ML_IN ==> m.w1[j][i] == 0,
        forall|j: int, i: int| 0 <= j < ML_H2 && 0 <= i < ML_H1 ==> m.w2[j][i] == 0,
        forall|j: int, i: int| 0 <= j < ML_OUT && 0 <= i < ML_H2 ==> m.w3[j][i] == 0,
    ensures
        forall|j: int| 0 <= j < ML_OUT ==> #[trigger] logits(m)[j] == m.b3[j],
{
    assert forall|j: int| 0 <= j < ML_OUT implies #[trigger] logits(m)[j] == m.b3[j] by {
        lemma_neuron_no_weights(m.b3[j], hidden2(m), m.w3[j]@, ML_H2 as int);
    }
}

/// A first-layer bias reaches the output: with no first-layer weights, unit
/// weights from hidden unit 0 to hidden unit 0 and from there to logit 0, and
/// every other weight and bias of the later layers zero, logit 0 is
/// `max(b1[0], 0)` and the other logits are zero, whatever the features.
pub proof fn law_ml_first_bias_reaches_output(m: MlInput)
    requires
        forall|j: int, i: int| 0 <= j < ML_H1 && 0 <= i < ML_IN ==> m.w1[j][i] == 0,
        forall|j: int, i: int| 0 <= j < ML_H2 && 0 <= i < ML_H1 ==> m.w2[j][i] == (if j == 0 && i == 0 {
            0x1_0000i32 } else { 0i32 }),
        forall|j: int| 0 <= j < ML_H2 ==> m.b2[j] == 0,
        forall|j: int, i: int| 0 <= j < ML_OUT && 0 <= i < ML_H2 ==> m.w3[j][i] == (if j == 0 && i == 0 {
            0x1_0000i32 } else { 0i32 }),
        forall|j: int| 0 <= j < ML_OUT ==> m.b3[j] == 0,
    ensures
        logits(m)[0] == (if m.b1[0] > 0 { m.b1[0] } else { 0i32 }),
        forall|j: int| 1 <= j < ML_OUT ==> #[trigger] logits(m)[j] == 0,
{
    law_ml_first_layer_bias(m);
    let v: i32 = if m.b1[0] > 0 { m.b1[0] } else { 0i32 };
    assert(hidden1(m)[0] == v);
    let h1 = hidden1(m);
    let h2 = hidden2(m);
    lemma_neuron_first_weight_only(m.b2[0], h1, m.w2[0]@, ML_H1 as int);
    lemma_unit_weight_term(v);
    assert(h2[0] == v);
    assert forall|j: int| 1 <= j < ML_H2 implies #[trigger] h2[j] == 0 by {
        lemma_neuron_no_weights(m.b2[j], h1, m.w2[j]@, ML_H1 as int);
    }
    lemma_neuron_first_weight_only(m.b3[0], h2, m.w3[0]@, ML_H2 as int);
    assert(logits(m)[0] == v);
    assert forall|j: int| 1 <= j < ML_OUT implies #[trigger] logits(m)[j] == 0 by {
        lemma_neuron_no_weights(m.b3[j], h2, m.w3[j]@, ML_H2 as int);
    }
}

} // verus!
