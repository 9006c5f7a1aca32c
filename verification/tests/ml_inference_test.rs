use veria::guest::ml_inference;
use veria::host::circuits::{ref_ml, relu_saturating_i64, saturating_cast_i64_to_i32};
use veria::host::inputs::{commit_i32_be, MlInput, ML_FP_SHIFT, ML_H1, ML_H2, ML_IN, ML_OUT};

fn fp(x: i32) -> i32 {
    x << ML_FP_SHIFT
}

#[test]
fn zero_weights_yields_zero_logits() {
    let mut ml = MlInput::default();
    for i in 0..ML_IN {
        ml.features[i] = fp(1);
    }
    let out = ref_ml(&ml).unwrap();
    assert_eq!(out.logits, [0; ML_OUT]);
    assert_ne!(out.model_commit, [0u8; 32]);
}

#[test]
fn saturated_relu_clips_at_zero() {
    let mut ml = MlInput::default();
    for i in 0..ML_IN {
        ml.features[i] = fp(1);
    }
    for j in 0..ML_H1 {
        for i in 0..ML_IN {
            ml.w1[j][i] = -fp(1);
        }
        ml.b1[j] = -fp(100);
    }
    let out = ref_ml(&ml).unwrap();
    assert_eq!(out.logits, [0; ML_OUT]);
}

#[test]
fn deep_negative_path() {
    let mut ml = MlInput::default();
    for i in 0..ML_IN {
        ml.features[i] = fp(2);
    }
    for j in 0..ML_H1 {
        for i in 0..ML_IN {
            ml.w1[j][i] = fp(1);
        }
    }
    for j in 0..ML_H2 {
        for i in 0..ML_H1 {
            ml.w2[j][i] = -fp(1);
        }
    }
    for j in 0..ML_OUT {
        for i in 0..ML_H2 {
            ml.w3[j][i] = -fp(1);
        }
    }
    let out = ref_ml(&ml).unwrap();
    for v in out.logits {
        assert!(v >= 0);
    }
}

#[test]
fn positive_path_passes_through() {
    let mut ml = MlInput::default();
    for i in 0..ML_IN {
        ml.features[i] = fp(1) / 2;
    }
    for j in 0..ML_H1 {
        for i in 0..ML_IN {
            ml.w1[j][i] = 1 << (ML_FP_SHIFT - 4);
        }
        ml.b1[j] = fp(1) / 8;
    }
    for j in 0..ML_H2 {
        for i in 0..ML_H1 {
            ml.w2[j][i] = 1 << (ML_FP_SHIFT - 4);
        }
        ml.b2[j] = fp(1) / 8;
    }
    for j in 0..ML_OUT {
        for i in 0..ML_H2 {
            ml.w3[j][i] = 1 << (ML_FP_SHIFT - 4);
        }
        ml.b3[j] = fp(1) / 8;
    }
    let out = ref_ml(&ml).unwrap();
    for v in out.logits {
        assert!(v > 0, "expected positive logit, got {v}");
    }
}

#[test]
fn model_commitment_is_deterministic() {
    let ml = MlInput::default();
    let a = ref_ml(&ml).unwrap();
    let b = ref_ml(&ml).unwrap();
    assert_eq!(a.model_commit, b.model_commit);
}

#[test]
fn single_weight_path_gives_exact_logit() {
    // features[0] = 1.0, w1[0][0] = 2.0 -> h1[0] = 2.0; w2[0][0] = 0.5 -> h2[0] = 1.0;
    // w3[0][0] = 3.0, b3[0] = 0.25 -> logit 3.25.
    let mut ml = MlInput::default();
    ml.features[0] = fp(1);
    ml.w1[0][0] = fp(2);
    ml.w2[0][0] = fp(1) / 2;
    ml.w3[0][0] = fp(3);
    ml.b3[0] = fp(1) / 4;
    ml.b3[1] = -fp(5);
    let out = ref_ml(&ml).unwrap();
    assert_eq!(out.logits, [fp(3) + fp(1) / 4, -fp(5), 0, 0]);
}

#[test]
fn commitment_hashes_weights_then_biases() {
    let mut ml = MlInput::default();
    ml.w1[0][1] = -3;
    ml.b2[7] = 9;
    ml.b3[3] = i32::MIN;
    let mut flat: Vec<i32> = Vec::new();
    for r in ml.w1.iter() {
        flat.extend_from_slice(r);
    }
    flat.extend_from_slice(&ml.b1);
    for r in ml.w2.iter() {
        flat.extend_from_slice(r);
    }
    flat.extend_from_slice(&ml.b2);
    for r in ml.w3.iter() {
        flat.extend_from_slice(r);
    }
    flat.extend_from_slice(&ml.b3);
    let out = ref_ml(&ml).unwrap();
    assert_eq!(out.model_commit, commit_i32_be(&flat));
}

#[test]
fn ml_guest_agrees_with_host() {
    let mut ml = MlInput::default();
    for i in 0..ML_IN {
        ml.features[i] = (i as i32 - 16) * 1000;
    }
    for j in 0..ML_H1 {
        for i in 0..ML_IN {
            ml.w1[j][i] = ((i * 7 + j * 3) % 11) as i32 * 4000 - 20000;
        }
        ml.b1[j] = j as i32 * 100;
    }
    for j in 0..ML_H2 {
        for i in 0..ML_H1 {
            ml.w2[j][i] = ((i + j) % 5) as i32 * 9000 - 18000;
        }
    }
    for j in 0..ML_OUT {
        for i in 0..ML_H2 {
            ml.w3[j][i] = (i as i32 - j as i32) * 30000;
        }
    }
    let h = ref_ml(&ml).unwrap();
    let g = ml_inference::compute(&ml);
    assert_eq!(g, h);
    assert_eq!(ml_inference::model_commitment(&ml), h.model_commit);
}

#[test]
fn activation_clamps() {
    assert_eq!(relu_saturating_i64(-5), 0);
    assert_eq!(relu_saturating_i64(0), 0);
    assert_eq!(relu_saturating_i64(77), 77);
    assert_eq!(relu_saturating_i64(i64::MAX), i32::MAX);
    assert_eq!(saturating_cast_i64_to_i32(i64::MIN), i32::MIN);
    assert_eq!(saturating_cast_i64_to_i32(i64::MAX), i32::MAX);
    assert_eq!(saturating_cast_i64_to_i32(-12), -12);
    assert_eq!(ml_inference::relu_saturating(1 << 40), i32::MAX);
    assert_eq!(ml_inference::saturating_cast(-(1 << 40)), i32::MIN);
    assert_eq!(ml_inference::sat_add_i64(i64::MAX, 1), i64::MAX);
    assert_eq!(ml_inference::sat_add_i64(i64::MIN, -1), i64::MIN);
}
