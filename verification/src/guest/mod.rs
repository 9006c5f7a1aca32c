pub mod aggregation;
pub mod scoring;
pub mod mini_sha256;
pub mod permutation;
pub mod median;
pub mod sort;
pub mod ml_inference;
