pub mod error;
pub mod inputs;
pub mod circuits;
pub mod prover;
pub mod folding;
pub mod api;
pub mod agreement;
