pub mod errors;
pub mod hash;
pub mod state;
pub mod instructions;
pub mod veria_verifier;
