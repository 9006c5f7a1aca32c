//! VERIA: verified reference logic for the zkVM circuits, the proving host
//! and the on-chain verifier program.
pub mod stats;
pub mod encoding;
pub mod digest;
pub mod text;
pub mod host;
pub mod guest;
pub mod onchain;
