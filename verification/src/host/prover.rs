//! Packaging of circuit outputs into prover results. No circuit ELF is
//! embedded in this build, so the prover takes the simulator path: the public
//! bytes are the serialized reference output and their SHA-256 is the public hash.
use vstd::prelude::*;
use crate::host::circuits::CircuitId;
use crate::host::error::{HostError, HostResult};
use crate::digest::{sha256, sha2_sha256};
use crate::encoding::{bytes_equal, vec_from_slice};
use crate::text::{hex_encode, hex_lower};

verus! {

/// Options that influence a single prove call.
#[derive(Debug, Clone, Copy)]
pub struct ProveOptions {
    /// Generate an actual proof (slow) when an ELF is embedded.
    pub real_proof: bool,
    /// Also compare the committed output bytes against the reference output.
    pub cross_check: bool,
}

impl Default for ProveOptions {
    /// Simulator path with the cross-check on.
    fn default() -> (o: Self)
        ensures
            !o.real_proof,
            o.cross_check,
    {
        ProveOptions { real_proof: false, cross_check: true }
    }
}

/// Result of running a single circuit through the host.
#[derive(Debug, Clone)]
pub struct ProveOutput {
    pub circuit: CircuitId,
    /// Public output bytes committed by the guest (the serialized reference
    /// output on the simulator path).
    pub public_bytes: Vec<u8>,
    /// SHA-256 of `public_bytes`.
    pub public_hash: [u8; 32],
    /// Cycle count of the execution; zero on the simulator path.
    pub cycles: u64,
    /// Whether the output came from the real SP1 prover.
    pub real: bool,
}

/// The prover. Without an embedded ELF it has no state.
pub struct SpProver {}

impl Default for SpProver {
    fn default() -> Self {
        Self::new()
    }
}

impl SpProver {
    pub fn new() -> Self {
        SpProver {}
    }

    /// Shape the reference output bytes into a [`ProveOutput`]. No ELF is
    /// embedded, so this is always the simulator result, whatever the options.
    pub fn maybe_real_proof(&self, circuit: CircuitId, host_bytes: &[u8], opts: &ProveOptions) -> (res:
        HostResult<ProveOutput>)
        ensures
            res matches Ok(out) && out.circuit == circuit && out.public_bytes@ == host_bytes@
                && out.public_hash@ == sha2_sha256(host_bytes@) && out.cycles == 0 && !out.real,
    {
        let bytes = vec_from_slice(host_bytes);
        let hash = sha256(host_bytes);
        Ok(ProveOutput { circuit, public_bytes: bytes, public_hash: hash, cycles: 0, real: false })
    }

    /// Run the prover on the serialized reference output of `circuit`, and
    /// cross-check the committed bytes against it when `opts.cross_check`.
    pub fn prove_bytes(&self, circuit: CircuitId, host_bytes: &[u8], opts: &ProveOptions) -> (res:
        HostResult<ProveOutput>)
        ensures
            res matches Ok(out) && out.circuit == circuit && out.public_bytes@ == host_bytes@
                && out.public_hash@ == sha2_sha256(host_bytes@) && out.cycles == 0 && !out.real,
    {
        let prove_out = self.maybe_real_proof(circuit, host_bytes, opts)?;
        if opts.cross_check {
            cross_check(host_bytes, prove_out.public_bytes.as_slice())?;
        }
        Ok(prove_out)
    }
}

/// Compare the reference output bytes with the prover's committed bytes; a
/// mismatch reports the hex of both.
pub fn cross_check(host_bytes: &[u8], prove_bytes: &[u8]) -> (res: HostResult<()>)
    ensures
        host_bytes@ == prove_bytes@ ==> res is Ok,
        host_bytes@ != prove_bytes@ ==> (res matches Err(HostError::CrossCheck { host_hex, guest_hex })
            && host_hex@ == hex_lower(host_bytes@) && guest_hex@ == hex_lower(prove_bytes@)),
{
    if !bytes_equal(host_bytes, prove_bytes) {
        return Err(HostError::CrossCheck {
            host_hex: hex_encode(host_bytes),
            guest_hex: hex_encode(prove_bytes),
        });
    }
    Ok(())
}

} // verus!
