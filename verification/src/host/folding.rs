//! Nova-style folding accumulator over sub-proof outputs.
//!
//! ```text
//!   acc_0   = H(domain || circuit_id_0 || pub_hash_0)
//!   acc_i+1 = H(acc_i || circuit_id_i+1 || pub_hash_i+1)
//! ```
//! An empty chain has the initial accumulator `H(domain || "init")`. A batch is homogeneous (Nova
//! path) when every sub-proof targets the same circuit, and heterogeneous
//! (SuperNova path) otherwise.
use vstd::prelude::*;
use crate::host::circuits::{CircuitId, circuit_id};
use crate::host::error::HostError;
use crate::host::prover::ProveOutput;
use crate::digest::{sha256, sha2_sha256};
use crate::encoding::{push_bytes, bytes_equal};
use crate::text::{hex_encode, hex_lower};

verus! {

/// Domain separation tag `veria-fold-v1` (ASCII).
pub const FOLD_DOMAIN: [u8; 13] = [0x76, 0x65, 0x72, 0x69, 0x61, 0x2d, 0x66, 0x6f, 0x6c, 0x64, 0x2d, 0x76, 0x31];

/// ASCII `init`.
pub const FOLD_INIT: [u8; 4] = [0x69, 0x6e, 0x69, 0x74];

/// The accumulator of an empty chain, `H(domain || "init")`.
pub open spec fn initial_accumulator() -> Seq<u8> {
    sha2_sha256(FOLD_DOMAIN@ + FOLD_INIT@)
}

/// The bytes hashed to absorb a sub-proof after `prev` (the domain tag for
/// the first sub-proof, the accumulator after that).
pub open spec fn absorb_preimage(prev: Seq<u8>, c: CircuitId, pub_hash: Seq<u8>) -> Seq<u8> {
    prev + seq![circuit_id(c)] + pub_hash
}

/// The chain after the first `k` sub-proofs: the domain tag when `k` is zero,
/// then `acc_k-1`.
pub open spec fn fold_accumulator(cs: Seq<CircuitId>, hs: Seq<[u8; 32]>, k: int) -> Seq<u8>
    decreases k,
{
    if k <= 0 {
        FOLD_DOMAIN@
    } else {
        sha2_sha256(absorb_preimage(fold_accumulator(cs, hs, k - 1), cs[k - 1], hs[k - 1]@))
    }
}

/// The 32-byte accumulator of a chain of `n` sub-proofs: the initial
/// accumulator when it is empty, otherwise `acc_n-1`.
pub open spec fn folded_digest(cs: Seq<CircuitId>, hs: Seq<[u8; 32]>, n: int) -> Seq<u8> {
    if n <= 0 {
        initial_accumulator()
    } else {
        fold_accumulator(cs, hs, n)
    }
}

/// The chain follows `acc_0 = H(domain || circuit_id_0 || pub_hash_0)` and
/// `acc_k = H(acc_k-1 || circuit_id_k || pub_hash_k)`.
pub proof fn law_accumulator_chain(cs: Seq<CircuitId>, hs: Seq<[u8; 32]>, k: int)
    requires
        0 <= k,
    ensures
        fold_accumulator(cs, hs, 1) == sha2_sha256(FOLD_DOMAIN@ + seq![circuit_id(cs[0])] + hs[0]@),
        fold_accumulator(cs, hs, k + 2) == sha2_sha256(fold_accumulator(cs, hs, k + 1) + seq![
            circuit_id(cs[k + 1])] + hs[k + 1]@),
{
    assert(fold_accumulator(cs, hs, 0) == FOLD_DOMAIN@);
}

/// The initial accumulator `H(domain || "init")`.
fn initial_digest() -> (d: [u8; 32])
    ensures
        d@ == initial_accumulator(),
{
    let mut pre: Vec<u8> = Vec::new();
    push_bytes(&mut pre, &FOLD_DOMAIN);
    push_bytes(&mut pre, &FOLD_INIT);
    assert(pre@ =~= FOLD_DOMAIN@ + FOLD_INIT@);
    sha256(pre.as_slice())
}

/// Every circuit in the sequence equals the first.
pub open spec fn all_same(cs: Seq<CircuitId>) -> bool {
    forall|i: int| 0 <= i < cs.len() ==> #[trigger] cs[i] == cs[0]
}

/// The output of a folding pass.
#[derive(Debug, Clone, PartialEq, Eq)]
pub struct FoldedProof {
    /// The number of sub-proofs combined.
    pub n: u32,
    /// Domain-separated accumulator digest.
    pub accumulator: [u8; 32],
    /// Circuit of each sub-proof, in order.
    pub circuit_seq: Vec<CircuitId>,
    /// `pub_hashes[i]` is the public hash of sub-proof `i`.
    pub pub_hashes: Vec<[u8; 32]>,
    /// Whether every sub-proof targeted the same circuit.
    pub homogeneous: bool,
}

/// The stored accumulator equals the one recomputed from the carried hashes.
pub open spec fn accumulator_consistent(p: FoldedProof) -> bool {
    p.accumulator@ == folded_digest(p.circuit_seq@, p.pub_hashes@, p.n as int)
}

/// `p` is the fold of the sub-proofs `items`, in order.
pub open spec fn folds(p: FoldedProof, items: Seq<ProveOutput>) -> bool {
    &&& p.n == items.len()
    &&& p.circuit_seq@ == items.map_values(|o: ProveOutput| o.circuit)
    &&& p.pub_hashes@ == items.map_values(|o: ProveOutput| o.public_hash)
    &&& p.accumulator@ == folded_digest(p.circuit_seq@, p.pub_hashes@, p.n as int)
    &&& p.homogeneous == all_same(p.circuit_seq@)
}

/// Stateful folding accumulator: [`FoldingAdapter::new`], then
/// [`FoldingAdapter::absorb`] once per sub-proof, then [`FoldingAdapter::finish`].
pub struct FoldingAdapter {
    n: u32,
    acc: [u8; 32],
    circuit_seq: Vec<CircuitId>,
    pub_hashes: Vec<[u8; 32]>,
    first_circuit: Option<CircuitId>,
    homogeneous: bool,
}

impl Default for FoldingAdapter {
    /// An empty accumulator, as [`FoldingAdapter::new`].
    fn default() -> (a: Self)
        ensures
            a.wf(),
            a.spec_n() == 0,
            a.spec_circuits() == Seq::<CircuitId>::empty(),
            a.spec_hashes() == Seq::<[u8; 32]>::empty(),
            a.spec_acc() == initial_accumulator(),
    {
        Self::new()
    }
}

impl FoldingAdapter {
    /// Number of sub-proofs absorbed.
    pub closed spec fn spec_n(&self) -> u32 {
        self.n
    }

    /// Circuits absorbed, in order.
    pub closed spec fn spec_circuits(&self) -> Seq<CircuitId> {
        self.circuit_seq@
    }

    /// Public hashes absorbed, in order.
    pub closed spec fn spec_hashes(&self) -> Seq<[u8; 32]> {
        self.pub_hashes@
    }

    /// Current accumulator.
    pub closed spec fn spec_acc(&self) -> Seq<u8> {
        self.acc@
    }

    /// Current homogeneity flag.
    pub closed spec fn spec_homogeneous(&self) -> bool {
        self.homogeneous
    }

    /// The adapter's fields describe the sub-proofs absorbed so far.
    pub closed spec fn wf(&self) -> bool {
        &&& self.n == self.circuit_seq@.len()
        &&& self.n == self.pub_hashes@.len()
        &&& self.acc@ == folded_digest(self.circuit_seq@, self.pub_hashes@, self.n as int)
        &&& self.first_circuit == if self.n == 0 { None } else { Some(self.circuit_seq@[0]) }
        &&& self.homogeneous == all_same(self.circuit_seq@)
    }

    /// An empty accumulator.
    pub fn new() -> (a: Self)
        ensures
            a.wf(),
            a.spec_n() == 0,
            a.spec_circuits() == Seq::<CircuitId>::empty(),
            a.spec_hashes() == Seq::<[u8; 32]>::empty(),
            a.spec_acc() == initial_accumulator(),
    {
        let acc = initial_digest();
        let a = FoldingAdapter {
            n: 0,
            acc,
            circuit_seq: Vec::new(),
            pub_hashes: Vec::new(),
            first_circuit: None,
            homogeneous: true,
        };
        assert(a.circuit_seq@ =~= Seq::<CircuitId>::empty());
        a
    }

    /// Absorb one sub-proof. Fails when the count would overflow `u32`; the
    /// accumulator and the homogeneity flag are then already updated while the
    /// count and the sequences are not.
    pub fn absorb(&mut self, p: &ProveOutput) -> (res: Result<(), HostError>)
        requires
            old(self).wf(),
        ensures
            final(self).spec_acc() == sha2_sha256(absorb_preimage(fold_accumulator(
                old(self).spec_circuits(), old(self).spec_hashes(), old(self).spec_n() as int), p.circuit,
                p.public_hash@)),
            final(self).spec_homogeneous() == (old(self).spec_homogeneous() && (old(self).spec_n() == 0
                || old(self).spec_circuits()[0] == p.circuit)),
            old(self).spec_n() < u32::MAX ==> {
                &&& res is Ok
                &&& final(self).wf()
                &&& final(self).spec_n() == old(self).spec_n() + 1
                &&& final(self).spec_circuits() == old(self).spec_circuits().push(p.circuit)
                &&& final(self).spec_hashes() == old(self).spec_hashes().push(p.public_hash)
            },
            old(self).spec_n() == u32::MAX ==> {
                &&& res matches Err(HostError::Folding(msg)) && msg@ == "accumulator length overflow"@
                &&& final(self).spec_n() == old(self).spec_n()
                &&& final(self).spec_circuits() == old(self).spec_circuits()
                &&& final(self).spec_hashes() == old(self).spec_hashes()
            },
    {
        let cid = p.circuit;
        match self.first_circuit {
            None => {
                self.first_circuit = Some(cid);
            },
            Some(c) => {
                if c != cid {
                    self.homogeneous = false;
                }
            },
        }
        let mut pre: Vec<u8> = Vec::new();
        if self.n == 0 {
            push_bytes(&mut pre, &FOLD_DOMAIN);
        } else {
            push_bytes(&mut pre, &self.acc);
        }
        pre.push(cid.id());
        push_bytes(&mut pre, &p.public_hash);
        proof {
            assert(pre@ =~= absorb_preimage(fold_accumulator(old(self).circuit_seq@,
                old(self).pub_hashes@, old(self).n as int), cid, p.public_hash@));
        }
        let next = sha256(pre.as_slice());
        self.acc = next;
        match self.n.checked_add(1) {
            None => {
                return Err(HostError::Folding(String::from_str("accumulator length overflow")));
            },
            Some(m) => {
                self.n = m;
            },
        }
        self.circuit_seq.push(cid);
        self.pub_hashes.push(p.public_hash);
        proof {
            let cs = self.circuit_seq@;
            let hs = self.pub_hashes@;
            assert(cs.take(old(self).n as int) =~= old(self).circuit_seq@);
            lemma_fold_accumulator_prefix(cs, old(self).circuit_seq@, hs, old(self).pub_hashes@,
                old(self).n as int);
            if old(self).n > 0 {
                assert(cs[0] == old(self).circuit_seq@[0]);
            }
            assert(self.homogeneous == all_same(cs)) by {
                if old(self).homogeneous && (old(self).n == 0 || old(self).circuit_seq@[0] == cid) {
                    assert forall|i: int| 0 <= i < cs.len() implies #[trigger] cs[i] == cs[0] by {
                        if i < old(self).n {
                            assert(old(self).circuit_seq@[i] == old(self).circuit_seq@[0]);
                        }
                    }
                } else if !old(self).homogeneous {
                    let i = choose|i: int| 0 <= i < old(self).circuit_seq@.len()
                        && #[trigger] old(self).circuit_seq@[i] != old(self).circuit_seq@[0];
                    assert(cs[i] != cs[0]);
                } else {
                    assert(cs[old(self).n as int] != cs[0]);
                }
            }
        }
        Ok(())
    }

    /// Finish the fold. An empty fold is rejected.
    pub fn finish(self) -> (res: Result<FoldedProof, HostError>)
        requires
            self.wf(),
        ensures
            self.spec_n() == 0 ==> (res matches Err(HostError::Folding(msg))
                && msg@ == "cannot finish an empty fold"@),
            self.spec_n() > 0 ==> (res matches Ok(p) && p.n == self.spec_n()
                && p.accumulator@ == self.spec_acc() && p.circuit_seq@ == self.spec_circuits()
                && p.pub_hashes@ == self.spec_hashes() && p.homogeneous == self.spec_homogeneous()
                && p.homogeneous == all_same(p.circuit_seq@) && accumulator_consistent(p)),
    {
        if self.n == 0 {
            return Err(HostError::Folding(String::from_str("cannot finish an empty fold")));
        }
        Ok(FoldedProof {
            n: self.n,
            accumulator: self.acc,
            circuit_seq: self.circuit_seq,
            pub_hashes: self.pub_hashes,
            homogeneous: self.homogeneous,
        })
    }

    /// Fold a slice of sub-proofs in one call.
    pub fn fold_all(items: &[ProveOutput]) -> (res: Result<FoldedProof, HostError>)
        ensures
            items@.len() == 0 ==> (res matches Err(HostError::Folding(msg))
                && msg@ == "cannot finish an empty fold"@),
            0 < items@.len() <= u32::MAX ==> (res matches Ok(p) && folds(p, items@)),
            items@.len() > u32::MAX ==> (res matches Err(HostError::Folding(msg))
                && msg@ == "accumulator length overflow"@),
    {
        let mut adapter = Self::new();
        let mut i: usize = 0;
        while i < items.len()
            invariant
                i <= items@.len(),
                i <= u32::MAX,
                adapter.wf(),
                adapter.spec_n() == i,
                adapter.spec_circuits() == items@.take(i as int).map_values(|o: ProveOutput| o.circuit),
                adapter.spec_hashes() == items@.take(i as int).map_values(|o: ProveOutput| o.public_hash),
            decreases items@.len() - i,
        {
            match adapter.absorb(&items[i]) {
                Err(e) => {
                    return Err(e);
                },
                Ok(()) => {},
            }
            i += 1;
            proof {
                assert(items@.take(i as int).map_values(|o: ProveOutput| o.circuit)
                    =~= items@.take(i - 1).map_values(|o: ProveOutput| o.circuit).push(items@[i - 1].circuit));
                assert(items@.take(i as int).map_values(|o: ProveOutput| o.public_hash)
                    =~= items@.take(i - 1).map_values(|o: ProveOutput| o.public_hash).push(items@[i - 1].public_hash));
            }
        }
        proof {
            assert(items@.take(items@.len() as int) =~= items@);
        }
        adapter.finish()
    }
}

/// Reject an empty batch of inputs before any proving work.
pub fn check_batch_nonempty(n_inputs: usize) -> (res: Result<(), HostError>)
    ensures
        n_inputs == 0 ==> (res matches Err(HostError::Folding(msg))
            && msg@ == "input array must contain at least one element"@),
        n_inputs > 0 ==> res is Ok,
{
    if n_inputs == 0 {
        return Err(HostError::Folding(String::from_str("input array must contain at least one element")));
    }
    Ok(())
}

/// The accumulator over a prefix depends only on that prefix.
pub proof fn lemma_fold_accumulator_prefix(cs1: Seq<CircuitId>, cs2: Seq<CircuitId>, hs1: Seq<[u8; 32]>,
    hs2: Seq<[u8; 32]>, k: int)
    requires
        0 <= k <= cs1.len(),
        k <= cs2.len(),
        k <= hs1.len(),
        k <= hs2.len(),
        forall|i: int| 0 <= i < k ==> cs1[i] == cs2[i] && hs1[i] == hs2[i],
    ensures
        fold_accumulator(cs1, hs1, k) == fold_accumulator(cs2, hs2, k),
    decreases k,
{
    if k > 0 {
        lemma_fold_accumulator_prefix(cs1, cs2, hs1, hs2, k - 1);
    }
}

impl FoldedProof {
    /// Recompute the accumulator from the carried circuit ids and hashes.
    pub fn recompute_accumulator(&self) -> (acc: [u8; 32])
        requires
            self.n <= self.circuit_seq@.len(),
            self.n <= self.pub_hashes@.len(),
        ensures
            acc@ == folded_digest(self.circuit_seq@, self.pub_hashes@, self.n as int),
    {
        let mut acc = initial_digest();
        let n = self.n as usize;
        let mut i: usize = 0;
        while i < n
            invariant
                i <= n,
                n == self.n,
                n <= self.circuit_seq@.len(),
                n <= self.pub_hashes@.len(),
                acc@ == folded_digest(self.circuit_seq@, self.pub_hashes@, i as int),
            decreases n - i,
        {
            let cid = self.circuit_seq[i];
            let pub_h = self.pub_hashes[i];
            let mut pre: Vec<u8> = Vec::new();
            if i == 0 {
                push_bytes(&mut pre, &FOLD_DOMAIN);
            } else {
                push_bytes(&mut pre, &acc);
            }
            pre.push(cid.id());
            push_bytes(&mut pre, &pub_h);
            proof {
                assert(pre@ =~= absorb_preimage(fold_accumulator(self.circuit_seq@, self.pub_hashes@,
                    i as int), cid, pub_h@));
            }
            acc = sha256(pre.as_slice());
            i += 1;
        }
        acc
    }

    /// Check that the carried accumulator matches the recomputation; a
    /// mismatch reports both digests in hex.
    pub fn check(&self) -> (res: Result<(), HostError>)
        requires
            self.n <= self.circuit_seq@.len(),
            self.n <= self.pub_hashes@.len(),
        ensures
            accumulator_consistent(*self) ==> res is Ok,
            !accumulator_consistent(*self) ==> (res matches Err(HostError::Folding(msg))
                && msg@ == "accumulator drift: stored="@ + hex_lower(self.accumulator@) + " recomputed="@
                + hex_lower(folded_digest(self.circuit_seq@, self.pub_hashes@, self.n as int))),
    {
        let recomputed = self.recompute_accumulator();
        if !bytes_equal(&recomputed, &self.accumulator) {
            let mut m = String::from_str("accumulator drift: stored=");
            m.append(hex_encode(&self.accumulator).as_str());
            m.append(" recomputed=");
            m.append(hex_encode(&recomputed).as_str());
            return Err(HostError::Folding(m));
        }
        Ok(())
    }
}

/// A proof produced by folding sub-proofs always passes its own check: the
/// carried accumulator equals the one recomputed from the carried hashes.
pub proof fn law_folded_proof_is_consistent(p: FoldedProof, items: Seq<ProveOutput>)
    requires
        folds(p, items),
    ensures
        accumulator_consistent(p),
        p.n <= p.circuit_seq@.len() && p.n <= p.pub_hashes@.len(),
{
}

} // verus!
