//! Hashing helpers of the verifier program. All hashing goes through
//! `hashv`, the SHA-256 of the concatenation of its arguments.
use vstd::prelude::*;
use crate::encoding::le32;

verus! {

/// SHA-256 as `hashv` computes it, over the concatenation of its arguments.
pub uninterp spec fn solana_sha256(data: Seq<u8>) -> Seq<u8>;

/// Concatenation of byte strings.
pub open spec fn concat_all(vals: Seq<&[u8]>) -> Seq<u8>
    decreases vals.len(),
{
    if vals.len() == 0 {
        Seq::empty()
    } else {
        concat_all(vals.drop_last()) + vals.last()@
    }
}

proof fn lemma_concat_one(vals: Seq<&[u8]>)
    requires
        vals.len() == 1,
    ensures
        concat_all(vals) == vals[0]@,
{
    assert(concat_all(vals.drop_last()) == Seq::<u8>::empty());
    assert(concat_all(vals) =~= vals[0]@);
}

proof fn lemma_concat_three(vals: Seq<&[u8]>)
    requires
        vals.len() == 3,
    ensures
        concat_all(vals) == vals[0]@ + vals[1]@ + vals[2]@,
{
    let v2 = vals.drop_last();
    let v1 = v2.drop_last();
    assert(concat_all(v1.drop_last()) == Seq::<u8>::empty());
    assert(concat_all(v1) =~= vals[0]@);
    assert(concat_all(v2) =~= vals[0]@ + vals[1]@);
    assert(concat_all(vals) =~= vals[0]@ + vals[1]@ + vals[2]@);
}

/// Calls `anchor_lang::solana_program::hash::hashv`. The contract claims that
/// the result is the named SHA-256 of the concatenation of the arguments: off
/// chain, `hashv` feeds each argument in turn to one SHA-256 hasher.
#[verifier::external_body]
pub(crate) fn hashv(vals: &[&[u8]]) -> (h: [u8; 32])
    ensures
        h@ == solana_sha256(concat_all(vals@)),
{
    anchor_lang::solana_program::hash::hashv(vals).to_bytes()
}

/// The bytes behind the proof hash: `le32(len(proof_bytes)) || proof_bytes || public_inputs`.
pub open spec fn proof_preimage(proof_bytes: Seq<u8>, public_inputs: Seq<u8>) -> Seq<u8> {
    le32(proof_bytes.len() as u32) + proof_bytes + public_inputs
}

pub open spec fn spec_proof_hash(proof_bytes: Seq<u8>, public_inputs: Seq<u8>) -> Seq<u8> {
    solana_sha256(proof_preimage(proof_bytes, public_inputs))
}

pub open spec fn spec_cluster_prefix(label: Seq<u8>) -> Seq<u8> {
    solana_sha256(label).take(8)
}

/// `sha256(le32(len(proof_bytes)) || proof_bytes || public_inputs)`: the proof
/// hash that seeds the proof record. The length prefix separates the split
/// between the two parts.
pub fn compute_proof_hash(proof_bytes: &[u8], public_inputs: &[u8]) -> (h: [u8; 32])
    ensures
        h@ == spec_proof_hash(proof_bytes@, public_inputs@),
{
    let n = proof_bytes.len() as u32;
    let len_prefix = [n as u8, (n >> 8u32) as u8, (n >> 16u32) as u8, (n >> 24u32) as u8];
    let parts: [&[u8]; 3] = [len_prefix.as_slice(), proof_bytes, public_inputs];
    proof {
        assert(len_prefix@ =~= le32(n));
        lemma_concat_three(parts@);
        assert(parts@[0]@ == len_prefix@);
    }
    hashv(parts.as_slice())
}

/// `sha256(public_inputs)`, stored on the proof record.
pub fn compute_public_inputs_hash(public_inputs: &[u8]) -> (h: [u8; 32])
    ensures
        h@ == solana_sha256(public_inputs@),
{
    let parts: [&[u8]; 1] = [public_inputs];
    proof {
        lemma_concat_one(parts@);
    }
    hashv(parts.as_slice())
}

/// `sha256(vk_bytes)`: the registered verification key is recorded by hash.
pub fn compute_vk_hash(vk_bytes: &[u8]) -> (h: [u8; 32])
    ensures
        h@ == solana_sha256(vk_bytes@),
{
    let parts: [&[u8]; 1] = [vk_bytes];
    proof {
        lemma_concat_one(parts@);
    }
    hashv(parts.as_slice())
}

/// The first 8 bytes of `sha256(label)`: the cluster prefix that public
/// inputs must start with.
pub fn cluster_prefix_for(label: &[u8]) -> (p: [u8; 8])
    ensures
        p@ == spec_cluster_prefix(label@),
{
    let parts: [&[u8]; 1] = [label];
    proof {
        lemma_concat_one(parts@);
    }
    let full = hashv(parts.as_slice());
    let p = [full[0], full[1], full[2], full[3], full[4], full[5], full[6], full[7]];
    assert(p@ =~= full@.take(8));
    p
}

/// The proof-hash preimage determines both parts: no two different
/// `(proof_bytes, public_inputs)` splits hash the same bytes, as long as the
/// proof fits the 4-byte length prefix.
pub proof fn law_proof_preimage_injective(a1: Seq<u8>, b1: Seq<u8>, a2: Seq<u8>, b2: Seq<u8>)
    requires
        a1.len() <= u32::MAX,
        a2.len() <= u32::MAX,
        proof_preimage(a1, b1) == proof_preimage(a2, b2),
    ensures
        a1 == a2,
        b1 == b2,
{
    let p1 = proof_preimage(a1, b1);
    let p2 = proof_preimage(a2, b2);
    assert(p1.take(4) =~= le32(a1.len() as u32));
    assert(p2.take(4) =~= le32(a2.len() as u32));
    let n1 = a1.len() as u32;
    let n2 = a2.len() as u32;
    assert(le32(n1) == le32(n2));
    assert(n1 == n2) by (bit_vector)
        requires
            n1 as u8 == n2 as u8,
            (n1 >> 8u32) as u8 == (n2 >> 8u32) as u8,
            (n1 >> 16u32) as u8 == (n2 >> 16u32) as u8,
            (n1 >> 24u32) as u8 == (n2 >> 24u32) as u8;
    assert(a1 =~= p1.subrange(4, 4 + a1.len() as int));
    assert(a2 =~= p2.subrange(4, 4 + a2.len() as int));
    assert(b1 =~= p1.subrange(4 + a1.len() as int, p1.len() as int));
    assert(b2 =~= p2.subrange(4 + a2.len() as int, p2.len() as int));
}

} // verus!
