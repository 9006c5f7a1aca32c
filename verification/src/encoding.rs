//! Big-endian byte encodings of integers and of integer sequences; these are
//! the byte strings that the circuits commit to.
use vstd::prelude::*;

verus! {

/// Big-endian bytes of a `u64`.
pub open spec fn be64(x: u64) -> Seq<u8> {
    seq![
        (x >> 56u64) as u8, (x >> 48u64) as u8, (x >> 40u64) as u8, (x >> 32u64) as u8,
        (x >> 24u64) as u8, (x >> 16u64) as u8, (x >> 8u64) as u8, x as u8,
    ]
}

/// Big-endian bytes of a `u32`.
pub open spec fn be32(x: u32) -> Seq<u8> {
    seq![(x >> 24u32) as u8, (x >> 16u32) as u8, (x >> 8u32) as u8, x as u8]
}

/// Big-endian (two's complement) bytes of an `i32`.
pub open spec fn be32i(x: i32) -> Seq<u8> {
    be32(x as u32)
}

/// Little-endian bytes of a `u32`.
pub open spec fn le32(x: u32) -> Seq<u8> {
    seq![x as u8, (x >> 8u32) as u8, (x >> 16u32) as u8, (x >> 24u32) as u8]
}

/// Concatenated big-endian encodings of a `u64` sequence.
pub open spec fn be_u64s(s: Seq<u64>) -> Seq<u8>
    decreases s.len(),
{
    if s.len() == 0 {
        Seq::empty()
    } else {
        be_u64s(s.drop_last()) + be64(s.last())
    }
}

/// Concatenated big-endian encodings of an `i32` sequence.
pub open spec fn be_i32s(s: Seq<i32>) -> Seq<u8>
    decreases s.len(),
{
    if s.len() == 0 {
        Seq::empty()
    } else {
        be_i32s(s.drop_last()) + be32i(s.last())
    }
}

/// The `u64` whose big-endian bytes are `b[0..8]`.
pub open spec fn u64_from_be(b: Seq<u8>) -> u64 {
    ((b[0] as u64) << 56u64) | ((b[1] as u64) << 48u64) | ((b[2] as u64) << 40u64)
        | ((b[3] as u64) << 32u64) | ((b[4] as u64) << 24u64) | ((b[5] as u64) << 16u64)
        | ((b[6] as u64) << 8u64) | (b[7] as u64)
}

pub proof fn lemma_be_u64s_len(s: Seq<u64>)
    ensures
        be_u64s(s).len() == 8 * s.len(),
    decreases s.len(),
{
    if s.len() > 0 {
        lemma_be_u64s_len(s.drop_last());
    }
}

pub proof fn lemma_be_i32s_len(s: Seq<i32>)
    ensures
        be_i32s(s).len() == 4 * s.len(),
    decreases s.len(),
{
    if s.len() > 0 {
        lemma_be_i32s_len(s.drop_last());
    }
}

/// Big-endian bytes of a `u64`.
pub fn u64_to_be(x: u64) -> (r: [u8; 8])
    ensures
        r@ == be64(x),
{
    let r = [
        (x >> 56u64) as u8, (x >> 48u64) as u8, (x >> 40u64) as u8, (x >> 32u64) as u8,
        (x >> 24u64) as u8, (x >> 16u64) as u8, (x >> 8u64) as u8, x as u8,
    ];
    assert(r@ =~= be64(x));
    r
}

/// Big-endian bytes of an `i32`.
pub fn i32_to_be(x: i32) -> (r: [u8; 4])
    ensures
        r@ == be32i(x),
{
    let u = x as u32;
    let r = [(u >> 24u32) as u8, (u >> 16u32) as u8, (u >> 8u32) as u8, u as u8];
    assert(r@ =~= be32i(x));
    r
}

/// Append the big-endian bytes of `x` to `out`.
pub fn push_u64_be(out: &mut Vec<u8>, x: u64)
    ensures
        final(out)@ == old(out)@ + be64(x),
{
    let b = u64_to_be(x);
    let mut k: usize = 0;
    let ghost start = out@;
    while k < 8
        invariant
            k <= 8,
            b@ == be64(x),
            out@ == start + b@.take(k as int),
        decreases 8 - k,
    {
        out.push(b[k]);
        proof {
            assert(b@.take(k + 1) =~= b@.take(k as int).push(b@[k as int]));
        }
        k += 1;
    }
    assert(b@.take(8) =~= b@);
}

/// Append the big-endian bytes of `x` to `out`.
pub fn push_i32_be(out: &mut Vec<u8>, x: i32)
    ensures
        final(out)@ == old(out)@ + be32i(x),
{
    let b = i32_to_be(x);
    let mut k: usize = 0;
    let ghost start = out@;
    while k < 4
        invariant
            k <= 4,
            b@ == be32i(x),
            out@ == start + b@.take(k as int),
        decreases 4 - k,
    {
        out.push(b[k]);
        proof {
            assert(b@.take(k + 1) =~= b@.take(k as int).push(b@[k as int]));
        }
        k += 1;
    }
    assert(b@.take(4) =~= b@);
}

/// Append raw bytes to `out`.
pub fn push_bytes(out: &mut Vec<u8>, data: &[u8])
    ensures
        final(out)@ == old(out)@ + data@,
{
    let mut k: usize = 0;
    let ghost start = out@;
    while k < data.len()
        invariant
            k <= data@.len(),
            out@ == start + data@.take(k as int),
        decreases data@.len() - k,
    {
        out.push(data[k]);
        proof {
            assert(data@.take(k + 1) =~= data@.take(k as int).push(data@[k as int]));
        }
        k += 1;
    }
    assert(data@.take(data@.len() as int) =~= data@);
}

/// Big-endian encoding of the first `n` words of `data`.
pub fn u64s_to_be(data: &[u64], n: usize) -> (out: Vec<u8>)
    requires
        n <= data@.len(),
    ensures
        out@ == be_u64s(data@.take(n as int)),
{
    let mut out: Vec<u8> = Vec::new();
    let mut i: usize = 0;
    proof {
        assert(data@.take(0) =~= Seq::<u64>::empty());
    }
    while i < n
        invariant
            i <= n <= data@.len(),
            out@ == be_u64s(data@.take(i as int)),
        decreases n - i,
    {
        push_u64_be(&mut out, data[i]);
        proof {
            assert(data@.take(i + 1).drop_last() =~= data@.take(i as int));
        }
        i += 1;
    }
    out
}

/// Big-endian encoding of a sequence of `i32`.
pub fn i32s_to_be_into(out: &mut Vec<u8>, data: &[i32])
    ensures
        final(out)@ == old(out)@ + be_i32s(data@),
{
    let mut i: usize = 0;
    let ghost start = out@;
    proof {
        assert(data@.take(0) =~= Seq::<i32>::empty());
        assert(start + be_i32s(Seq::<i32>::empty()) =~= start);
    }
    while i < data.len()
        invariant
            i <= data@.len(),
            out@ == start + be_i32s(data@.take(i as int)),
        decreases data@.len() - i,
    {
        push_i32_be(out, data[i]);
        proof {
            assert(data@.take(i + 1).drop_last() =~= data@.take(i as int));
            assert(start + be_i32s(data@.take(i + 1)) =~= start + be_i32s(data@.take(i as int))
                + be32i(data@[i as int]));
        }
        i += 1;
    }
    assert(data@.take(data@.len() as int) =~= data@);
}

/// The `u64` whose big-endian bytes are the first eight of `b`.
pub fn u64_from_be_prefix(b: &[u8]) -> (x: u64)
    requires
        b@.len() >= 8,
    ensures
        x == u64_from_be(b@),
{
    ((b[0] as u64) << 56u64) | ((b[1] as u64) << 48u64) | ((b[2] as u64) << 40u64)
        | ((b[3] as u64) << 32u64) | ((b[4] as u64) << 24u64) | ((b[5] as u64) << 16u64)
        | ((b[6] as u64) << 8u64) | (b[7] as u64)
}

/// Whether two byte strings are equal.
pub fn bytes_equal(a: &[u8], b: &[u8]) -> (r: bool)
    ensures
        r == (a@ == b@),
{
    if a.len() != b.len() {
        return false;
    }
    let mut i: usize = 0;
    while i < a.len()
        invariant
            i <= a@.len() == b@.len(),
            forall|k: int| 0 <= k < i ==> a@[k] == b@[k],
        decreases a@.len() - i,
    {
        if a[i] != b[i] {
            return false;
        }
        i += 1;
    }
    assert(a@ =~= b@);
    true
}

/// A fresh vector holding the bytes of `data`.
pub fn vec_from_slice(data: &[u8]) -> (v: Vec<u8>)
    ensures
        v@ == data@,
{
    let mut v: Vec<u8> = Vec::new();
    push_bytes(&mut v, data);
    assert(v@ =~= data@);
    v
}

} // verus!
