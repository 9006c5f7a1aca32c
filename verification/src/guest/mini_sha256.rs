//! Minimal streaming SHA-256 (FIPS 180-4) used by the guest programs, proved
//! against a functional statement of the standard: padding, message schedule,
//! 64 compression rounds and the big-endian digest.
use vstd::prelude::*;
use crate::encoding::{be32, be64};

verus! {

/// The guest's SHA-256, as a function on byte strings.
pub open spec fn guest_sha256() -> spec_fn(Seq<u8>) -> Seq<u8> {
    |m: Seq<u8>| sha256_spec(m)
}

/// Round constants.
pub const K: [u32; 64] = [
    0x428a2f98, 0x71374491, 0xb5c0fbcf, 0xe9b5dba5, 0x3956c25b, 0x59f111f1, 0x923f82a4, 0xab1c5ed5,
    0xd807aa98, 0x12835b01, 0x243185be, 0x550c7dc3, 0x72be5d74, 0x80deb1fe, 0x9bdc06a7, 0xc19bf174,
    0xe49b69c1, 0xefbe4786, 0x0fc19dc6, 0x240ca1cc, 0x2de92c6f, 0x4a7484aa, 0x5cb0a9dc, 0x76f988da,
    0x983e5152, 0xa831c66d, 0xb00327c8, 0xbf597fc7, 0xc6e00bf3, 0xd5a79147, 0x06ca6351, 0x14292967,
    0x27b70a85, 0x2e1b2138, 0x4d2c6dfc, 0x53380d13, 0x650a7354, 0x766a0abb, 0x81c2c92e, 0x92722c85,
    0xa2bfe8a1, 0xa81a664b, 0xc24b8b70, 0xc76c51a3, 0xd192e819, 0xd6990624, 0xf40e3585, 0x106aa070,
    0x19a4c116, 0x1e376c08, 0x2748774c, 0x34b0bcb5, 0x391c0cb3, 0x4ed8aa4a, 0x5b9cca4f, 0x682e6ff3,
    0x748f82ee, 0x78a5636f, 0x84c87814, 0x8cc70208, 0x90befffa, 0xa4506ceb, 0xbef9a3f7, 0xc67178f2,
];

/// Initial hash value.
pub const H0: [u32; 8] = [
    0x6a09e667, 0xbb67ae85, 0x3c6ef372, 0xa54ff53a, 0x510e527f, 0x9b05688c, 0x1f83d9ab, 0x5be0cd19,
];

// ---------------------------------------------------------------------
// Functional statement of SHA-256
// ---------------------------------------------------------------------

pub open spec fn rotr(x: u32, n: u32) -> u32 {
    (x >> n) | (x << ((32 - n) as u32))
}

pub open spec fn big_sigma0(a: u32) -> u32 {
    rotr(a, 2) ^ rotr(a, 13) ^ rotr(a, 22)
}

pub open spec fn big_sigma1(e: u32) -> u32 {
    rotr(e, 6) ^ rotr(e, 11) ^ rotr(e, 25)
}

pub open spec fn small_sigma0(x: u32) -> u32 {
    rotr(x, 7) ^ rotr(x, 18) ^ (x >> 3u32)
}

pub open spec fn small_sigma1(x: u32) -> u32 {
    rotr(x, 17) ^ rotr(x, 19) ^ (x >> 10u32)
}

pub open spec fn ch(e: u32, f: u32, g: u32) -> u32 {
    (e & f) ^ ((!e) & g)
}

pub open spec fn maj(a: u32, b: u32, c: u32) -> u32 {
    (a & b) ^ (a & c) ^ (b & c)
}

/// The `i`-th big-endian word of a 64-byte block.
pub open spec fn block_word(block: Seq<u8>, i: int) -> u32 {
    ((block[4 * i] as u32) << 24u32) | ((block[4 * i + 1] as u32) << 16u32)
        | ((block[4 * i + 2] as u32) << 8u32) | (block[4 * i + 3] as u32)
}

/// Message schedule `W_t`.
pub open spec fn schedule(block: Seq<u8>, t: int) -> u32
    decreases t,
{
    if t < 16 {
        block_word(block, t)
    } else {
        schedule(block, t - 16).wrapping_add(small_sigma0(schedule(block, t - 15))).wrapping_add(
            schedule(block, t - 7),
        ).wrapping_add(small_sigma1(schedule(block, t - 2)))
    }
}

/// One compression round on the working variables `a..h`.
pub open spec fn round(v: Seq<u32>, k: u32, w: u32) -> Seq<u32> {
    let t1 = v[7].wrapping_add(big_sigma1(v[4])).wrapping_add(ch(v[4], v[5], v[6])).wrapping_add(
        k,
    ).wrapping_add(w);
    let t2 = big_sigma0(v[0]).wrapping_add(maj(v[0], v[1], v[2]));
    seq![t1.wrapping_add(t2), v[0], v[1], v[2], v[3].wrapping_add(t1), v[4], v[5], v[6]]
}

/// The working variables after the first `t` rounds.
pub open spec fn rounds(h: Seq<u32>, block: Seq<u8>, t: int) -> Seq<u32>
    decreases t,
{
    if t <= 0 {
        h
    } else {
        round(rounds(h, block, t - 1), K[t - 1], schedule(block, t - 1))
    }
}

/// The compression function.
pub open spec fn compress(h: Seq<u32>, block: Seq<u8>) -> Seq<u32> {
    let v = rounds(h, block, 64);
    Seq::new(8, |i: int| h[i].wrapping_add(v[i]))
}

/// The hash value after the first `n` 64-byte blocks of `m`.
pub open spec fn process(h: Seq<u32>, m: Seq<u8>, n: int) -> Seq<u32>
    decreases n,
{
    if n <= 0 {
        h
    } else {
        compress(process(h, m, n - 1), m.subrange(64 * (n - 1), 64 * n))
    }
}

/// Number of zero bytes between the `0x80` marker and the length field.
pub open spec fn pad_zeros(len: nat) -> nat {
    let r = len % 64;
    if r < 56 { (55 - r) as nat } else { (119 - r) as nat }
}

/// The padded message: `m || 0x80 || 0^k || be64(8 * |m| mod 2^64)`.
pub open spec fn padded(m: Seq<u8>) -> Seq<u8> {
    m + seq![0x80u8] + Seq::new(pad_zeros(m.len()), |i: int| 0u8) + be64(
        (m.len() as u64).wrapping_mul(8),
    )
}

/// Big-endian bytes of the eight state words.
pub open spec fn digest_bytes(h: Seq<u32>) -> Seq<u8> {
    Seq::new(32, |i: int| be32(h[i / 4])[i % 4])
}

/// SHA-256 of a byte string.
pub open spec fn sha256_spec(m: Seq<u8>) -> Seq<u8> {
    let p = padded(m);
    digest_bytes(process(H0@, p, (p.len() / 64) as int))
}

// ---------------------------------------------------------------------
// Lemmas
// ---------------------------------------------------------------------

/// The hash value of the first `n` blocks depends only on those blocks.
pub proof fn lemma_process_prefix(h: Seq<u32>, m1: Seq<u8>, m2: Seq<u8>, n: int)
    requires
        0 <= n,
        64 * n <= m1.len(),
        64 * n <= m2.len(),
        m1.take(64 * n) == m2.take(64 * n),
    ensures
        process(h, m1, n) == process(h, m2, n),
    decreases n,
{
    if n > 0 {
        assert(m1.take(64 * (n - 1)) =~= m1.take(64 * n).take(64 * (n - 1)));
        assert(m2.take(64 * (n - 1)) =~= m2.take(64 * n).take(64 * (n - 1)));
        lemma_process_prefix(h, m1, m2, n - 1);
        assert(m1.subrange(64 * (n - 1), 64 * n) =~= m1.take(64 * n).subrange(64 * (n - 1), 64 * n));
        assert(m2.subrange(64 * (n - 1), 64 * n) =~= m2.take(64 * n).subrange(64 * (n - 1), 64 * n));
    }
}

/// Byte `k` of the padded message.
proof fn lemma_padded_index(m: Seq<u8>, k: int)
    requires
        0 <= k < padded(m).len(),
    ensures
        k < m.len() ==> padded(m)[k] == m[k],
        k == m.len() ==> padded(m)[k] == 0x80u8,
        m.len() < k <= m.len() + pad_zeros(m.len()) ==> padded(m)[k] == 0u8,
        m.len() + pad_zeros(m.len()) < k ==> padded(m)[k] == be64((m.len() as u64).wrapping_mul(8))[k
            - m.len() - 1 - pad_zeros(m.len())],
{
}

proof fn lemma_padded_len(m: Seq<u8>)
    ensures
        padded(m).len() % 64 == 0,
        padded(m).len() == m.len() - m.len() % 64 + if m.len() % 64 < 56 { 64int } else { 128int },
{
}

// ---------------------------------------------------------------------
// Executable hasher
// ---------------------------------------------------------------------

fn rotr_exec(x: u32, n: u32) -> (r: u32)
    requires
        0 < n < 32,
    ensures
        r == rotr(x, n),
{
    (x >> n) | (x << (32 - n))
}

/// Streaming SHA-256 state: the chaining value, a partial block and the
/// number of bytes absorbed so far.
pub struct MiniSha256 {
    h: [u32; 8],
    buf: [u8; 64],
    buf_len: usize,
    total_len: u64,
    absorbed: Ghost<Seq<u8>>,
}

impl View for MiniSha256 {
    type V = Seq<u8>;

    /// The bytes absorbed so far.
    closed spec fn view(&self) -> Seq<u8> {
        self.absorbed@
    }
}

impl MiniSha256 {
    /// The state holds the hash of the full blocks absorbed, and the rest in `buf`.
    pub closed spec fn wf(&self) -> bool {
        let m = self.absorbed@;
        &&& self.buf_len < 64
        &&& self.total_len == m.len()
        &&& m.len() % 64 == self.buf_len
        &&& self.h@ == process(H0@, m, (m.len() / 64) as int)
        &&& forall|i: int| 0 <= i < self.buf_len ==> self.buf[i] == m[m.len() - self.buf_len + i]
    }

    pub fn new() -> (s: Self)
        ensures
            s.wf(),
            s@ == Seq::<u8>::empty(),
    {
        MiniSha256 { h: H0, buf: [0u8; 64], buf_len: 0, total_len: 0, absorbed: Ghost(Seq::empty()) }
    }

    /// Absorb `data`.
    pub fn update(&mut self, data: &[u8])
        requires
            old(self).wf(),
            old(self)@.len() + data@.len() <= u64::MAX,
        ensures
            final(self).wf(),
            final(self)@ == old(self)@ + data@,
    {
        let ghost m0 = self.absorbed@;
        self.total_len = self.total_len.wrapping_add(data.len() as u64);
        let mut idx: usize = 0;
        while idx < data.len()
            invariant
                idx <= data@.len(),
                m0.len() + data@.len() <= u64::MAX,
                self.absorbed@ == m0 + data@.take(idx as int),
                self.total_len == m0.len() + data@.len(),
                self.buf_len < 64,
                self.absorbed@.len() % 64 == self.buf_len,
                self.h@ == process(H0@, self.absorbed@, (self.absorbed@.len() / 64) as int),
                forall|i: int| 0 <= i < self.buf_len ==> self.buf[i]
                    == self.absorbed@[self.absorbed@.len() - self.buf_len + i],
            decreases data@.len() - idx,
        {
            let room = 64 - self.buf_len;
            let rest = data.len() - idx;
            let take = if room < rest { room } else { rest };
            let ghost m_before = self.absorbed@;
            let ghost bl0 = self.buf_len;
            let ghost h_before = self.h;
            let ghost tl_before = self.total_len;
            let mut j: usize = 0;
            while j < take
                invariant
                    j <= take,
                    take <= 64 - bl0,
                    idx + take <= data.len(),
                    self.buf_len == bl0,
                    self.h == h_before,
                    self.total_len == tl_before,
                    self.absorbed@ == m_before,
                    bl0 < 64,
                    m_before.len() % 64 == bl0,
                    forall|i: int| 0 <= i < bl0 ==> self.buf[i] == m_before[m_before.len() - bl0 + i],
                    forall|i: int| bl0 <= i < bl0 + j ==> self.buf[i] == data@[idx + i - bl0],
                decreases take - j,
            {
                self.buf[self.buf_len + j] = data[idx + j];
                j += 1;
            }
            self.buf_len = self.buf_len + take;
            idx = idx + take;
            let ghost q: int = (m_before.len() / 64) as int;
            proof {
                self.absorbed@ = m0 + data@.take(idx as int);
                let m = self.absorbed@;
                assert(m =~= m_before + data@.subrange(idx - take, idx as int));
                vstd::arithmetic::div_mod::lemma_fundamental_div_mod(m_before.len() as int, 64);
                if self.buf_len < 64 {
                    vstd::arithmetic::div_mod::lemma_fundamental_div_mod_converse(
                        m.len() as int, 64, q, self.buf_len as int);
                } else {
                    vstd::arithmetic::div_mod::lemma_fundamental_div_mod_converse(
                        m.len() as int, 64, q + 1, 0);
                }
                assert(m.take(64 * q) =~= m_before.take(64 * q));
                lemma_process_prefix(H0@, m_before, m, q);
                assert forall|i: int| 0 <= i < self.buf_len implies self.buf[i]
                    == m[m.len() - self.buf_len + i] by {
                    if i < bl0 {
                    } else {
                        assert(self.buf[i] == data@[idx - take + (i - bl0)]);
                    }
                }
            }
            if self.buf_len == 64 {
                let block = self.buf;
                self.compress(&block);
                self.buf_len = 0;
                proof {
                    let m = self.absorbed@;
                    assert(block@ =~= m.subrange(64 * q, 64 * (q + 1)));
                }
            }
        }
        assert(data@.take(data@.len() as int) =~= data@);
    }

    /// Pad, process the final block(s) and return the big-endian digest.
    pub fn finalize(self) -> (d: [u8; 32])
        requires
            self.wf(),
        ensures
            d@ == sha256_spec(self@),
    {
        let mut s = self;
        let ghost m = s.absorbed@;
        let ghost p = padded(m);
        let ghost r = s.buf_len as int;
        let ghost nfull: int = (m.len() / 64) as int;
        let total_bits = s.total_len.wrapping_mul(8);
        proof {
            lemma_padded_len(m);
            assert(m.take(64 * nfull) =~= p.take(64 * nfull));
            lemma_process_prefix(H0@, m, p, nfull);
            assert forall|i: int| 0 <= i < r implies s.buf[i] == p[64 * nfull + i] by {
                lemma_padded_index(m, 64 * nfull + i);
            }
            lemma_padded_index(m, 64 * nfull + r);
        }
        s.buf[s.buf_len] = 0x80;
        s.buf_len += 1;
        let ghost mut done: int = nfull;
        if s.buf_len > 56 {
            let mut k = s.buf_len;
            while k < 64
                invariant
                    s.buf_len == r + 1,
                    s.h@ == process(H0@, p, nfull),
                    57 <= r + 1 <= k <= 64,
                    r == m.len() % 64,
                    nfull == m.len() / 64,
                    p == padded(m),
                    forall|i: int| 0 <= i < k ==> s.buf[i] == p[64 * nfull + i],
                decreases 64 - k,
            {
                proof {
                    lemma_padded_index(m, 64 * nfull + k);
                }
                s.buf[k] = 0;
                k += 1;
            }
            let block = s.buf;
            proof {
                assert(block@ =~= p.subrange(64 * nfull, 64 * nfull + 64));
            }
            s.compress(&block);
            s.buf_len = 0;
            proof {
                done = nfull + 1;
            }
        }
        let ghost tail = p.subrange(64 * done, 64 * done + 64);
        proof {
            assert(p.len() == 64 * done + 64);
            assert forall|i: int| s.buf_len <= i < 56 implies #[trigger] tail[i] == 0 by {
                lemma_padded_index(m, 64 * done + i);
            }
            assert forall|i: int| 56 <= i < 64 implies #[trigger] tail[i] == be64(total_bits)[i - 56] by {
                lemma_padded_index(m, 64 * done + i);
            }
            assert forall|i: int| 0 <= i < s.buf_len implies s.buf[i] == #[trigger] tail[i] by {
            }
        }
        let mut k = s.buf_len;
        while k < 56
            invariant
                s.buf_len <= k <= 56,
                s.h@ == process(H0@, p, done),
                forall|i: int| 0 <= i < k ==> s.buf[i] == #[trigger] tail[i],
                forall|i: int| s.buf_len <= i < 56 ==> #[trigger] tail[i] == 0,
            decreases 56 - k,
        {
            s.buf[k] = 0;
            k += 1;
        }
        let lenb = crate::encoding::u64_to_be(total_bits);
        let mut k: usize = 0;
        while k < 8
            invariant
                k <= 8,
                s.h@ == process(H0@, p, done),
                lenb@ == be64(total_bits),
                forall|i: int| 0 <= i < 56 + k ==> s.buf[i] == #[trigger] tail[i],
                forall|i: int| 56 <= i < 64 ==> #[trigger] tail[i] == be64(total_bits)[i - 56],
            decreases 8 - k,
        {
            s.buf[56 + k] = lenb[k];
            k += 1;
        }
        let block = s.buf;
        proof {
            assert(block@ =~= tail);
            assert(done + 1 == p.len() / 64);
        }
        s.compress(&block);
        let mut out = [0u8; 32];
        let mut i: usize = 0;
        while i < 8
            invariant
                i <= 8,
                forall|q: int| 0 <= q < 4 * i ==> out[q] == be32(s.h@[q / 4])[q % 4],
            decreases 8 - i,
        {
            let w = s.h[i];
            out[i * 4] = (w >> 24u32) as u8;
            out[i * 4 + 1] = (w >> 16u32) as u8;
            out[i * 4 + 2] = (w >> 8u32) as u8;
            out[i * 4 + 3] = w as u8;
            i += 1;
        }
        assert(out@ =~= digest_bytes(s.h@));
        out
    }

    /// Apply the compression function to the chaining value.
    fn compress(&mut self, block: &[u8; 64])
        ensures
            final(self).h@ == compress(old(self).h@, block@),
            final(self).buf == old(self).buf,
            final(self).buf_len == old(self).buf_len,
            final(self).total_len == old(self).total_len,
            final(self).absorbed == old(self).absorbed,
    {
        let mut w = [0u32; 64];
        let mut i: usize = 0;
        while i < 16
            invariant
                i <= 16,
                forall|t: int| 0 <= t < i ==> w[t] == schedule(block@, t),
            decreases 16 - i,
        {
            w[i] = ((block[i * 4] as u32) << 24u32) | ((block[i * 4 + 1] as u32) << 16u32)
                | ((block[i * 4 + 2] as u32) << 8u32) | (block[i * 4 + 3] as u32);
            i += 1;
        }
        while i < 64
            invariant
                16 <= i <= 64,
                forall|t: int| 0 <= t < i ==> w[t] == schedule(block@, t),
            decreases 64 - i,
        {
            let s0 = rotr_exec(w[i - 15], 7) ^ rotr_exec(w[i - 15], 18) ^ (w[i - 15] >> 3u32);
            let s1 = rotr_exec(w[i - 2], 17) ^ rotr_exec(w[i - 2], 19) ^ (w[i - 2] >> 10u32);
            w[i] = w[i - 16].wrapping_add(s0).wrapping_add(w[i - 7]).wrapping_add(s1);
            i += 1;
        }
        let mut a = self.h[0];
        let mut b = self.h[1];
        let mut c = self.h[2];
        let mut d = self.h[3];
        let mut e = self.h[4];
        let mut f = self.h[5];
        let mut g = self.h[6];
        let mut hh = self.h[7];
        let mut t: usize = 0;
        while t < 64
            invariant
                t <= 64,
                forall|u: int| 0 <= u < 64 ==> w[u] == schedule(block@, u),
                seq![a, b, c, d, e, f, g, hh] == rounds(self.h@, block@, t as int),
            decreases 64 - t,
        {
            let s1 = rotr_exec(e, 6) ^ rotr_exec(e, 11) ^ rotr_exec(e, 25);
            let chv = (e & f) ^ ((!e) & g);
            let t1 = hh.wrapping_add(s1).wrapping_add(chv).wrapping_add(K[t]).wrapping_add(w[t]);
            let s0 = rotr_exec(a, 2) ^ rotr_exec(a, 13) ^ rotr_exec(a, 22);
            let mj = (a & b) ^ (a & c) ^ (b & c);
            let t2 = s0.wrapping_add(mj);
            hh = g;
            g = f;
            f = e;
            e = d.wrapping_add(t1);
            d = c;
            c = b;
            b = a;
            a = t1.wrapping_add(t2);
            t += 1;
        }
        let ghost h_old = self.h@;
        self.h[0] = self.h[0].wrapping_add(a);
        self.h[1] = self.h[1].wrapping_add(b);
        self.h[2] = self.h[2].wrapping_add(c);
        self.h[3] = self.h[3].wrapping_add(d);
        self.h[4] = self.h[4].wrapping_add(e);
        self.h[5] = self.h[5].wrapping_add(f);
        self.h[6] = self.h[6].wrapping_add(g);
        self.h[7] = self.h[7].wrapping_add(hh);
        assert(self.h@ =~= compress(h_old, block@));
    }
}

/// SHA-256 of the big-endian encoding of the first `n` words of `data`.
pub fn sha256_u64_prefix(data: &[u64], n: usize) -> (d: [u8; 32])
    requires
        n <= data@.len(),
    ensures
        d@ == sha256_spec(crate::encoding::be_u64s(data@.take(n as int))),
{
    let bytes = crate::encoding::u64s_to_be(data, n);
    let n_bytes: usize = bytes.len();
    assert(n_bytes <= u64::MAX);

    let mut h = MiniSha256::new();
    h.update(bytes.as_slice());
    assert(h@ =~= bytes@);
    h.finalize()
}

/// The digest does not depend on how the message is split into `update`
/// calls: if the absorbed bytes start empty and each call appends the next
/// chunk (as `new` and `update` ensure), the bytes absorbed after the last
/// chunk are the whole message, so `finalize` gives its SHA-256.
pub proof fn law_digest_is_split_independent(views: Seq<Seq<u8>>, chunks: Seq<Seq<u8>>)
    requires
        views.len() == chunks.len() + 1,
        views[0] == Seq::<u8>::empty(),
        forall|i: int| 0 <= i < chunks.len() ==> #[trigger] views[i + 1] == views[i] + chunks[i],
    ensures
        views.last() == chunks.flatten(),
        sha256_spec(views.last()) == sha256_spec(chunks.flatten()),
{
    assert forall|k: int| 0 <= k <= chunks.len() implies #[trigger] views[k] == chunks.take(k).flatten() by {
        lemma_views_are_prefix_flattens(views, chunks, k);
    }
    assert(chunks.take(chunks.len() as int) =~= chunks);
}

proof fn lemma_views_are_prefix_flattens(views: Seq<Seq<u8>>, chunks: Seq<Seq<u8>>, k: int)
    requires
        views.len() == chunks.len() + 1,
        views[0] == Seq::<u8>::empty(),
        forall|i: int| 0 <= i < chunks.len() ==> #[trigger] views[i + 1] == views[i] + chunks[i],
        0 <= k <= chunks.len(),
    ensures
        views[k] == chunks.take(k).flatten(),
    decreases k,
{
    if k == 0 {
        assert(chunks.take(0) =~= Seq::<Seq<u8>>::empty());
    } else {
        lemma_views_are_prefix_flattens(views, chunks, k - 1);
        assert(chunks.take(k) =~= chunks.take(k - 1).push(chunks[k - 1]));
        chunks.take(k - 1).lemma_flatten_push(chunks[k - 1]);
        assert(views[(k - 1) + 1] == views[k - 1] + chunks[k - 1]);
    }
}

} // verus!
