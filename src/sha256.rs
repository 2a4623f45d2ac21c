//! The 256-bit hash family: 32-bit words, 64 rounds, 64-byte blocks.
use vstd::prelude::*;
use crate::bytes::{
    be32_at, be32_bytes, be64_bytes, extend_bytes, extend_zeros, push_be32, push_be64, read_be32,
    zeros,
};

verus! {

/// Round constants.
pub const K256: [u32; 64] = [
    0x428a2f98, 0x71374491, 0xb5c0fbcf, 0xe9b5dba5, 0x3956c25b, 0x59f111f1, 0x923f82a4, 0xab1c5ed5,
    0xd807aa98, 0x12835b01, 0x243185be, 0x550c7dc3, 0x72be5d74, 0x80deb1fe, 0x9bdc06a7, 0xc19bf174,
    0xe49b69c1, 0xefbe4786, 0x0fc19dc6, 0x240ca1cc, 0x2de92c6f, 0x4a7484aa, 0x5cb0a9dc, 0x76f988da,
    0x983e5152, 0xa831c66d, 0xb00327c8, 0xbf597fc7, 0xc6e00bf3, 0xd5a79147, 0x06ca6351, 0x14292967,
    0x27b70a85, 0x2e1b2138, 0x4d2c6dfc, 0x53380d13, 0x650a7354, 0x766a0abb, 0x81c2c92e, 0x92722c85,
    0xa2bfe8a1, 0xa81a664b, 0xc24b8b70, 0xc76c51a3, 0xd192e819, 0xd6990624, 0xf40e3585, 0x106aa070,
    0x19a4c116, 0x1e376c08, 0x2748774c, 0x34b0bcb5, 0x391c0cb3, 0x4ed8aa4a, 0x5b9cca4f, 0x682e6ff3,
    0x748f82ee, 0x78a5636f, 0x84c87814, 0x8cc70208, 0x90befffa, 0xa4506ceb, 0xbef9a3f7, 0xc67178f2,
];

/// Initial hash value.
pub const H256: [u32; 8] = [
    0x6a09e667, 0xbb67ae85, 0x3c6ef372, 0xa54ff53a, 0x510e527f, 0x9b05688c, 0x1f83d9ab, 0x5be0cd19,
];

/// The eight working variables a..h of the compression rounds.
pub type Vars32 = (u32, u32, u32, u32, u32, u32, u32, u32);

pub open spec fn rotr(x: u32, n: u32) -> u32 {
    (x >> n) | (x << ((32 - n) as u32))
}

pub open spec fn ssig0(x: u32) -> u32 {
    rotr(x, 7) ^ rotr(x, 18) ^ (x >> 3u32)
}

pub open spec fn ssig1(x: u32) -> u32 {
    rotr(x, 17) ^ rotr(x, 19) ^ (x >> 10u32)
}

pub open spec fn bsig0(x: u32) -> u32 {
    rotr(x, 2) ^ rotr(x, 13) ^ rotr(x, 22)
}

pub open spec fn bsig1(x: u32) -> u32 {
    rotr(x, 6) ^ rotr(x, 11) ^ rotr(x, 25)
}

pub open spec fn ch(e: u32, f: u32, g: u32) -> u32 {
    (e & f) ^ (!e & g)
}

pub open spec fn maj(a: u32, b: u32, c: u32) -> u32 {
    (a & b) ^ (a & c) ^ (b & c)
}

/// Word `t` of the message schedule of the 64-byte `block`.
pub open spec fn schedule(block: Seq<u8>, t: int) -> u32
    decreases t,
{
    if t < 16 {
        be32_at(block, 4 * t)
    } else {
        schedule(block, t - 16).wrapping_add(ssig0(schedule(block, t - 15))).wrapping_add(
            schedule(block, t - 7),
        ).wrapping_add(ssig1(schedule(block, t - 2)))
    }
}

/// One compression round with round constant `k` and schedule word `w`.
pub open spec fn round(v: Vars32, k: u32, w: u32) -> Vars32 {
    let t1 = v.7.wrapping_add(bsig1(v.4)).wrapping_add(ch(v.4, v.5, v.6)).wrapping_add(
        k,
    ).wrapping_add(w);
    let t2 = bsig0(v.0).wrapping_add(maj(v.0, v.1, v.2));
    (t1.wrapping_add(t2), v.0, v.1, v.2, v.3.wrapping_add(t1), v.4, v.5, v.6)
}

/// The working variables after the first `n` rounds on `block`, starting from `h`.
pub open spec fn rounds(h: Seq<u32>, block: Seq<u8>, n: int) -> Vars32
    decreases n,
{
    if n <= 0 {
        (h[0], h[1], h[2], h[3], h[4], h[5], h[6], h[7])
    } else {
        round(rounds(h, block, n - 1), K256[n - 1], schedule(block, n - 1))
    }
}

/// The hash value after absorbing one 64-byte block.
pub open spec fn compress(h: Seq<u32>, block: Seq<u8>) -> Seq<u32> {
    let v = rounds(h, block, 64);
    seq![
        h[0].wrapping_add(v.0), h[1].wrapping_add(v.1), h[2].wrapping_add(v.2),
        h[3].wrapping_add(v.3), h[4].wrapping_add(v.4), h[5].wrapping_add(v.5),
        h[6].wrapping_add(v.6), h[7].wrapping_add(v.7),
    ]
}

/// The padded message: `0x80`, zeros up to 56 mod 64, and the bit length (mod 2^64).
pub open spec fn pad(m: Seq<u8>) -> Seq<u8> {
    m + seq![0x80u8] + zeros(((119 - m.len() % 64) % 64) as nat) + be64_bytes(
        (8 * m.len()) as u64,
    )
}

/// The hash value after the first `n` blocks of `p`.
pub open spec fn absorb(p: Seq<u8>, n: nat) -> Seq<u32>
    decreases n,
{
    if n == 0 {
        H256@
    } else {
        compress(absorb(p, (n - 1) as nat), p.subrange(64 * (n - 1), 64 * n as int))
    }
}

/// The words of `h`, each big-endian.
pub open spec fn words_bytes(h: Seq<u32>) -> Seq<u8>
    decreases h.len(),
{
    if h.len() == 0 {
        Seq::empty()
    } else {
        words_bytes(h.drop_last()) + be32_bytes(h.last())
    }
}

/// The 32-byte digest of `m`.
pub open spec fn sha256_spec(m: Seq<u8>) -> Seq<u8> {
    let p = pad(m);
    words_bytes(absorb(p, p.len() / 64))
}

pub proof fn lemma_words_bytes_len(h: Seq<u32>)
    ensures
        words_bytes(h).len() == 4 * h.len(),
    decreases h.len(),
{
    if h.len() > 0 {
        lemma_words_bytes_len(h.drop_last());
    }
}

pub proof fn lemma_absorb_len(p: Seq<u8>, n: nat)
    ensures
        absorb(p, n).len() == 8,
{
    if n > 0 {
        assert(absorb(p, n).len() == 8);
    } else {
        assert(H256@.len() == 8);
    }
}

/// A digest is always 32 bytes long.
pub proof fn lemma_sha256_len(m: Seq<u8>)
    ensures
        sha256_spec(m).len() == 32,
{
    let p = pad(m);
    lemma_absorb_len(p, p.len() / 64);
    lemma_words_bytes_len(absorb(p, p.len() / 64));
}

fn rotr_exec(x: u32, n: u32) -> (r: u32)
    requires
        0 < n < 32,
    ensures
        r == rotr(x, n),
{
    (x >> n) | (x << (32 - n))
}

fn ssig0_exec(x: u32) -> (r: u32)
    ensures
        r == ssig0(x),
{
    rotr_exec(x, 7) ^ rotr_exec(x, 18) ^ (x >> 3u32)
}

fn ssig1_exec(x: u32) -> (r: u32)
    ensures
        r == ssig1(x),
{
    rotr_exec(x, 17) ^ rotr_exec(x, 19) ^ (x >> 10u32)
}

fn bsig0_exec(x: u32) -> (r: u32)
    ensures
        r == bsig0(x),
{
    rotr_exec(x, 2) ^ rotr_exec(x, 13) ^ rotr_exec(x, 22)
}

fn bsig1_exec(x: u32) -> (r: u32)
    ensures
        r == bsig1(x),
{
    rotr_exec(x, 6) ^ rotr_exec(x, 11) ^ rotr_exec(x, 25)
}

/// The 64-word message schedule of the block at `msg[off..off + 64]`.
fn expand(msg: &[u8], off: usize) -> (w: Vec<u32>)
    requires
        off + 64 <= msg@.len(),
    ensures
        w@.len() == 64,
        forall|t: int|
            0 <= t < 64 ==> w@[t] == schedule(msg@.subrange(off as int, off + 64), t),
{
    let ghost block = msg@.subrange(off as int, off + 64);
    let len = msg.len();
    let mut w: Vec<u32> = Vec::new();
    let mut t: usize = 0;
    while t < 16
        invariant
            t <= 16,
            off + 64 <= msg@.len() == len,
            block == msg@.subrange(off as int, off + 64),
            w@.len() == t,
            forall|j: int| 0 <= j < t ==> w@[j] == schedule(block, j),
        decreases 16 - t,
    {
        let x = read_be32(msg, off + 4 * t);
        assert(be32_at(block, 4 * t) == be32_at(msg@, off + 4 * t));
        w.push(x);
        t += 1;
    }
    while t < 64
        invariant
            16 <= t <= 64,
            w@.len() == t,
            forall|j: int| 0 <= j < t ==> w@[j] == schedule(block, j),
        decreases 64 - t,
    {
        let x = w[t - 16].wrapping_add(ssig0_exec(w[t - 15])).wrapping_add(w[t - 7]).wrapping_add(
            ssig1_exec(w[t - 2]),
        );
        assert(w@[t - 16] == schedule(block, t - 16));
        assert(w@[t - 15] == schedule(block, t - 15));
        assert(w@[t - 7] == schedule(block, t - 7));
        assert(w@[t - 2] == schedule(block, t - 2));
        assert(x == schedule(block, t as int));
        w.push(x);
        t += 1;
    }
    w
}

/// The hash value `h` after absorbing the block at `msg[off..off + 64]`.
fn compress_exec(h: &[u32], msg: &[u8], off: usize) -> (r: Vec<u32>)
    requires
        h@.len() == 8,
        off + 64 <= msg@.len(),
    ensures
        r@ == compress(h@, msg@.subrange(off as int, off + 64)),
{
    let ghost block = msg@.subrange(off as int, off + 64);
    let w = expand(msg, off);
    let k = K256;
    let mut a = h[0];
    let mut b = h[1];
    let mut c = h[2];
    let mut d = h[3];
    let mut e = h[4];
    let mut f = h[5];
    let mut g = h[6];
    let mut hh = h[7];
    let mut t: usize = 0;
    while t < 64
        invariant
            t <= 64,
            w@.len() == 64,
            k@ == K256@,
            forall|j: int| 0 <= j < 64 ==> w@[j] == schedule(block, j),
            (a, b, c, d, e, f, g, hh) == rounds(h@, block, t as int),
        decreases 64 - t,
    {
        let t1 = hh.wrapping_add(bsig1_exec(e)).wrapping_add((e & f) ^ (!e & g)).wrapping_add(
            k[t],
        ).wrapping_add(w[t]);
        let t2 = bsig0_exec(a).wrapping_add((a & b) ^ (a & c) ^ (b & c));
        hh = g;
        g = f;
        f = e;
        e = d.wrapping_add(t1);
        d = c;
        c = b;
        b = a;
        a = t1.wrapping_add(t2);
        t += 1;
    }
    let mut r: Vec<u32> = Vec::new();
    r.push(h[0].wrapping_add(a));
    r.push(h[1].wrapping_add(b));
    r.push(h[2].wrapping_add(c));
    r.push(h[3].wrapping_add(d));
    r.push(h[4].wrapping_add(e));
    r.push(h[5].wrapping_add(f));
    r.push(h[6].wrapping_add(g));
    r.push(h[7].wrapping_add(hh));
    assert(r@ =~= compress(h@, block));
    r
}

/// The SHA-256 digest of `data`: 32 bytes.
pub fn sha256_bytes(data: &[u8]) -> (r: Vec<u8>)
    ensures
        r@ == sha256_spec(data@),
        r@.len() == 32,
{
    let mut msg: Vec<u8> = Vec::new();
    extend_bytes(&mut msg, data);
    msg.push(0x80u8);
    extend_zeros(&mut msg, (119 - data.len() % 64) % 64);
    push_be64(&mut msg, #[verifier::truncate] (((data.len() as u128) * 8) as u64));
    assert(msg@ =~= pad(data@));
    let mlen = msg.len();
    let nblocks = mlen / 64;
    let init = H256;
    let mut h: Vec<u32> = Vec::new();
    let mut i: usize = 0;
    while i < 8
        invariant
            i <= 8,
            init@ == H256@,
            h@ == H256@.subrange(0, i as int),
        decreases 8 - i,
    {
        h.push(init[i]);
        i += 1;
        assert(h@ =~= H256@.subrange(0, i as int));
    }
    assert(h@ =~= H256@);
    let mut j: usize = 0;
    while j < nblocks
        invariant
            j <= nblocks,
            nblocks == mlen / 64,
            mlen == msg@.len(),
            msg@ == pad(data@),
            h@ == absorb(msg@, j as nat),
            h@.len() == 8,
        decreases nblocks - j,
    {
        assert(64 * j + 64 <= msg@.len()) by (nonlinear_arith)
            requires
                j < nblocks,
                nblocks == msg@.len() / 64,
        ;
        h = compress_exec(h.as_slice(), msg.as_slice(), 64 * j);
        j += 1;
    }
    let mut out: Vec<u8> = Vec::new();
    let mut i: usize = 0;
    while i < 8
        invariant
            i <= 8,
            h@.len() == 8,
            out@ == words_bytes(h@.subrange(0, i as int)),
        decreases 8 - i,
    {
        push_be32(&mut out, h[i]);
        i += 1;
        assert(h@.subrange(0, i as int).drop_last() =~= h@.subrange(0, i - 1));
    }
    assert(h@.subrange(0, 8) =~= h@);
    proof {
        lemma_sha256_len(data@);
    }
    out
}

} // verus!
