//! The 512-bit hash family: 64-bit words, 80 rounds, 128-byte blocks.
use vstd::prelude::*;
use crate::bytes::{
    be64_at, be64_bytes, extend_bytes, extend_zeros, push_be64, read_be64, zeros,
};

verus! {

/// Round constants.
pub const K512: [u64; 80] = [
    0x428a2f98d728ae22, 0x7137449123ef65cd, 0xb5c0fbcfec4d3b2f, 0xe9b5dba58189dbbc,
    0x3956c25bf348b538, 0x59f111f1b605d019, 0x923f82a4af194f9b, 0xab1c5ed5da6d8118,
    0xd807aa98a3030242, 0x12835b0145706fbe, 0x243185be4ee4b28c, 0x550c7dc3d5ffb4e2,
    0x72be5d74f27b896f, 0x80deb1fe3b1696b1, 0x9bdc06a725c71235, 0xc19bf174cf692694,
    0xe49b69c19ef14ad2, 0xefbe4786384f25e3, 0x0fc19dc68b8cd5b5, 0x240ca1cc77ac9c65,
    0x2de92c6f592b0275, 0x4a7484aa6ea6e483, 0x5cb0a9dcbd41fbd4, 0x76f988da831153b5,
    0x983e5152ee66dfab, 0xa831c66d2db43210, 0xb00327c898fb213f, 0xbf597fc7beef0ee4,
    0xc6e00bf33da88fc2, 0xd5a79147930aa725, 0x06ca6351e003826f, 0x142929670a0e6e70,
    0x27b70a8546d22ffc, 0x2e1b21385c26c926, 0x4d2c6dfc5ac42aed, 0x53380d139d95b3df,
    0x650a73548baf63de, 0x766a0abb3c77b2a8, 0x81c2c92e47edaee6, 0x92722c851482353b,
    0xa2bfe8a14cf10364, 0xa81a664bbc423001, 0xc24b8b70d0f89791, 0xc76c51a30654be30,
    0xd192e819d6ef5218, 0xd69906245565a910, 0xf40e35855771202a, 0x106aa07032bbd1b8,
    0x19a4c116b8d2d0c8, 0x1e376c085141ab53, 0x2748774cdf8eeb99, 0x34b0bcb5e19b48a8,
    0x391c0cb3c5c95a63, 0x4ed8aa4ae3418acb, 0x5b9cca4f7763e373, 0x682e6ff3d6b2b8a3,
    0x748f82ee5defb2fc, 0x78a5636f43172f60, 0x84c87814a1f0ab72, 0x8cc702081a6439ec,
    0x90befffa23631e28, 0xa4506cebde82bde9, 0xbef9a3f7b2c67915, 0xc67178f2e372532b,
    0xca273eceea26619c, 0xd186b8c721c0c207, 0xeada7dd6cde0eb1e, 0xf57d4f7fee6ed178,
    0x06f067aa72176fba, 0x0a637dc5a2c898a6, 0x113f9804bef90dae, 0x1b710b35131c471b,
    0x28db77f523047d84, 0x32caab7b40c72493, 0x3c9ebe0a15c9bebc, 0x431d67c49c100d4c,
    0x4cc5d4becb3e42b6, 0x597f299cfc657e2a, 0x5fcb6fab3ad6faec, 0x6c44198c4a475817,
];

/// Initial hash value.
pub const H512: [u64; 8] = [
    0x6a09e667f3bcc908, 0xbb67ae8584caa73b, 0x3c6ef372fe94f82b, 0xa54ff53a5f1d36f1,
    0x510e527fade682d1, 0x9b05688c2b3e6c1f, 0x1f83d9abfb41bd6b, 0x5be0cd19137e2179,
];

/// The eight working variables a..h of the compression rounds.
pub type Vars64 = (u64, u64, u64, u64, u64, u64, u64, u64);

pub open spec fn rotr(x: u64, n: u64) -> u64 {
    (x >> n) | (x << ((64 - n) as u64))
}

pub open spec fn ssig0(x: u64) -> u64 {
    rotr(x, 1) ^ rotr(x, 8) ^ (x >> 7u64)
}

pub open spec fn ssig1(x: u64) -> u64 {
    rotr(x, 19) ^ rotr(x, 61) ^ (x >> 6u64)
}

pub open spec fn bsig0(x: u64) -> u64 {
    rotr(x, 28) ^ rotr(x, 34) ^ rotr(x, 39)
}

pub open spec fn bsig1(x: u64) -> u64 {
    rotr(x, 14) ^ rotr(x, 18) ^ rotr(x, 41)
}

pub open spec fn ch(e: u64, f: u64, g: u64) -> u64 {
    (e & f) ^ (!e & g)
}

pub open spec fn maj(a: u64, b: u64, c: u64) -> u64 {
    (a & b) ^ (a & c) ^ (b & c)
}

/// Word `t` of the message schedule of the 128-byte `block`.
pub open spec fn schedule(block: Seq<u8>, t: int) -> u64
    decreases t,
{
    if t < 16 {
        be64_at(block, 8 * t)
    } else {
        schedule(block, t - 16).wrapping_add(ssig0(schedule(block, t - 15))).wrapping_add(
            schedule(block, t - 7),
        ).wrapping_add(ssig1(schedule(block, t - 2)))
    }
}

/// One compression round with round constant `k` and schedule word `w`.
pub open spec fn round(v: Vars64, k: u64, w: u64) -> Vars64 {
    let t1 = v.7.wrapping_add(bsig1(v.4)).wrapping_add(ch(v.4, v.5, v.6)).wrapping_add(
        k,
    ).wrapping_add(w);
    let t2 = bsig0(v.0).wrapping_add(maj(v.0, v.1, v.2));
    (t1.wrapping_add(t2), v.0, v.1, v.2, v.3.wrapping_add(t1), v.4, v.5, v.6)
}

/// The working variables after the first `n` rounds on `block`, starting from `h`.
pub open spec fn rounds(h: Seq<u64>, block: Seq<u8>, n: int) -> Vars64
    decreases n,
{
    if n <= 0 {
        (h[0], h[1], h[2], h[3], h[4], h[5], h[6], h[7])
    } else {
        round(rounds(h, block, n - 1), K512[n - 1], schedule(block, n - 1))
    }
}

/// The hash value after absorbing one 128-byte block.
pub open spec fn compress(h: Seq<u64>, block: Seq<u8>) -> Seq<u64> {
    let v = rounds(h, block, 80);
    seq![
        h[0].wrapping_add(v.0), h[1].wrapping_add(v.1), h[2].wrapping_add(v.2),
        h[3].wrapping_add(v.3), h[4].wrapping_add(v.4), h[5].wrapping_add(v.5),
        h[6].wrapping_add(v.6), h[7].wrapping_add(v.7),
    ]
}

/// The padded message: `0x80`, zeros up to 112 mod 128, and the bit length as 16 bytes.
pub open spec fn pad(m: Seq<u8>) -> Seq<u8> {
    m + seq![0x80u8] + zeros(((239 - m.len() % 128) % 128) as nat) + be64_bytes(
        ((8 * m.len()) / 0x1_0000_0000_0000_0000) as u64,
    ) + be64_bytes((8 * m.len()) as u64)
}

/// The hash value after the first `n` blocks of `p`.
pub open spec fn absorb(p: Seq<u8>, n: nat) -> Seq<u64>
    decreases n,
{
    if n == 0 {
        H512@
    } else {
        compress(absorb(p, (n - 1) as nat), p.subrange(128 * (n - 1), 128 * n as int))
    }
}

/// The words of `h`, each big-endian.
pub open spec fn words_bytes(h: Seq<u64>) -> Seq<u8>
    decreases h.len(),
{
    if h.len() == 0 {
        Seq::empty()
    } else {
        words_bytes(h.drop_last()) + be64_bytes(h.last())
    }
}

/// The 64-byte digest of `m`.
pub open spec fn sha512_spec(m: Seq<u8>) -> Seq<u8> {
    let p = pad(m);
    words_bytes(absorb(p, p.len() / 128))
}

pub proof fn lemma_words_bytes_len(h: Seq<u64>)
    ensures
        words_bytes(h).len() == 8 * h.len(),
    decreases h.len(),
{
    if h.len() > 0 {
        lemma_words_bytes_len(h.drop_last());
    }
}

pub proof fn lemma_absorb_len(p: Seq<u8>, n: nat)
    ensures
        absorb(p, n).len() == 8,
{
    if n > 0 {
        assert(absorb(p, n).len() == 8);
    } else {
        assert(H512@.len() == 8);
    }
}

/// A digest is always 64 bytes long.
pub proof fn lemma_sha512_len(m: Seq<u8>)
    ensures
        sha512_spec(m).len() == 64,
{
    let p = pad(m);
    lemma_absorb_len(p, p.len() / 128);
    lemma_words_bytes_len(absorb(p, p.len() / 128));
}

fn rotr_exec(x: u64, n: u64) -> (r: u64)
    requires
        0 < n < 64,
    ensures
        r == rotr(x, n),
{
    (x >> n) | (x << (64 - n))
}

fn ssig0_exec(x: u64) -> (r: u64)
    ensures
        r == ssig0(x),
{
    rotr_exec(x, 1) ^ rotr_exec(x, 8) ^ (x >> 7u64)
}

fn ssig1_exec(x: u64) -> (r: u64)
    ensures
        r == ssig1(x),
{
    rotr_exec(x, 19) ^ rotr_exec(x, 61) ^ (x >> 6u64)
}

fn bsig0_exec(x: u64) -> (r: u64)
    ensures
        r == bsig0(x),
{
    rotr_exec(x, 28) ^ rotr_exec(x, 34) ^ rotr_exec(x, 39)
}

fn bsig1_exec(x: u64) -> (r: u64)
    ensures
        r == bsig1(x),
{
    rotr_exec(x, 14) ^ rotr_exec(x, 18) ^ rotr_exec(x, 41)
}

/// The 80-word message schedule of the block at `msg[off..off + 128]`.
fn expand(msg: &[u8], off: usize) -> (w: Vec<u64>)
    requires
        off + 128 <= msg@.len(),
    ensures
        w@.len() == 80,
        forall|t: int|
            0 <= t < 80 ==> w@[t] == schedule(msg@.subrange(off as int, off + 128), t),
{
    let ghost block = msg@.subrange(off as int, off + 128);
    let len = msg.len();
    let mut w: Vec<u64> = Vec::new();
    let mut t: usize = 0;
    while t < 16
        invariant
            t <= 16,
            off + 128 <= msg@.len() == len,
            block == msg@.subrange(off as int, off + 128),
            w@.len() == t,
            forall|j: int| 0 <= j < t ==> w@[j] == schedule(block, j),
        decreases 16 - t,
    {
        let x = read_be64(msg, off + 8 * t);
        assert(be64_at(block, 8 * t) == be64_at(msg@, off + 8 * t));
        w.push(x);
        t += 1;
    }
    while t < 80
        invariant
            16 <= t <= 80,
            w@.len() == t,
            forall|j: int| 0 <= j < t ==> w@[j] == schedule(block, j),
        decreases 80 - t,
    {
        let x = w[t - 16].wrapping_add(ssig0_exec(w[t - 15])).wrapping_add(w[t - 7]).wrapping_add(
            ssig1_exec(w[t - 2]),
        );
        assert(w@[t - 16] == schedule(block, t - 16));
        assert(w@[t - 15] == schedule(block, t - 15));
        assert(w@[t - 7] == schedule(block, t - 7));
        assert(w@[t - 2] == schedule(block, t - 2));
        assert(x == schedule(block, t as int));
        w.push(x);
        t += 1;
    }
    w
}

/// The hash value `h` after absorbing the block at `msg[off..off + 128]`.
fn compress_exec(h: &[u64], msg: &[u8], off: usize) -> (r: Vec<u64>)
    requires
        h@.len() == 8,
        off + 128 <= msg@.len(),
    ensures
        r@ == compress(h@, msg@.subrange(off as int, off + 128)),
{
    let ghost block = msg@.subrange(off as int, off + 128);
    let w = expand(msg, off);
    let k = K512;
    let mut a = h[0];
    let mut b = h[1];
    let mut c = h[2];
    let mut d = h[3];
    let mut e = h[4];
    let mut f = h[5];
    let mut g = h[6];
    let mut hh = h[7];
    let mut t: usize = 0;
    while t < 80
        invariant
            t <= 80,
            w@.len() == 80,
            k@ == K512@,
            forall|j: int| 0 <= j < 80 ==> w@[j] == schedule(block, j),
            (a, b, c, d, e, f, g, hh) == rounds(h@, block, t as int),
        decreases 80 - t,
    {
        let t1 = hh.wrapping_add(bsig1_exec(e)).wrapping_add((e & f) ^ (!e & g)).wrapping_add(
            k[t],
        ).wrapping_add(w[t]);
        let t2 = bsig0_exec(a).wrapping_add((a & b) ^ (a & c) ^ (b & c));
        hh = g;
        g = f;
        f = e;
        e = d.wrapping_add(t1);
        d = c;
        c = b;
        b = a;
        a = t1.wrapping_add(t2);
        t += 1;
    }
    let mut r: Vec<u64> = Vec::new();
    r.push(h[0].wrapping_add(a));
    r.push(h[1].wrapping_add(b));
    r.push(h[2].wrapping_add(c));
    r.push(h[3].wrapping_add(d));
    r.push(h[4].wrapping_add(e));
    r.push(h[5].wrapping_add(f));
    r.push(h[6].wrapping_add(g));
    r.push(h[7].wrapping_add(hh));
    assert(r@ =~= compress(h@, block));
    r
}

/// The SHA-512 digest of `data`: 64 bytes.
pub fn sha512_bytes(data: &[u8]) -> (r: Vec<u8>)
    ensures
        r@ == sha512_spec(data@),
        r@.len() == 64,
{
    let mut msg: Vec<u8> = Vec::new();
    extend_bytes(&mut msg, data);
    msg.push(0x80u8);
    extend_zeros(&mut msg, (239 - data.len() % 128) % 128);
    let bits: u128 = (data.len() as u128) * 8;
    push_be64(&mut msg, (bits / 0x1_0000_0000_0000_0000) as u64);
    push_be64(&mut msg, #[verifier::truncate] (bits as u64));
    assert(msg@ =~= pad(data@));
    let mlen = msg.len();
    let nblocks = mlen / 128;
    let init = H512;
    let mut h: Vec<u64> = Vec::new();
    let mut i: usize = 0;
    while i < 8
        invariant
            i <= 8,
            init@ == H512@,
            h@ == H512@.subrange(0, i as int),
        decreases 8 - i,
    {
        h.push(init[i]);
        i += 1;
        assert(h@ =~= H512@.subrange(0, i as int));
    }
    assert(h@ =~= H512@);
    let mut j: usize = 0;
    while j < nblocks
        invariant
            j <= nblocks,
            nblocks == mlen / 128,
            mlen == msg@.len(),
            msg@ == pad(data@),
            h@ == absorb(msg@, j as nat),
            h@.len() == 8,
        decreases nblocks - j,
    {
        assert(128 * j + 128 <= msg@.len()) by (nonlinear_arith)
            requires
                j < nblocks,
                nblocks == msg@.len() / 128,
        ;
        h = compress_exec(h.as_slice(), msg.as_slice(), 128 * j);
        j += 1;
    }
    let mut out: Vec<u8> = Vec::new();
    let mut i: usize = 0;
    while i < 8
        invariant
            i <= 8,
            h@.len() == 8,
            out@ == words_bytes(h@.subrange(0, i as int)),
        decreases 8 - i,
    {
        push_be64(&mut out, h[i]);
        i += 1;
        assert(h@.subrange(0, i as int).drop_last() =~= h@.subrange(0, i - 1));
    }
    assert(h@.subrange(0, 8) =~= h@);
    proof {
        lemma_sha512_len(data@);
    }
    out
}

} // verus!
