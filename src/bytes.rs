//! Byte-sequence helpers shared by the hash engines, HMAC and PBKDF2.
use vstd::prelude::*;

verus! {

/// `n` zero bytes.
pub open spec fn zeros(n: nat) -> Seq<u8> {
    Seq::new(n, |i: int| 0u8)
}

/// Every byte of `s` XOR-ed with the constant `c`.
pub open spec fn xor_each(s: Seq<u8>, c: u8) -> Seq<u8> {
    Seq::new(s.len(), |i: int| s[i] ^ c)
}

/// Bytewise XOR of two sequences, as long as the first one.
pub open spec fn xor_seq(a: Seq<u8>, b: Seq<u8>) -> Seq<u8> {
    Seq::new(a.len(), |i: int| a[i] ^ b[i])
}

/// Big-endian encoding of a 32-bit word.
pub open spec fn be32_bytes(w: u32) -> Seq<u8> {
    seq![(w >> 24u32) as u8, (w >> 16u32) as u8, (w >> 8u32) as u8, w as u8]
}

/// Big-endian encoding of a 64-bit word.
pub open spec fn be64_bytes(w: u64) -> Seq<u8> {
    seq![
        (w >> 56u64) as u8, (w >> 48u64) as u8, (w >> 40u64) as u8, (w >> 32u64) as u8,
        (w >> 24u64) as u8, (w >> 16u64) as u8, (w >> 8u64) as u8, w as u8,
    ]
}

/// The 32-bit big-endian word stored at `s[i..i + 4]`.
pub open spec fn be32_at(s: Seq<u8>, i: int) -> u32 {
    ((s[i] as u32) << 24u32) | ((s[i + 1] as u32) << 16u32) | ((s[i + 2] as u32) << 8u32) | (
    s[i + 3] as u32)
}

/// The 64-bit big-endian word stored at `s[i..i + 8]`.
pub open spec fn be64_at(s: Seq<u8>, i: int) -> u64 {
    ((s[i] as u64) << 56u64) | ((s[i + 1] as u64) << 48u64) | ((s[i + 2] as u64) << 40u64) | ((
    s[i + 3] as u64) << 32u64) | ((s[i + 4] as u64) << 24u64) | ((s[i + 5] as u64) << 16u64) | ((
    s[i + 6] as u64) << 8u64) | (s[i + 7] as u64)
}

/// Appends every byte of `src` to `dst`.
pub fn extend_bytes(dst: &mut Vec<u8>, src: &[u8])
    ensures
        final(dst)@ == old(dst)@ + src@,
{
    let mut i: usize = 0;
    while i < src.len()
        invariant
            i <= src@.len(),
            dst@ == old(dst)@ + src@.subrange(0, i as int),
        decreases src@.len() - i,
    {
        dst.push(src[i]);
        i += 1;
        assert(dst@ =~= old(dst)@ + src@.subrange(0, i as int));
    }
    assert(src@.subrange(0, src@.len() as int) =~= src@);
}

/// Appends the first `n` bytes of `src` to `dst`.
pub fn extend_prefix(dst: &mut Vec<u8>, src: &[u8], n: usize)
    requires
        n <= src@.len(),
    ensures
        final(dst)@ == old(dst)@ + src@.subrange(0, n as int),
{
    let mut i: usize = 0;
    while i < n
        invariant
            i <= n <= src@.len(),
            dst@ == old(dst)@ + src@.subrange(0, i as int),
        decreases n - i,
    {
        dst.push(src[i]);
        i += 1;
        assert(dst@ =~= old(dst)@ + src@.subrange(0, i as int));
    }
}

/// Appends `n` zero bytes to `dst`.
pub fn extend_zeros(dst: &mut Vec<u8>, n: usize)
    ensures
        final(dst)@ == old(dst)@ + zeros(n as nat),
{
    let mut i: usize = 0;
    while i < n
        invariant
            i <= n,
            dst@ == old(dst)@ + zeros(i as nat),
        decreases n - i,
    {
        dst.push(0u8);
        i += 1;
        assert(dst@ =~= old(dst)@ + zeros(i as nat));
    }
}

/// `src` with every byte XOR-ed with `c`.
pub fn xor_with(src: &[u8], c: u8) -> (r: Vec<u8>)
    ensures
        r@ == xor_each(src@, c),
{
    let mut r: Vec<u8> = Vec::new();
    let mut i: usize = 0;
    while i < src.len()
        invariant
            i <= src@.len(),
            r@ == xor_each(src@.subrange(0, i as int), c),
        decreases src@.len() - i,
    {
        r.push(src[i] ^ c);
        i += 1;
        assert(r@ =~= xor_each(src@.subrange(0, i as int), c));
    }
    assert(src@.subrange(0, src@.len() as int) =~= src@);
    r
}

/// Bytewise XOR of `a` and `b`, which have the same length.
pub fn xor_bytes(a: &[u8], b: &[u8]) -> (r: Vec<u8>)
    requires
        a@.len() == b@.len(),
    ensures
        r@ == xor_seq(a@, b@),
{
    let mut r: Vec<u8> = Vec::new();
    let mut i: usize = 0;
    while i < a.len()
        invariant
            i <= a@.len() == b@.len(),
            r@ == xor_seq(a@.subrange(0, i as int), b@),
        decreases a@.len() - i,
    {
        r.push(a[i] ^ b[i]);
        i += 1;
        assert(r@ =~= xor_seq(a@.subrange(0, i as int), b@));
    }
    assert(a@.subrange(0, a@.len() as int) =~= a@);
    r
}

/// Appends the big-endian encoding of `w` to `dst`.
pub fn push_be32(dst: &mut Vec<u8>, w: u32)
    ensures
        final(dst)@ == old(dst)@ + be32_bytes(w),
{
    dst.push((w >> 24u32) as u8);
    dst.push((w >> 16u32) as u8);
    dst.push((w >> 8u32) as u8);
    dst.push(w as u8);
    assert(dst@ =~= old(dst)@ + be32_bytes(w));
}

/// Appends the big-endian encoding of `w` to `dst`.
pub fn push_be64(dst: &mut Vec<u8>, w: u64)
    ensures
        final(dst)@ == old(dst)@ + be64_bytes(w),
{
    dst.push((w >> 56u64) as u8);
    dst.push((w >> 48u64) as u8);
    dst.push((w >> 40u64) as u8);
    dst.push((w >> 32u64) as u8);
    dst.push((w >> 24u64) as u8);
    dst.push((w >> 16u64) as u8);
    dst.push((w >> 8u64) as u8);
    dst.push(w as u8);
    assert(dst@ =~= old(dst)@ + be64_bytes(w));
}

/// The 32-bit big-endian word at `s[i..i + 4]`.
pub fn read_be32(s: &[u8], i: usize) -> (r: u32)
    requires
        i + 4 <= s@.len(),
    ensures
        r == be32_at(s@, i as int),
{
    ((s[i] as u32) << 24u32) | ((s[i + 1] as u32) << 16u32) | ((s[i + 2] as u32) << 8u32) | (s[i
        + 3] as u32)
}

/// The 64-bit big-endian word at `s[i..i + 8]`.
pub fn read_be64(s: &[u8], i: usize) -> (r: u64)
    requires
        i + 8 <= s@.len(),
    ensures
        r == be64_at(s@, i as int),
{
    ((s[i] as u64) << 56u64) | ((s[i + 1] as u64) << 48u64) | ((s[i + 2] as u64) << 40u64) | ((
    s[i + 3] as u64) << 32u64) | ((s[i + 4] as u64) << 24u64) | ((s[i + 5] as u64) << 16u64) | ((
    s[i + 6] as u64) << 8u64) | (s[i + 7] as u64)
}

} // verus!
