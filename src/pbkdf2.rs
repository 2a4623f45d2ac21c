//! PBKDF2 with HMAC as the pseudorandom function, written once over the two hash families.
use vstd::prelude::*;
use crate::bytes::{be32_bytes, extend_bytes, extend_prefix, push_be32, xor_bytes, xor_seq};
use crate::hmac::{hmac, hmac_spec, lemma_hmac_len, HashAlg};

verus! {

/// Why a key derivation was refused.
#[derive(Clone, Copy, Debug, PartialEq, Eq, Structural)]
pub enum Pbkdf2Error {
    /// More blocks were asked for than a 32-bit block index can number.
    DerivedKeyTooLong,
}

impl Pbkdf2Error {
    /// The error as text.
    pub fn message(&self) -> (r: String)
        ensures
            r@ == "derived key too long"@,
    {
        "derived key too long".to_owned()
    }
}

/// `U_j` of block `i`: `U_1 = HMAC(P, S ‖ BE32(i))`, `U_j = HMAC(P, U_{j-1})`.
pub open spec fn u_chain(alg: HashAlg, p: Seq<u8>, s: Seq<u8>, i: nat, j: nat) -> Seq<u8>
    decreases j,
{
    if j <= 1 {
        hmac_spec(alg, p, s + be32_bytes(i as u32))
    } else {
        hmac_spec(alg, p, u_chain(alg, p, s, i, (j - 1) as nat))
    }
}

/// `U_1 ⊕ … ⊕ U_j` of block `i` (just `U_1` when `j` is 0 or 1).
pub open spec fn u_fold(alg: HashAlg, p: Seq<u8>, s: Seq<u8>, i: nat, j: nat) -> Seq<u8>
    decreases j,
{
    if j <= 1 {
        u_chain(alg, p, s, i, 1)
    } else {
        xor_seq(u_fold(alg, p, s, i, (j - 1) as nat), u_chain(alg, p, s, i, j))
    }
}

/// Block `T_i` for `c` iterations. A count of 0 is taken as 1.
pub open spec fn f_block(alg: HashAlg, p: Seq<u8>, s: Seq<u8>, c: u32, i: nat) -> Seq<u8> {
    u_fold(alg, p, s, i, c as nat)
}

/// `T_1 ‖ … ‖ T_n`.
pub open spec fn blocks(alg: HashAlg, p: Seq<u8>, s: Seq<u8>, c: u32, n: nat) -> Seq<u8>
    decreases n,
{
    if n == 0 {
        Seq::empty()
    } else {
        blocks(alg, p, s, c, (n - 1) as nat) + f_block(alg, p, s, c, n)
    }
}

/// `ceil(dk_len / hLen)`: the number of blocks a key of `dk_len` bytes is cut from.
pub open spec fn block_count(alg: HashAlg, dk_len: nat) -> nat {
    ((dk_len + alg.digest_size() - 1) / alg.digest_size() as int) as nat
}

/// Whether `dk_len` needs more than `2^32 - 1` blocks.
pub open spec fn too_long(alg: HashAlg, dk_len: nat) -> bool {
    dk_len > 0xffff_ffff * alg.digest_size()
}

/// The derived key: the blocks concatenated, the last one cut to fit `dk_len`.
pub open spec fn derived_key(alg: HashAlg, p: Seq<u8>, s: Seq<u8>, c: u32, dk_len: nat) -> Seq<
    u8,
> {
    blocks(alg, p, s, c, block_count(alg, dk_len)).take(dk_len as int)
}

pub proof fn lemma_u_fold_len(alg: HashAlg, p: Seq<u8>, s: Seq<u8>, i: nat, j: nat)
    ensures
        u_chain(alg, p, s, i, j).len() == alg.digest_size(),
        u_fold(alg, p, s, i, j).len() == alg.digest_size(),
    decreases j,
{
    if j <= 1 {
        lemma_hmac_len(alg, p, s + be32_bytes(i as u32));
    } else {
        lemma_u_fold_len(alg, p, s, i, (j - 1) as nat);
        lemma_hmac_len(alg, p, u_chain(alg, p, s, i, (j - 1) as nat));
    }
}

/// `n` blocks take `n · hLen` bytes.
pub proof fn lemma_blocks_len(alg: HashAlg, p: Seq<u8>, s: Seq<u8>, c: u32, n: nat)
    ensures
        blocks(alg, p, s, c, n).len() == n * alg.digest_size(),
    decreases n,
{
    if n > 0 {
        lemma_blocks_len(alg, p, s, c, (n - 1) as nat);
        lemma_u_fold_len(alg, p, s, n, c as nat);
        assert(n * alg.digest_size() == (n - 1) * alg.digest_size() + alg.digest_size())
            by (nonlinear_arith);
    }
}

/// How the block count bounds the key length.
pub proof fn lemma_block_count(alg: HashAlg, dk_len: nat)
    ensures
        block_count(alg, dk_len) == 0 <==> dk_len == 0,
        block_count(alg, dk_len) > 0 ==> (block_count(alg, dk_len) - 1) * alg.digest_size()
            < dk_len <= block_count(alg, dk_len) * alg.digest_size(),
        too_long(alg, dk_len) <==> block_count(alg, dk_len) > 0xffff_ffff,
{
    let l = block_count(alg, dk_len);
    match alg {
        HashAlg::Sha256 => {
            assert(l == (dk_len + 31) / 32);
            assert(l > 0 ==> (l - 1) * 32 < dk_len <= l * 32);
        },
        HashAlg::Sha512 => {
            assert(l == (dk_len + 63) / 64);
            assert(l > 0 ==> (l - 1) * 64 < dk_len <= l * 64);
        },
    }
}

/// Block `T_i` of the derived key: the XOR of the first `c` links of the HMAC chain
/// (a count of 0 is taken as 1).
pub fn pbkdf2_block(alg: HashAlg, password: &[u8], salt: &[u8], c: u32, i: u32) -> (r: Vec<u8>)
    ensures
        r@ == f_block(alg, password@, salt@, c, i as nat),
        r@.len() == alg.digest_size(),
{
    let mut msg: Vec<u8> = Vec::new();
    extend_bytes(&mut msg, salt);
    push_be32(&mut msg, i);
    let mut u = hmac(alg, password, msg.as_slice());
    let mut t: Vec<u8> = Vec::new();
    extend_bytes(&mut t, u.as_slice());
    assert(t@ =~= u@);
    let mut j: u32 = 1;
    while j < c
        invariant
            1 <= j,
            j <= c || j == 1,
            u@ == u_chain(alg, password@, salt@, i as nat, j as nat),
            t@ == u_fold(alg, password@, salt@, i as nat, j as nat),
            u@.len() == alg.digest_size(),
            t@.len() == alg.digest_size(),
        decreases c - j,
    {
        u = hmac(alg, password, u.as_slice());
        t = xor_bytes(t.as_slice(), u.as_slice());
        j += 1;
    }
    // A count of 0 folds the same single link as a count of 1.
    assert(u_fold(alg, password@, salt@, i as nat, 0) == u_fold(alg, password@, salt@, i as nat, 1));
    t
}

/// Derives a key of `dk_len` bytes from `password` and `salt` with `c` iterations
/// (0 is taken as 1). Refused when `dk_len` needs more than `2^32 - 1` blocks.
pub fn pbkdf2(alg: HashAlg, password: &[u8], salt: &[u8], c: u32, dk_len: usize) -> (r: Result<
    Vec<u8>,
    Pbkdf2Error,
>)
    ensures
        r is Err <==> too_long(alg, dk_len as nat),
        r matches Err(e) ==> e == Pbkdf2Error::DerivedKeyTooLong,
        r matches Ok(dk) ==> dk@ == derived_key(alg, password@, salt@, c, dk_len as nat),
        r matches Ok(dk) ==> dk@.len() == dk_len,
{
    let h = alg.digest_len();
    let l: usize = if dk_len % h == 0 {
        dk_len / h
    } else {
        dk_len / h + 1
    };
    proof {
        lemma_block_count(alg, dk_len as nat);
        assert(l == block_count(alg, dk_len as nat)) by {
            match alg {
                HashAlg::Sha256 => {},
                HashAlg::Sha512 => {},
            }
        }
    }
    if l > 0xffff_ffff {
        return Err(Pbkdf2Error::DerivedKeyTooLong);
    }
    let ghost (p, s) = (password@, salt@);
    let mut dk: Vec<u8> = Vec::new();
    let mut i: usize = 0;
    let mut pos: usize = 0;
    while i < l
        invariant
            i <= l <= 0xffff_ffff,
            l == block_count(alg, dk_len as nat),
            l > 0 ==> (l - 1) * h < dk_len <= l * h,
            h == alg.digest_size(),
            p == password@,
            s == salt@,
            i < l ==> pos == i * h && dk@ == blocks(alg, p, s, c, i as nat),
            i == l ==> dk@ == blocks(alg, p, s, c, l as nat).take(dk_len as int),
        decreases l - i,
    {
        let blk = pbkdf2_block(alg, password, salt, c, (i + 1) as u32);
        proof {
            lemma_blocks_len(alg, p, s, c, i as nat);
            assert((i + 1) * h == i * h + h) by (nonlinear_arith);
            assert(i * h <= (l - 1) * h) by (nonlinear_arith)
                requires
                    i <= l - 1,
            ;
        }
        if i + 1 == l {
            let take = dk_len - pos;
            extend_prefix(&mut dk, blk.as_slice(), take);
            assert(dk@ =~= blocks(alg, p, s, c, l as nat).take(dk_len as int));
        } else {
            extend_bytes(&mut dk, blk.as_slice());
            pos = pos + h;
        }
        i += 1;
    }
    proof {
        if l == 0 {
            assert(dk@ =~= blocks(alg, p, s, c, 0).take(dk_len as int));
        }
        lemma_blocks_len(alg, p, s, c, l as nat);
    }
    Ok(dk)
}

/// With one iteration a block is a single HMAC of the salt and the block index.
pub proof fn lemma_single_iteration(alg: HashAlg, p: Seq<u8>, s: Seq<u8>, i: nat)
    ensures
        f_block(alg, p, s, 1, i) == hmac_spec(alg, p, s + be32_bytes(i as u32)),
{
}

/// Asking for zero bytes gives the empty key.
pub proof fn lemma_empty_key(alg: HashAlg, p: Seq<u8>, s: Seq<u8>, c: u32)
    ensures
        derived_key(alg, p, s, c, 0) == Seq::<u8>::empty(),
{
    lemma_block_count(alg, 0);
    assert(derived_key(alg, p, s, c, 0) =~= Seq::<u8>::empty());
}

/// Block `j + 1` lies whole at bytes `j · hLen .. (j + 1) · hLen` of the first `n` blocks.
pub proof fn lemma_blocks_part(alg: HashAlg, p: Seq<u8>, s: Seq<u8>, c: u32, n: nat, j: nat)
    requires
        j < n,
    ensures
        blocks(alg, p, s, c, n).subrange(
            (j * alg.digest_size()) as int,
            (j * alg.digest_size() + alg.digest_size()) as int,
        ) == f_block(alg, p, s, c, j + 1),
    decreases n,
{
    let h = alg.digest_size() as int;
    let ji = j as int;
    lemma_blocks_len(alg, p, s, c, (n - 1) as nat);
    lemma_u_fold_len(alg, p, s, n, c as nat);
    let prev = blocks(alg, p, s, c, (n - 1) as nat);
    if j == n - 1 {
        assert(blocks(alg, p, s, c, n).subrange(ji * h, ji * h + h) =~= f_block(alg, p, s, c, n));
    } else {
        lemma_blocks_part(alg, p, s, c, (n - 1) as nat, j);
        assert(ji * h + h <= (n - 1) * h) by (nonlinear_arith)
            requires
                ji < n - 1,
                h >= 0,
        ;
        assert(blocks(alg, p, s, c, n).subrange(ji * h, ji * h + h) =~= prev.subrange(
            ji * h,
            ji * h + h,
        ));
    }
}

/// A key of `k · hLen + r` bytes (`0 < r < hLen`) is exactly that long, holds the first
/// `k` blocks whole and the next block cut to its first `r` bytes.
pub proof fn lemma_truncated_tail(
    alg: HashAlg,
    p: Seq<u8>,
    s: Seq<u8>,
    c: u32,
    k: nat,
    r: nat,
)
    requires
        0 < r < alg.digest_size(),
    ensures
        derived_key(alg, p, s, c, k * alg.digest_size() + r).len() == k * alg.digest_size() + r,
        forall|j: nat|
            j < k ==> #[trigger] derived_key(alg, p, s, c, k * alg.digest_size() + r).subrange(
                (j * alg.digest_size()) as int,
                (j * alg.digest_size() + alg.digest_size()) as int,
            ) == f_block(alg, p, s, c, j + 1),
        derived_key(alg, p, s, c, k * alg.digest_size() + r).subrange(
            (k * alg.digest_size()) as int,
            (k * alg.digest_size() + r) as int,
        ) == f_block(alg, p, s, c, k + 1).take(r as int),
{
    let h = alg.digest_size() as int;
    let d = k * alg.digest_size() + r;
    lemma_block_count(alg, d);
    let l = block_count(alg, d);
    assert(l == k + 1) by (nonlinear_arith)
        requires
            l > 0,
            (l - 1) * h < d <= l * h,
            d == k * h + r,
            0 < r < h,
    ;
    lemma_blocks_len(alg, p, s, c, l);
    lemma_blocks_len(alg, p, s, c, k);
    lemma_u_fold_len(alg, p, s, k + 1, c as nat);
    let all = blocks(alg, p, s, c, l);
    let dk = derived_key(alg, p, s, c, d);
    assert(dk == all.take(d as int));
    assert forall|j: nat| j < k implies #[trigger] dk.subrange(
        (j * alg.digest_size()) as int,
        (j * alg.digest_size() + alg.digest_size()) as int,
    ) == f_block(alg, p, s, c, j + 1) by {
        let ji = j as int;
        lemma_blocks_part(alg, p, s, c, l, j);
        assert(ji * h + h <= k * h) by (nonlinear_arith)
            requires
                ji < k,
                h >= 0,
        ;
        assert(dk.subrange(ji * h, ji * h + h) =~= all.subrange(ji * h, ji * h + h));
    }
    assert(dk.subrange(k * h, k * h + r) =~= f_block(alg, p, s, c, k + 1).take(r as int));
}

} // verus!
