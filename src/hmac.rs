//! HMAC, written once over the two hash families.
use vstd::prelude::*;
use crate::bytes::{extend_bytes, extend_zeros, xor_each, xor_with, zeros};
use crate::sha256::{lemma_sha256_len, sha256_bytes, sha256_spec};
use crate::sha512::{lemma_sha512_len, sha512_bytes, sha512_spec};

verus! {

/// The hash function an HMAC or PBKDF2 instance is built on.
#[derive(Clone, Copy, Debug, PartialEq, Eq, Structural)]
pub enum HashAlg {
    Sha256,
    Sha512,
}

impl HashAlg {
    /// Bytes consumed per compression step.
    pub open spec fn block_size(self) -> nat {
        match self {
            HashAlg::Sha256 => 64,
            HashAlg::Sha512 => 128,
        }
    }

    /// Bytes in a digest.
    pub open spec fn digest_size(self) -> nat {
        match self {
            HashAlg::Sha256 => 32,
            HashAlg::Sha512 => 64,
        }
    }

    pub fn block_len(self) -> (r: usize)
        ensures
            r == self.block_size(),
    {
        match self {
            HashAlg::Sha256 => 64,
            HashAlg::Sha512 => 128,
        }
    }

    pub fn digest_len(self) -> (r: usize)
        ensures
            r == self.digest_size(),
    {
        match self {
            HashAlg::Sha256 => 32,
            HashAlg::Sha512 => 64,
        }
    }

    /// The digest of `data` under this hash.
    pub fn digest(self, data: &[u8]) -> (r: Vec<u8>)
        ensures
            r@ == hash_spec(self, data@),
            r@.len() == self.digest_size(),
    {
        match self {
            HashAlg::Sha256 => sha256_bytes(data),
            HashAlg::Sha512 => sha512_bytes(data),
        }
    }
}

/// The digest of `m` under `alg`.
pub open spec fn hash_spec(alg: HashAlg, m: Seq<u8>) -> Seq<u8> {
    match alg {
        HashAlg::Sha256 => sha256_spec(m),
        HashAlg::Sha512 => sha512_spec(m),
    }
}

/// Every digest has the algorithm's digest size, which is below its block size.
pub proof fn lemma_hash_len(alg: HashAlg, m: Seq<u8>)
    ensures
        hash_spec(alg, m).len() == alg.digest_size(),
        alg.digest_size() < alg.block_size(),
{
    match alg {
        HashAlg::Sha256 => lemma_sha256_len(m),
        HashAlg::Sha512 => lemma_sha512_len(m),
    }
}

/// The key after normalization: hashed when longer than a block, then zero-padded to a block.
pub open spec fn normalized_key(alg: HashAlg, key: Seq<u8>) -> Seq<u8> {
    let k = if key.len() > alg.block_size() {
        hash_spec(alg, key)
    } else {
        key
    };
    k + zeros((alg.block_size() - k.len()) as nat)
}

/// `hash(opad ‖ hash(ipad ‖ msg))`, with the pads derived from the normalized key.
#[verifier::opaque]
pub open spec fn hmac_spec(alg: HashAlg, key: Seq<u8>, msg: Seq<u8>) -> Seq<u8> {
    let k = normalized_key(alg, key);
    hash_spec(alg, xor_each(k, 0x5c) + hash_spec(alg, xor_each(k, 0x36) + msg))
}

/// A MAC has the digest size of its algorithm.
pub proof fn lemma_hmac_len(alg: HashAlg, key: Seq<u8>, msg: Seq<u8>)
    ensures
        hmac_spec(alg, key, msg).len() == alg.digest_size(),
{
    reveal(hmac_spec);
    let k = normalized_key(alg, key);
    lemma_hash_len(alg, xor_each(k, 0x5c) + hash_spec(alg, xor_each(k, 0x36) + msg));
}

/// A key longer than a block gives the same MAC as its digest used as the key,
/// since both are zero-padded to the same block.
pub proof fn lemma_long_key(alg: HashAlg, key: Seq<u8>, msg: Seq<u8>)
    requires
        key.len() > alg.block_size(),
    ensures
        hmac_spec(alg, key, msg) == hmac_spec(alg, hash_spec(alg, key), msg),
{
    reveal(hmac_spec);
    lemma_hash_len(alg, key);
    assert(normalized_key(alg, key) == normalized_key(alg, hash_spec(alg, key)));
}

/// The key of `alg` normalized to one block.
fn normalize_key(alg: HashAlg, key: &[u8]) -> (k: Vec<u8>)
    ensures
        k@ == normalized_key(alg, key@),
        k@.len() == alg.block_size(),
{
    let b = alg.block_len();
    let mut k: Vec<u8> = if key.len() > b {
        alg.digest(key)
    } else {
        let mut v: Vec<u8> = Vec::new();
        extend_bytes(&mut v, key);
        assert(v@ =~= key@);
        v
    };
    proof {
        lemma_hash_len(alg, key@);
    }
    let n = b - k.len();
    extend_zeros(&mut k, n);
    k
}

/// The MAC of `data` under `key`, built on `alg`.
pub fn hmac(alg: HashAlg, key: &[u8], data: &[u8]) -> (r: Vec<u8>)
    ensures
        r@ == hmac_spec(alg, key@, data@),
        r@.len() == alg.digest_size(),
{
    let k = normalize_key(alg, key);
    let mut inner = xor_with(k.as_slice(), 0x36);
    extend_bytes(&mut inner, data);
    let inner_hash = alg.digest(inner.as_slice());
    let mut outer = xor_with(k.as_slice(), 0x5c);
    extend_bytes(&mut outer, inner_hash.as_slice());
    proof {
        reveal(hmac_spec);
        lemma_hmac_len(alg, key@, data@);
    }
    alg.digest(outer.as_slice())
}

/// Hashing and MACs depend on their inputs alone: equal inputs give equal outputs.
pub proof fn lemma_deterministic(
    alg: HashAlg,
    k1: Seq<u8>,
    m1: Seq<u8>,
    k2: Seq<u8>,
    m2: Seq<u8>,
)
    requires
        k1 == k2,
        m1 == m2,
    ensures
        hash_spec(alg, m1) == hash_spec(alg, m2),
        hmac_spec(alg, k1, m1) == hmac_spec(alg, k2, m2),
{
}

} // verus!
