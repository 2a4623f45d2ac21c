//! SHA-256, SHA-512, HMAC and PBKDF2 over byte strings, with hexadecimal output.
use vstd::prelude::*;
use vstd::string::StringSliceAdditionalSpecFns;

pub mod bytes;
pub mod hex;
pub mod sha256;
pub mod sha512;
pub mod hmac;
pub mod pbkdf2;

pub use crate::hex::{bytes_to_hex, hex_of};
pub use crate::hmac::{hmac, hmac_spec, HashAlg};
pub use crate::pbkdf2::{derived_key, f_block, pbkdf2, too_long, Pbkdf2Error};
pub use crate::sha256::{sha256_bytes, sha256_spec};
pub use crate::sha512::{sha512_bytes, sha512_spec};

verus! {

/// SHA-512 of the UTF-8 bytes of `input`, as 128 lowercase hex digits.
pub fn sha512(input: &str) -> (r: String)
    ensures
        r@ == hex_of(sha512_spec(input.spec_bytes())),
        r@.len() == 128,
{
    let digest = sha512_bytes(input.as_bytes());
    bytes_to_hex(digest.as_slice())
}

/// SHA-256 of the UTF-8 bytes of `input`, as 64 lowercase hex digits.
pub fn sha256(input: &str) -> (r: String)
    ensures
        r@ == hex_of(sha256_spec(input.spec_bytes())),
        r@.len() == 64,
{
    let digest = sha256_bytes(input.as_bytes());
    bytes_to_hex(digest.as_slice())
}

/// HMAC-SHA-256 of `input` under `key`, as 64 lowercase hex digits.
pub fn hmac_sha256(key: &str, input: &str) -> (r: String)
    ensures
        r@ == hex_of(hmac_spec(HashAlg::Sha256, key.spec_bytes(), input.spec_bytes())),
        r@.len() == 64,
{
    let digest = hmac_sha256_bytes(key.as_bytes(), input.as_bytes());
    bytes_to_hex(digest.as_slice())
}

/// PBKDF2-HMAC-SHA-256 of `password` and `salt`, as `2 · dk_len` lowercase hex digits.
pub fn pbkdf2_hmac_sha256(password: &str, salt: &str, iterations: u32, dk_len: usize) -> (r:
    Result<String, String>)
    ensures
        r is Err <==> too_long(HashAlg::Sha256, dk_len as nat),
        r matches Err(e) ==> e@ == "derived key too long"@,
        r matches Ok(s) ==> s@ == hex_of(
            derived_key(
                HashAlg::Sha256,
                password.spec_bytes(),
                salt.spec_bytes(),
                iterations,
                dk_len as nat,
            ),
        ),
        r matches Ok(s) ==> s@.len() == 2 * dk_len,
{
    match pbkdf2_hmac_sha256_bytes(password.as_bytes(), salt.as_bytes(), iterations, dk_len) {
        Ok(dk) => Ok(bytes_to_hex(dk.as_slice())),
        Err(e) => Err(e.message()),
    }
}

/// HMAC-SHA-512 of `input` under `key`, as 128 lowercase hex digits.
pub fn hmac_sha512(key: &str, input: &str) -> (r: String)
    ensures
        r@ == hex_of(hmac_spec(HashAlg::Sha512, key.spec_bytes(), input.spec_bytes())),
        r@.len() == 128,
{
    let digest = hmac_sha512_bytes(key.as_bytes(), input.as_bytes());
    bytes_to_hex(digest.as_slice())
}

/// PBKDF2-HMAC-SHA-512 of `password` and `salt`, as `2 · dk_len` lowercase hex digits.
pub fn pbkdf2_hmac_sha512(password: &str, salt: &str, iterations: u32, dk_len: usize) -> (r:
    Result<String, String>)
    ensures
        r is Err <==> too_long(HashAlg::Sha512, dk_len as nat),
        r matches Err(e) ==> e@ == "derived key too long"@,
        r matches Ok(s) ==> s@ == hex_of(
            derived_key(
                HashAlg::Sha512,
                password.spec_bytes(),
                salt.spec_bytes(),
                iterations,
                dk_len as nat,
            ),
        ),
        r matches Ok(s) ==> s@.len() == 2 * dk_len,
{
    match pbkdf2_hmac_sha512_bytes(password.as_bytes(), salt.as_bytes(), iterations, dk_len) {
        Ok(dk) => Ok(bytes_to_hex(dk.as_slice())),
        Err(e) => Err(e.message()),
    }
}

/// PBKDF2-HMAC-SHA-512 key of `dk_len` bytes.
pub fn pbkdf2_hmac_sha512_bytes(password: &[u8], salt: &[u8], c: u32, dk_len: usize) -> (r:
    Result<Vec<u8>, Pbkdf2Error>)
    ensures
        r is Err <==> too_long(HashAlg::Sha512, dk_len as nat),
        r matches Err(e) ==> e == Pbkdf2Error::DerivedKeyTooLong,
        r matches Ok(dk) ==> dk@ == derived_key(HashAlg::Sha512, password@, salt@, c, dk_len as nat),
        r matches Ok(dk) ==> dk@.len() == dk_len,
{
    pbkdf2(HashAlg::Sha512, password, salt, c, dk_len)
}

/// Block `T_i` of PBKDF2-HMAC-SHA-512.
pub fn pbkdf2_f(password: &[u8], salt: &[u8], c: u32, i: u32) -> (r: Vec<u8>)
    ensures
        r@ == f_block(HashAlg::Sha512, password@, salt@, c, i as nat),
        r@.len() == 64,
{
    crate::pbkdf2::pbkdf2_block(HashAlg::Sha512, password, salt, c, i)
}

/// HMAC-SHA-512 of `data` under `key`: 64 bytes.
pub fn hmac_sha512_bytes(key: &[u8], data: &[u8]) -> (r: Vec<u8>)
    ensures
        r@ == hmac_spec(HashAlg::Sha512, key@, data@),
        r@.len() == 64,
{
    hmac(HashAlg::Sha512, key, data)
}

/// PBKDF2-HMAC-SHA-256 key of `dk_len` bytes.
pub fn pbkdf2_hmac_sha256_bytes(password: &[u8], salt: &[u8], c: u32, dk_len: usize) -> (r:
    Result<Vec<u8>, Pbkdf2Error>)
    ensures
        r is Err <==> too_long(HashAlg::Sha256, dk_len as nat),
        r matches Err(e) ==> e == Pbkdf2Error::DerivedKeyTooLong,
        r matches Ok(dk) ==> dk@ == derived_key(HashAlg::Sha256, password@, salt@, c, dk_len as nat),
        r matches Ok(dk) ==> dk@.len() == dk_len,
{
    pbkdf2(HashAlg::Sha256, password, salt, c, dk_len)
}

/// Block `T_i` of PBKDF2-HMAC-SHA-256.
pub fn pbkdf2_f_sha256(password: &[u8], salt: &[u8], c: u32, i: u32) -> (r: Vec<u8>)
    ensures
        r@ == f_block(HashAlg::Sha256, password@, salt@, c, i as nat),
        r@.len() == 32,
{
    crate::pbkdf2::pbkdf2_block(HashAlg::Sha256, password, salt, c, i)
}

/// HMAC-SHA-256 of `data` under `key`: 32 bytes.
pub fn hmac_sha256_bytes(key: &[u8], data: &[u8]) -> (r: Vec<u8>)
    ensures
        r@ == hmac_spec(HashAlg::Sha256, key@, data@),
        r@.len() == 32,
{
    hmac(HashAlg::Sha256, key, data)
}

} // verus!
