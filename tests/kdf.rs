use sha_hmac::{
    bytes_to_hex, hmac_sha256_bytes, hmac_sha512_bytes, pbkdf2_f, pbkdf2_f_sha256,
    pbkdf2_hmac_sha256, pbkdf2_hmac_sha256_bytes, pbkdf2_hmac_sha512, pbkdf2_hmac_sha512_bytes,
    Pbkdf2Error,
};

#[test]
fn pbkdf2_sha256_one_iteration() {
    assert_eq!(
        pbkdf2_hmac_sha256("password", "salt", 1, 32).unwrap(),
        "120fb6cffcf8b32c43e7225256c4f837a86548c92ccc35480805987cb70be17b"
    );
}

#[test]
fn pbkdf2_sha256_two_iterations() {
    assert_eq!(
        pbkdf2_hmac_sha256("password", "salt", 2, 32).unwrap(),
        "ae4d0c95af6b46d32d0adff928f06dd02a303f8ef3c251dfd6e2d85a95474c43"
    );
}

#[test]
fn pbkdf2_sha256_many_iterations() {
    assert_eq!(
        pbkdf2_hmac_sha256("password", "salt", 4096, 32).unwrap(),
        "c5e478d59288c841aa530db6845c4c8d962893a001ce4e11a4963873aa98134a"
    );
}

#[test]
fn pbkdf2_sha256_truncated_last_block() {
    assert_eq!(
        pbkdf2_hmac_sha256(
            "passwordPASSWORDpassword",
            "saltSALTsaltSALTsaltSALTsaltSALTsalt",
            4096,
            40
        )
        .unwrap(),
        "348c89dbcbd32b2f32d814b8116e84cf2b17347ebc1800181c4e2a1fb8dd53e1c635518c7dac47e9"
    );
}

#[test]
fn pbkdf2_sha512_one_iteration() {
    assert_eq!(
        pbkdf2_hmac_sha512("password", "salt", 1, 64).unwrap(),
        "867f70cf1ade02cff3752599a3a53dc4af34c7a669815ae5d513554e1c8cf252c02d470a285a0501bad999bfe943c08f050235d7d68b1da55e63f73b60a57fce"
    );
}

#[test]
fn single_iteration_block_is_one_hmac() {
    let mut msg = b"salt".to_vec();
    msg.extend_from_slice(&3u32.to_be_bytes());
    assert_eq!(pbkdf2_f_sha256(b"pw", b"salt", 1, 3), hmac_sha256_bytes(b"pw", &msg));
    assert_eq!(pbkdf2_f(b"pw", b"salt", 1, 3), hmac_sha512_bytes(b"pw", &msg));
}

#[test]
fn zero_iterations_behave_as_one() {
    assert_eq!(pbkdf2_f_sha256(b"pw", b"s", 0, 1), pbkdf2_f_sha256(b"pw", b"s", 1, 1));
    assert_eq!(
        pbkdf2_hmac_sha512_bytes(b"pw", b"s", 0, 10).unwrap(),
        pbkdf2_hmac_sha512_bytes(b"pw", b"s", 1, 10).unwrap()
    );
}

#[test]
fn empty_derived_key() {
    assert_eq!(pbkdf2_hmac_sha256("p", "s", 3, 0).unwrap(), "");
    assert_eq!(pbkdf2_hmac_sha512_bytes(b"p", b"s", 3, 0).unwrap(), Vec::<u8>::new());
}

#[test]
fn only_last_block_is_truncated() {
    for (k, r) in [(0usize, 5usize), (1, 1), (2, 31)] {
        let dk = pbkdf2_hmac_sha256_bytes(b"pw", b"salt", 2, 32 * k + r).unwrap();
        assert_eq!(dk.len(), 32 * k + r);
        for j in 0..k {
            assert_eq!(dk[32 * j..32 * j + 32].to_vec(), pbkdf2_f_sha256(b"pw", b"salt", 2, j as u32 + 1));
        }
        assert_eq!(dk[32 * k..].to_vec(), pbkdf2_f_sha256(b"pw", b"salt", 2, k as u32 + 1)[..r].to_vec());
    }
    let dk = pbkdf2_hmac_sha512_bytes(b"pw", b"salt", 2, 64 + 7).unwrap();
    assert_eq!(dk[..64].to_vec(), pbkdf2_f(b"pw", b"salt", 2, 1));
    assert_eq!(dk[64..].to_vec(), pbkdf2_f(b"pw", b"salt", 2, 2)[..7].to_vec());
}

#[test]
fn hex_output_has_two_digits_per_byte() {
    assert_eq!(pbkdf2_hmac_sha512("p", "s", 1, 100).unwrap().len(), 200);
    assert_eq!(bytes_to_hex(&pbkdf2_hmac_sha256_bytes(b"p", b"s", 1, 33).unwrap()).len(), 66);
}

#[test]
fn derived_key_too_long() {
    if usize::BITS == 64 {
        let limit256 = (u32::MAX as usize) * 32;
        assert_eq!(pbkdf2_hmac_sha256("p", "s", 1, limit256 + 1), Err("derived key too long".to_string()));
        assert_eq!(
            pbkdf2_hmac_sha256_bytes(b"p", b"s", 1, limit256 + 1),
            Err(Pbkdf2Error::DerivedKeyTooLong)
        );
        let limit512 = (u32::MAX as usize) * 64;
        assert_eq!(pbkdf2_hmac_sha512("p", "s", 1, limit512 + 1), Err("derived key too long".to_string()));
        assert_eq!(pbkdf2_hmac_sha512_bytes(b"p", b"s", 1, usize::MAX), Err(Pbkdf2Error::DerivedKeyTooLong));
    }
}
