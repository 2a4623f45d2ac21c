use sha_hmac::{bytes_to_hex, sha256, sha256_bytes, sha512, sha512_bytes};

#[test]
fn sha256_empty() {
    assert_eq!(sha256(""), "e3b0c44298fc1c149afbf4c8996fb92427ae41e4649b934ca495991b7852b855");
}

#[test]
fn sha256_abc() {
    assert_eq!(sha256("abc"), "ba7816bf8f01cfea414140de5dae2223b00361a396177a9cb410ff61f20015ad");
}

#[test]
fn sha256_two_blocks() {
    assert_eq!(
        sha256("abcdbcdecdefdefgefghfghighijhijkijkljklmklmnlmnomnopnopq"),
        "248d6a61d20638b8e5c026930c3e6039a33ce45964ff2167f6ecedd419db06c1"
    );
}

#[test]
fn sha256_million_a() {
    let input = "a".repeat(1_000_000);
    assert_eq!(sha256(&input), "cdc76e5c9914fb9281a1c7e284d73e67f1809a48a497200e046d39ccc7112cd0");
}

#[test]
fn sha512_empty() {
    assert_eq!(
        sha512(""),
        "cf83e1357eefb8bdf1542850d66d8007d620e4050b5715dc83f4a921d36ce9ce47d0d13c5d85f2b0ff8318d2877eec2f63b931bd47417a81a538327af927da3e"
    );
}

#[test]
fn sha512_abc() {
    assert_eq!(
        sha512("abc"),
        "ddaf35a193617abacc417349ae20413112e6fa4e89a97ea20a9eeee64b55d39a2192992a274fc1a836ba3c23a3feebbd454d4423643ce80e2a9ac94fa54ca49f"
    );
}

#[test]
fn sha512_two_blocks() {
    assert_eq!(
        sha512("abcdefghbcdefghicdefghijdefghijkefghijklfghijklmghijklmnhijklmnoijklmnopjklmnopqklmnopqrlmnopqrsmnopqrstnopqrstu"),
        "8e959b75dae313da8cf4f72814fc143f8f7779c6eb9f7fa17299aeadb6889018501d289e4900f7e4331b99dec4b5433ac7d329eeb6dd26545e96e55b874be909"
    );
}

#[test]
fn sha512_million_a() {
    let input = "a".repeat(1_000_000);
    assert_eq!(
        sha512(&input),
        "e718483d0ce769644e2e42c7bc15b4638e1f98b13b2044285632a803afa973ebde0ff244877ea60a4cb0432ce577c31beb009c5c2c49aa2e4eadb217ad8cc09b"
    );
}

#[test]
fn digest_lengths_around_padding_boundaries() {
    for n in [0usize, 1, 55, 56, 57, 63, 64, 65, 111, 112, 113, 127, 128, 129, 300] {
        let input = "x".repeat(n);
        assert_eq!(sha256(&input).len(), 64);
        assert_eq!(sha512(&input).len(), 128);
        assert_eq!(sha256_bytes(input.as_bytes()).len(), 32);
        assert_eq!(sha512_bytes(input.as_bytes()).len(), 64);
    }
}

#[test]
fn repeated_calls_agree() {
    assert_eq!(sha256("determinism"), sha256("determinism"));
    assert_eq!(sha512("determinism"), sha512("determinism"));
}

#[test]
fn one_byte_change_changes_digest() {
    let pairs = [("abc", "abd"), ("", "\0"), ("hello world", "hello worle"), ("aaaa", "aaab")];
    for (a, b) in pairs {
        assert_ne!(sha256(a), sha256(b));
        assert_ne!(sha512(a), sha512(b));
    }
    let base = vec![0u8; 200];
    for i in [0usize, 55, 63, 64, 127, 199] {
        let mut other = base.clone();
        other[i] ^= 1;
        assert_ne!(sha256_bytes(&base), sha256_bytes(&other));
        assert_ne!(sha512_bytes(&base), sha512_bytes(&other));
    }
}

#[test]
fn hex_encoding() {
    assert_eq!(bytes_to_hex(&[]), "");
    assert_eq!(bytes_to_hex(&[0x00, 0xff, 0x1a, 0xb0, 0x09]), "00ff1ab009");
}
