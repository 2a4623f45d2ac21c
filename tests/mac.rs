use sha_hmac::{bytes_to_hex, hmac_sha256, hmac_sha256_bytes, hmac_sha512, hmac_sha512_bytes, sha256_bytes, sha512_bytes};

#[test]
fn hmac_sha256_short_key() {
    let key = [0x0bu8; 20];
    assert_eq!(
        bytes_to_hex(&hmac_sha256_bytes(&key, b"Hi There")),
        "b0344c61d8db38535ca8afceaf0bf12b881dc200c9833da726e9376c2e32cff7"
    );
}

#[test]
fn hmac_sha256_text_key() {
    assert_eq!(
        hmac_sha256("Jefe", "what do ya want for nothing?"),
        "5bdcc146bf60754e6a042426089575c75a003f089d2739839dec58b964ec3843"
    );
}

#[test]
fn hmac_sha256_long_key() {
    let key = [0xaau8; 131];
    assert_eq!(
        bytes_to_hex(&hmac_sha256_bytes(&key, b"Test Using Larger Than Block-Size Key - Hash Key First")),
        "60e431591ee0b67f0d8a26aacbf5b77f8e0bc6213728c5140546040f0ee37f54"
    );
}

#[test]
fn hmac_sha512_short_key() {
    let key = [0x0bu8; 20];
    assert_eq!(
        bytes_to_hex(&hmac_sha512_bytes(&key, b"Hi There")),
        "87aa7cdea5ef619d4ff0b4241a1d6cb02379f4e2ce4ec2787ad0b30545e17cdedaa833b7d6b8a702038b274eaea3f4e4be9d914eeb61f1702e696c203a126854"
    );
}

#[test]
fn hmac_sha512_text_key() {
    assert_eq!(
        hmac_sha512("Jefe", "what do ya want for nothing?"),
        "164b7a7bfcf819e2e395fbe73b56e0a387bd64222e831fd610270cd7ea2505549758bf75c05a994a6d034f65f8f0e6fdcaeab1a34d4a6b4b636e070a38bce737"
    );
}

#[test]
fn hmac_sha512_long_key() {
    let key = [0xaau8; 131];
    assert_eq!(
        bytes_to_hex(&hmac_sha512_bytes(&key, b"Test Using Larger Than Block-Size Key - Hash Key First")),
        "80b24263c7c1a3ebb71493c1dd7be8b49b46d1f41b4aeec1121b013783f8f3526b56d037e05f2598bd0fd2215d6a1e5295e64f73f63f0aec8b915a985d786598"
    );
}

#[test]
fn long_key_equals_its_digest() {
    let key256 = [0x5au8; 65];
    assert_eq!(hmac_sha256_bytes(&key256, b"msg"), hmac_sha256_bytes(&sha256_bytes(&key256), b"msg"));
    let key512 = [0x5au8; 129];
    assert_eq!(hmac_sha512_bytes(&key512, b"msg"), hmac_sha512_bytes(&sha512_bytes(&key512), b"msg"));
}

#[test]
fn block_sized_key_is_not_hashed() {
    let key = [0x33u8; 64];
    assert_ne!(hmac_sha256_bytes(&key, b"m"), hmac_sha256_bytes(&sha256_bytes(&key), b"m"));
}

#[test]
fn hmac_repeated_calls_agree() {
    assert_eq!(hmac_sha256("k", "x"), hmac_sha256("k", "x"));
    assert_eq!(hmac_sha512("k", "x"), hmac_sha512("k", "x"));
    assert_eq!(hmac_sha256("k", "x").len(), 64);
    assert_eq!(hmac_sha512("k", "x").len(), 128);
}
