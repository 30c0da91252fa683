use finance::investment::signing::{auth_query, auth_signature, epoch_ms, now_ms, sign};

#[test]
fn sign_is_hmac_sha256_lower_hex() {
    assert_eq!(
        sign("key", "The quick brown fox jumps over the lazy dog"),
        "f7bc83f430538424b13298e6aa6fb143ef4d59a14946175997479dbc2d1a3cd8"
    );
    assert_eq!(sign("", "").len(), 64);
    assert_ne!(sign("a", "msg"), sign("b", "msg"));
}

#[test]
fn auth_query_and_signature() {
    assert_eq!(auth_query(1700000000000, "KEY"), "timestamp=1700000000000&apiKey=KEY");
    assert_eq!(auth_signature("secret", 1, "k"), sign("secret", "timestamp=1&apiKey=k"));
}

#[test]
fn clock_is_after_2020() {
    assert!(now_ms() > 1_577_836_800_000);
}

#[test]
fn clock_reading_to_epoch_ms() {
    assert_eq!(epoch_ms(None), 0);
    assert_eq!(epoch_ms(Some(1_700_000_000_123)), 1_700_000_000_123);
    assert_eq!(epoch_ms(Some((1u128 << 64) + 5)), 5);
}
