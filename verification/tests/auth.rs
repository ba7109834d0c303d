use mnemosyne::auth::{
    authenticated, bearer_token, check_admin, constant_time_eq, generate_token, hash_token, token_from,
    AuthError, TOKEN_BYTES, TOKEN_PREFIX,
};

#[test]
fn constant_time_eq_still_compares_correctly() {
    assert!(constant_time_eq(b"secret", b"secret"));
    assert!(!constant_time_eq(b"secret", b"secreT"));
    assert!(!constant_time_eq(b"secret", b"secret-longer"));
    assert!(constant_time_eq(b"", b""));
}

#[test]
fn a_minted_token_carries_the_prefix_and_32_random_bytes() {
    let t = generate_token();
    assert!(t.starts_with(TOKEN_PREFIX), "{t}");
    assert_eq!(t.len(), TOKEN_PREFIX.len() + TOKEN_BYTES * 2);
}

#[test]
fn two_tokens_are_never_the_same() {
    let a = generate_token();
    let b = generate_token();
    assert_ne!(a, b);
}

#[test]
fn the_hash_is_stable_and_does_not_contain_the_token() {
    let t = "mnem_0123456789abcdef";
    let h = hash_token(t);
    assert_eq!(h, hash_token(t));
    assert_eq!(h.len(), 64);
    assert!(!h.contains("0123456789abcdef"));
}

#[test]
fn a_different_token_hashes_differently() {
    assert_ne!(hash_token("mnem_a"), hash_token("mnem_b"));
}

#[test]
fn the_hash_is_hex_sha256() {
    assert_eq!(hash_token("abc"), "ba7816bf8f01cfea414140de5dae2223b00361a396177a9cb410ff61f20015ad");
}

#[test]
fn the_bearer_token_is_read_with_either_case_of_the_scheme() {
    assert_eq!(bearer_token(Some("Bearer abc")), Some("abc".to_string()));
    assert_eq!(bearer_token(Some("bearer  abc  ")), Some("abc".to_string()));
    assert_eq!(bearer_token(Some("Basic abc")), None);
    assert_eq!(bearer_token(Some("Bearer    ")), None);
    assert_eq!(bearer_token(Some("Bearer")), None);
    assert_eq!(bearer_token(None), None);
}

#[test]
fn a_lookup_becomes_a_user_or_the_right_refusal() {
    assert_eq!(authenticated(Ok(Some(5))).ok(), Some(5));
    assert!(matches!(authenticated(Ok(None)), Err(AuthError::Invalid)));
    assert!(matches!(authenticated(Err("pool closed".into())), Err(AuthError::Backend(m)) if m == "pool closed"));
}

#[test]
fn refusals_say_why_and_an_outage_is_not_blamed_on_the_token() {
    assert_eq!(AuthError::Missing.message(), "missing Authorization: Bearer <token> header");
    assert_eq!(AuthError::Invalid.message(), "invalid or revoked token");
    assert_eq!(AuthError::Backend("down".into()).message(), "could not verify token: down");
    assert_eq!(AuthError::Missing.status(), 401);
    assert_eq!(AuthError::Invalid.status(), 401);
    assert_eq!(AuthError::Backend("down".into()).status(), 503);
    assert!(AuthError::Invalid.challenges());
    assert!(!AuthError::Backend("down".into()).challenges());
}

#[test]
fn the_admin_token_is_checked_exactly() {
    assert!(check_admin("s3cret", Some("Bearer s3cret")).is_ok());
    assert!(matches!(check_admin("s3cret", Some("Bearer s3creT")), Err(AuthError::Invalid)));
    assert!(matches!(check_admin("s3cret", None), Err(AuthError::Missing)));
    assert!(matches!(
        check_admin("", Some("Bearer s3cret")),
        Err(AuthError::Backend(m)) if m == "MNEMOSYNE_ADMIN_TOKEN is not configured; use the `create-user` CLI command instead"
    ));
}

#[test]
fn a_token_is_the_prefix_and_its_bytes_in_lower_case_hex() {
    let mut bytes = vec![0u8; TOKEN_BYTES];
    bytes[0] = 0xab;
    bytes[31] = 0x0f;
    let t = token_from(&bytes);
    assert_eq!(t, format!("mnem_ab{}0f", "00".repeat(30)));
    let other = token_from(&[0x11u8; 32]);
    assert_eq!(other, format!("mnem_{}", "11".repeat(32)));
}
