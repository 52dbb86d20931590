use vault::crypto::{
    decrypt_body, derive_keys, derive_master_key, encrypt_body, unwrap_dek, verify_header_mac,
    wrap_dek, compute_header_mac, CryptoError, Dek, MasterKey, ARGON2_ITERATIONS,
    ARGON2_MEMORY_KIB, ARGON2_PARALLELISM, KEY_LEN, NONCE_LEN, WRAPPED_DEK_LEN,
};

fn test_password() -> &'static [u8] {
    b"correct horse battery staple"
}

fn test_salt() -> [u8; 16] {
    [0u8; 16]
}

fn test_nonce() -> [u8; NONCE_LEN] {
    [0u8; NONCE_LEN]
}

fn master(password: &[u8]) -> MasterKey {
    derive_master_key(password, &test_salt(), ARGON2_MEMORY_KIB, ARGON2_ITERATIONS, ARGON2_PARALLELISM)
        .unwrap()
}

#[test]
fn derive_master_key_returns_32_bytes() {
    let mk = master(test_password());
    assert_eq!(mk.as_bytes().len(), KEY_LEN);
}

#[test]
fn derive_master_key_is_deterministic() {
    let mk1 = master(test_password());
    let mk2 = master(test_password());
    assert_eq!(mk1.as_bytes(), mk2.as_bytes());
}

#[test]
fn derive_master_key_different_password_gives_different_key() {
    let mk1 = master(b"haslo1");
    let mk2 = master(b"haslo2");
    assert_ne!(mk1.as_bytes(), mk2.as_bytes());
}

#[test]
fn derive_master_key_different_salt_gives_different_key() {
    let salt1 = [0u8; 16];
    let salt2 = [1u8; 16];
    let mk1 = derive_master_key(test_password(), &salt1, ARGON2_MEMORY_KIB, ARGON2_ITERATIONS, ARGON2_PARALLELISM)
        .unwrap();
    let mk2 = derive_master_key(test_password(), &salt2, ARGON2_MEMORY_KIB, ARGON2_ITERATIONS, ARGON2_PARALLELISM)
        .unwrap();
    assert_ne!(mk1.as_bytes(), mk2.as_bytes());
}

#[test]
fn derive_master_key_rejects_short_salt_and_bad_costs() {
    assert!(matches!(
        derive_master_key(b"x", &[0u8; 7], 65536, 3, 1),
        Err(CryptoError::Argon2Error)
    ));
    assert!(matches!(derive_master_key(b"x", &[0u8; 16], 7, 3, 1), Err(CryptoError::Argon2Error)));
    assert!(matches!(derive_master_key(b"x", &[0u8; 16], 64, 0, 1), Err(CryptoError::Argon2Error)));
    assert!(matches!(derive_master_key(b"x", &[0u8; 16], 64, 1, 0), Err(CryptoError::Argon2Error)));
    assert!(matches!(derive_master_key(b"x", &[0u8; 16], 15, 1, 2), Err(CryptoError::Argon2Error)));
    assert!(derive_master_key(b"x", &[0u8; 8], 16, 1, 2).is_ok());
}

#[test]
fn derive_keys_produces_different_wrap_and_mac_keys() {
    let mk = master(test_password());
    let keys = derive_keys(&mk).unwrap();
    assert_ne!(keys.wrap_key.as_bytes(), keys.header_mac_key.as_bytes());
}

#[test]
fn derive_keys_is_deterministic() {
    let mk = master(test_password());
    let keys1 = derive_keys(&mk).unwrap();
    let keys2 = derive_keys(&mk).unwrap();
    assert_eq!(keys1.wrap_key.as_bytes(), keys2.wrap_key.as_bytes());
    assert_eq!(keys1.header_mac_key.as_bytes(), keys2.header_mac_key.as_bytes());
}

#[test]
fn hmac_verify_correct_mac_passes() {
    let mk = master(test_password());
    let keys = derive_keys(&mk).unwrap();
    let canonical = vec![0u8; 100];
    let mac = compute_header_mac(&keys.header_mac_key, &canonical);
    assert!(verify_header_mac(&keys.header_mac_key, &canonical, &mac).is_ok());
}

#[test]
fn hmac_verify_tampered_header_fails() {
    let mk = master(test_password());
    let keys = derive_keys(&mk).unwrap();
    let canonical = vec![0u8; 100];
    let mac = compute_header_mac(&keys.header_mac_key, &canonical);
    let mut tampered = canonical.clone();
    tampered[0] ^= 0xFF;
    assert!(verify_header_mac(&keys.header_mac_key, &tampered, &mac).is_err());
}

#[test]
fn hmac_verify_wrong_key_fails() {
    let mk1 = master(b"haslo1");
    let mk2 = master(b"haslo2");
    let keys1 = derive_keys(&mk1).unwrap();
    let keys2 = derive_keys(&mk2).unwrap();
    let canonical = vec![0u8; 100];
    let mac = compute_header_mac(&keys1.header_mac_key, &canonical);
    assert!(verify_header_mac(&keys2.header_mac_key, &canonical, &mac).is_err());
}

#[test]
fn hmac_verify_rejects_truncated_tag() {
    let mk = master(test_password());
    let keys = derive_keys(&mk).unwrap();
    let canonical = vec![5u8; 100];
    let mac = compute_header_mac(&keys.header_mac_key, &canonical);
    assert!(matches!(
        verify_header_mac(&keys.header_mac_key, &canonical, &mac[..31]),
        Err(CryptoError::HmacMismatch)
    ));
}

#[test]
fn wrap_unwrap_dek_roundtrip() {
    let mk = master(test_password());
    let keys = derive_keys(&mk).unwrap();
    let dek = Dek::from_bytes([42u8; KEY_LEN]);
    let nonce = test_nonce();

    let wrapped = wrap_dek(&keys.wrap_key, &nonce, &dek).unwrap();
    assert_eq!(wrapped.len(), WRAPPED_DEK_LEN);

    let unwrapped = unwrap_dek(&keys.wrap_key, &nonce, &wrapped).unwrap();
    assert_eq!(unwrapped.as_bytes(), dek.as_bytes());
}

#[test]
fn unwrap_dek_wrong_key_fails() {
    let mk1 = master(b"haslo1");
    let mk2 = master(b"haslo2");
    let keys1 = derive_keys(&mk1).unwrap();
    let keys2 = derive_keys(&mk2).unwrap();
    let dek = Dek::from_bytes([99u8; KEY_LEN]);
    let nonce = test_nonce();

    let wrapped = wrap_dek(&keys1.wrap_key, &nonce, &dek).unwrap();
    assert!(unwrap_dek(&keys2.wrap_key, &nonce, &wrapped).is_err());
}

#[test]
fn unwrap_dek_tampered_ciphertext_fails() {
    let mk = master(test_password());
    let keys = derive_keys(&mk).unwrap();
    let dek = Dek::from_bytes([7u8; KEY_LEN]);
    let nonce = test_nonce();

    let mut wrapped = wrap_dek(&keys.wrap_key, &nonce, &dek).unwrap();
    wrapped[0] ^= 0xFF;
    assert!(matches!(
        unwrap_dek(&keys.wrap_key, &nonce, &wrapped),
        Err(CryptoError::AeadDecryptError)
    ));
}

#[test]
fn encrypt_decrypt_body_roundtrip() {
    let mk = master(test_password());
    let keys = derive_keys(&mk).unwrap();
    let dek_raw = Dek::from_bytes([11u8; KEY_LEN]);

    let nonce_dek = test_nonce();
    let wrapped = wrap_dek(&keys.wrap_key, &nonce_dek, &dek_raw).unwrap();
    let dek = unwrap_dek(&keys.wrap_key, &nonce_dek, &wrapped).unwrap();

    let body = b"test body CBOR data";
    let aad = vec![0u8; 132];
    let nonce_body = [1u8; NONCE_LEN];

    let ct = encrypt_body(&dek, &nonce_body, body, &aad).unwrap();
    assert_eq!(ct.len(), body.len() + 16);
    let pt = decrypt_body(&dek, &nonce_body, &ct, &aad).unwrap();
    assert_eq!(pt, body);
}

#[test]
fn decrypt_body_tampered_ciphertext_fails() {
    let dek = Dek::from_bytes([55u8; KEY_LEN]);
    let body = b"tajne dane";
    let aad = vec![0u8; 132];
    let nonce = [2u8; NONCE_LEN];

    let mut ct = encrypt_body(&dek, &nonce, body, &aad).unwrap();
    ct[0] ^= 0xFF;
    assert!(decrypt_body(&dek, &nonce, &ct, &aad).is_err());
}

#[test]
fn decrypt_body_wrong_aad_fails() {
    let dek = Dek::from_bytes([33u8; KEY_LEN]);
    let body = b"tajne dane body";
    let aad_ok = vec![0u8; 132];
    let aad_bad = vec![1u8; 132];
    let nonce = [3u8; NONCE_LEN];

    let ct = encrypt_body(&dek, &nonce, body, &aad_ok).unwrap();
    assert!(decrypt_body(&dek, &nonce, &ct, &aad_bad).is_err());
}

#[test]
fn decrypt_body_truncated_ciphertext_fails() {
    let dek = Dek::from_bytes([77u8; KEY_LEN]);
    let body = b"dane do uciecia";
    let aad = vec![0u8; 132];
    let nonce = [4u8; NONCE_LEN];

    let ct = encrypt_body(&dek, &nonce, body, &aad).unwrap();
    let truncated = &ct[..ct.len() / 2];
    assert!(decrypt_body(&dek, &nonce, truncated, &aad).is_err());
}

#[test]
fn wrapped_dek_has_correct_length() {
    let mk = master(test_password());
    let keys = derive_keys(&mk).unwrap();
    let dek = Dek::from_bytes([0u8; KEY_LEN]);
    let nonce = test_nonce();
    let wrapped = wrap_dek(&keys.wrap_key, &nonce, &dek).unwrap();
    assert_eq!(wrapped.len(), WRAPPED_DEK_LEN);
    assert_eq!(WRAPPED_DEK_LEN, 48);
}

#[test]
fn wrapped_dek_is_not_the_dek() {
    let mk = master(test_password());
    let keys = derive_keys(&mk).unwrap();
    let dek = Dek::from_bytes([9u8; KEY_LEN]);
    let wrapped = wrap_dek(&keys.wrap_key, &test_nonce(), &dek).unwrap();
    assert_ne!(&wrapped[..32], dek.as_bytes());
}

#[test]
fn crypto_error_messages_do_not_tell_password_from_damage() {
    assert_eq!(CryptoError::AeadDecryptError.message(), "ERR_BAD_PASSWORD_OR_CORRUPTED");
    assert_eq!(CryptoError::HmacMismatch.message(), "ERR_BAD_PASSWORD_OR_CORRUPTED");
    assert_eq!(CryptoError::Argon2Error.message(), "błąd wyprowadzenia klucza Argon2id");
}
