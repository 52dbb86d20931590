use vault::crypto::{
    compute_header_mac, decrypt_body, derive_keys, derive_master_key, encrypt_body, unwrap_dek,
    verify_header_mac, wrap_dek, Dek, ARGON2_ITERATIONS, ARGON2_MEMORY_KIB, ARGON2_PARALLELISM,
    KEY_LEN,
};
use vault::error::VaultError;
use vault::format::{
    parse_header, FormatError, KdfParams, VaultHeader, AEAD_ID_CHACHA20_POLY1305, HEADER_MAC_LEN,
    KDF_ID_ARGON2ID, KDF_SALT_LEN, NONCE_BODY_LEN, NONCE_DEK_LEN, VERSION, WRAPPED_DEK_LEN,
};
use vault::service::{decrypt_to_body_cbor, rewrap_vault_bytes, verify_structure};

const PASSWORD: &[u8] = b"correct horse battery staple";
const SALT: [u8; KDF_SALT_LEN] = [0u8; KDF_SALT_LEN];
const NONCE_DEK: [u8; NONCE_DEK_LEN] = [1u8; NONCE_DEK_LEN];
const NONCE_BODY: [u8; NONCE_BODY_LEN] = [2u8; NONCE_BODY_LEN];

fn make_vault_bytes() -> Vec<u8> {
    let mk = derive_master_key(PASSWORD, &SALT, ARGON2_MEMORY_KIB, ARGON2_ITERATIONS, ARGON2_PARALLELISM)
        .unwrap();
    let keys = derive_keys(&mk).unwrap();
    let dek = Dek::from_bytes([42u8; KEY_LEN]);
    let wrapped_dek = wrap_dek(&keys.wrap_key, &NONCE_DEK, &dek).unwrap();

    let mut header = VaultHeader {
        version: VERSION,
        flags: 0,
        kdf_id: KDF_ID_ARGON2ID,
        kdf_params: KdfParams::default_v1(),
        kdf_salt: SALT,
        aead_id: AEAD_ID_CHACHA20_POLY1305,
        nonce_dek: NONCE_DEK,
        wrapped_dek,
        header_mac: [0u8; HEADER_MAC_LEN],
        nonce_body: NONCE_BODY,
    };

    let canonical = header.serialize_canonical();
    let mac = compute_header_mac(&keys.header_mac_key, &canonical);
    header.header_mac = mac;

    let full_header = header.serialize_full();
    let aad = full_header.clone();
    let body_cbor = b"test body";
    let ct_body = encrypt_body(&dek, &NONCE_BODY, body_cbor, &aad).unwrap();

    let mut file = full_header;
    file.extend_from_slice(&ct_body);
    file
}

#[test]
fn adversarial_tests_a1_modified_body_byte() {
    let mut file = make_vault_bytes();
    file[144] ^= 0xFF;
    let ct_body = &file[144..];
    let aad = &file[..144];
    let dek = Dek::from_bytes([42u8; KEY_LEN]);
    let result = decrypt_body(&dek, &NONCE_BODY, ct_body, aad);
    assert!(result.is_err(), "A1: a changed body must not decrypt");
}

#[test]
fn adversarial_tests_a2_modified_kdf_iterations() {
    let mut file = make_vault_bytes();
    file[13] ^= 0xFF;
    let mk = derive_master_key(PASSWORD, &SALT, ARGON2_MEMORY_KIB, ARGON2_ITERATIONS, ARGON2_PARALLELISM)
        .unwrap();
    let keys = derive_keys(&mk).unwrap();
    let canonical = &file[..100];
    let stored_mac = &file[100..132];
    let result = verify_header_mac(&keys.header_mac_key, canonical, stored_mac);
    assert!(result.is_err(), "A2: a changed header must fail the HMAC");
}

#[test]
fn adversarial_tests_a3_modified_aead_id() {
    let mut file = make_vault_bytes();
    file[35] = 0x63;
    let mk = derive_master_key(PASSWORD, &SALT, ARGON2_MEMORY_KIB, ARGON2_ITERATIONS, ARGON2_PARALLELISM)
        .unwrap();
    let keys = derive_keys(&mk).unwrap();
    let canonical = &file[..100];
    let stored_mac = &file[100..132];
    let result = verify_header_mac(&keys.header_mac_key, canonical, stored_mac);
    assert!(result.is_err(), "A3: a changed aead_id must fail the HMAC");
}

#[test]
fn adversarial_tests_a4_replaced_wrapped_dek() {
    let mut file = make_vault_bytes();
    for b in &mut file[52..100] {
        *b = 0xAB;
    }
    let mk = derive_master_key(PASSWORD, &SALT, ARGON2_MEMORY_KIB, ARGON2_ITERATIONS, ARGON2_PARALLELISM)
        .unwrap();
    let keys = derive_keys(&mk).unwrap();
    let canonical = &file[..100];
    let stored_mac = &file[100..132];
    let result = verify_header_mac(&keys.header_mac_key, canonical, stored_mac);
    assert!(result.is_err(), "A4: a replaced wrapped_dek must fail the HMAC");
}

#[test]
fn adversarial_tests_a5_brute_force_cost() {
    let start = std::time::Instant::now();
    derive_master_key(b"password123", &SALT, ARGON2_MEMORY_KIB, ARGON2_ITERATIONS, ARGON2_PARALLELISM)
        .unwrap();
    let elapsed = start.elapsed();
    assert!(
        elapsed.as_millis() >= 100,
        "A5: Argon2id should take >= 100ms, took {}ms",
        elapsed.as_millis()
    );
    println!(
        "A5: Argon2id took {}ms, about {:.2} guesses/s",
        elapsed.as_millis(),
        1000.0 / elapsed.as_millis() as f64
    );
}

#[test]
fn adversarial_tests_a6_old_password_after_changepass() {
    let file = make_vault_bytes();
    let mk_wrong = derive_master_key(b"stare_haslo", &SALT, ARGON2_MEMORY_KIB, ARGON2_ITERATIONS, ARGON2_PARALLELISM)
        .unwrap();
    let keys_wrong = derive_keys(&mk_wrong).unwrap();
    let wrapped_dek: [u8; WRAPPED_DEK_LEN] = file[52..100].try_into().unwrap();
    let result = unwrap_dek(&keys_wrong.wrap_key, &NONCE_DEK, &wrapped_dek);
    assert!(result.is_err(), "A6: another password must not unwrap the DEK");
}

#[test]
fn adversarial_tests_a7_truncated_file() {
    let file = make_vault_bytes();
    let truncated = &file[..file.len() / 2];
    let ct_body = &truncated[144.min(truncated.len())..];
    let aad = &file[..144];
    let dek = Dek::from_bytes([42u8; KEY_LEN]);
    let result = decrypt_body(&dek, &NONCE_BODY, ct_body, aad);
    assert!(result.is_err(), "A7: a truncated file must not decrypt");
}

#[test]
fn a8_empty_or_wrong_magic() {
    assert!(matches!(parse_header(&[]), Err(FormatError::FileTooShort)));
    assert!(matches!(verify_structure(&[]), Err(VaultError::InvalidStructure(_))));
    let mut file = make_vault_bytes();
    file[0] = b'X';
    assert!(matches!(parse_header(&file), Err(FormatError::InvalidMagic)));
    assert!(matches!(verify_structure(&file), Err(VaultError::InvalidStructure(_))));
}

#[test]
fn old_password_fails_after_real_changepass() {
    let dek = Dek::from_bytes([42u8; KEY_LEN]);
    let old = vault::service::assemble_vault_bytes("stare", &dek, b"body", [3u8; 16], [4u8; 12], [5u8; 12])
        .unwrap();
    let new_bytes = rewrap_vault_bytes("nowe", &dek, b"body").unwrap();
    assert_ne!(&old[..132], &new_bytes[..132]);
    assert!(matches!(decrypt_to_body_cbor(&new_bytes, "stare"), Err(VaultError::BadPasswordOrCorrupted)));
}
