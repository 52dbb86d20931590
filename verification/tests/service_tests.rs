use vault::crypto::{self, Dek};
use vault::error::VaultError;
use vault::format::{
    parse_header, serialize_body, KdfParams, RecordFields, VaultBody, VaultHeader, VaultRecord,
    AEAD_ID_CHACHA20_POLY1305, HEADER_MAC_LEN, KDF_ID_ARGON2ID, KDF_SALT_LEN, NONCE_BODY_LEN,
    NONCE_DEK_LEN, VERSION, WRAPPED_DEK_LEN,
};
use vault::record::{LoginInput, Record, RecordType};
use vault::service::{
    add_login_to_vault, assemble_vault_bytes, build_new_vault_bytes, decrypt_to_body_cbor,
    decrypt_vault, decrypt_vault_body, list_text_of, map_crypto_err, map_format_err,
    map_storage_err, new_vault_bytes, plan_get, record_from_vault, resealed_vault_bytes,
    rewrap_vault_bytes, save_vault, vault_record_from_record, verify_structure, GetAction,
};
use vault::storage::StorageError;
use vault::view;

const TEST_PASSWORD: &str = "correct horse battery staple";
const NEW_PASSWORD: &str = "nowe haslo glowne super dlugie";

fn structural_bytes() -> Vec<u8> {
    let h = VaultHeader {
        version: VERSION,
        flags: 0,
        kdf_id: KDF_ID_ARGON2ID,
        kdf_params: KdfParams::default_v1(),
        kdf_salt: [0u8; KDF_SALT_LEN],
        aead_id: AEAD_ID_CHACHA20_POLY1305,
        nonce_dek: [1u8; NONCE_DEK_LEN],
        wrapped_dek: [2u8; WRAPPED_DEK_LEN],
        header_mac: [3u8; HEADER_MAC_LEN],
        nonce_body: [4u8; NONCE_BODY_LEN],
    };
    let mut b = h.serialize_full();
    b.push(0xAB);
    b
}

#[test]
fn verify_structure_accepts_valid_file() {
    assert!(verify_structure(&structural_bytes()).is_ok());
}

#[test]
fn verify_structure_rejects_garbage() {
    let err = verify_structure(b"to nie jest vault").unwrap_err();
    assert!(matches!(err, VaultError::InvalidStructure(_)));
}

#[test]
fn verify_structure_rejects_empty() {
    assert!(matches!(verify_structure(&[]), Err(VaultError::InvalidStructure(_))));
}

#[test]
fn verify_structure_rejects_bad_magic() {
    let mut b = structural_bytes();
    b[0] = b'X';
    assert!(matches!(verify_structure(&b), Err(VaultError::InvalidStructure(_))));
}

fn github_record() -> VaultRecord {
    VaultRecord {
        id: [1u8; 16],
        record_type: "login".to_string(),
        title: "github".to_string(),
        tags: vec!["praca".to_string()],
        notes: String::new(),
        created_at: 1,
        modified_at: 1,
        fields: RecordFields::Login {
            url: "https://github.com".to_string(),
            username: "czarny".to_string(),
            password: "tajne123".to_string(),
        },
    }
}

/// The body that `build_encrypted_vault` seals: one login.
fn fixture_body_cbor() -> Vec<u8> {
    serialize_body(&VaultBody { schema_version: 1, records: vec![github_record()] }).unwrap()
}

/// A vault with one login under `TEST_PASSWORD`, DEK `[42; 32]`.
fn build_encrypted_vault() -> Vec<u8> {
    let kdf_salt = [7u8; KDF_SALT_LEN];
    let nonce_dek = [9u8; NONCE_DEK_LEN];
    let nonce_body = [11u8; NONCE_BODY_LEN];

    let master = crypto::derive_master_key(TEST_PASSWORD.as_bytes(), &kdf_salt, 65536, 3, 1).unwrap();
    let keys = crypto::derive_keys(&master).unwrap();

    let dek = Dek::from_bytes([42u8; 32]);
    let wrapped = crypto::wrap_dek(&keys.wrap_key, &nonce_dek, &dek).unwrap();

    let mut header = VaultHeader {
        version: VERSION,
        flags: 0,
        kdf_id: KDF_ID_ARGON2ID,
        kdf_params: KdfParams::default_v1(),
        kdf_salt,
        aead_id: AEAD_ID_CHACHA20_POLY1305,
        nonce_dek,
        wrapped_dek: wrapped,
        header_mac: [0u8; HEADER_MAC_LEN],
        nonce_body,
    };
    let canonical = header.serialize_canonical();
    header.header_mac = crypto::compute_header_mac(&keys.header_mac_key, &canonical);

    let body = VaultBody { schema_version: 1, records: vec![github_record()] };
    let body_cbor = serialize_body(&body).unwrap();

    let aad = header.aad_for_body();
    let ct_body = crypto::encrypt_body(&dek, &nonce_body, &body_cbor, &aad).unwrap();

    let mut file = header.serialize_full();
    file.extend_from_slice(&ct_body);
    file
}

#[test]
fn open_decrypts_records_with_correct_password() {
    let records = decrypt_vault(&build_encrypted_vault(), TEST_PASSWORD).unwrap();
    assert_eq!(records.len(), 1);
    let r = &records[0];
    assert_eq!(r.title, "github");
    assert_eq!(r.rtype, RecordType::Login);
    assert_eq!(view::field_value(r, "username").as_deref(), Some("czarny"));
    assert_eq!(view::field_value(r, "password").as_deref(), Some("tajne123"));
}

#[test]
fn open_wrong_password_is_bad_or_corrupted() {
    let err = decrypt_vault(&build_encrypted_vault(), "zle haslo").unwrap_err();
    assert!(matches!(err, VaultError::BadPasswordOrCorrupted));
}

#[test]
fn open_tampered_body_is_bad_or_corrupted() {
    let mut bytes = build_encrypted_vault();
    let last = bytes.len() - 1;
    bytes[last] ^= 0xFF;
    let err = decrypt_vault(&bytes, TEST_PASSWORD).unwrap_err();
    assert!(matches!(err, VaultError::BadPasswordOrCorrupted));
}

#[test]
fn open_tampered_header_is_bad_or_corrupted() {
    let mut bytes = build_encrypted_vault();
    bytes[52] ^= 0xFF;
    let err = decrypt_vault(&bytes, TEST_PASSWORD).unwrap_err();
    assert!(matches!(err, VaultError::BadPasswordOrCorrupted));
}

fn new_vault() -> Vec<u8> {
    build_new_vault_bytes(
        TEST_PASSWORD,
        [5u8; KDF_SALT_LEN],
        [6u8; 32],
        [7u8; NONCE_DEK_LEN],
        [8u8; NONCE_BODY_LEN],
    )
    .unwrap()
}

#[test]
fn init_then_open_roundtrip_empty_vault() {
    let records = decrypt_vault(&new_vault(), TEST_PASSWORD).unwrap();
    assert!(records.is_empty());
}

#[test]
fn init_vault_wrong_password_fails_to_open() {
    assert!(matches!(decrypt_vault(&new_vault(), "inne haslo"), Err(VaultError::BadPasswordOrCorrupted)));
}

#[test]
fn init_vault_passes_structural_verify() {
    assert!(verify_structure(&new_vault()).is_ok());
}

/// The vault of `build_encrypted_vault` under `NEW_PASSWORD`: its DEK and body
/// sealed anew with a new salt and new nonces. (Opening the old file first would
/// give the same DEK and body; see `rewrap_opens_with_new_password_only`.)
fn rewrap_to_new_password() -> Vec<u8> {
    let dek = Dek::from_bytes([42u8; 32]);
    let body_cbor = fixture_body_cbor();
    assemble_vault_bytes(
        NEW_PASSWORD,
        &dek,
        &body_cbor,
        [13u8; KDF_SALT_LEN],
        [14u8; NONCE_DEK_LEN],
        [15u8; NONCE_BODY_LEN],
    )
    .unwrap()
}

#[test]
fn changepass_new_password_opens_and_keeps_records() {
    let new_bytes = rewrap_to_new_password();
    let records = decrypt_vault(&new_bytes, NEW_PASSWORD).unwrap();
    assert_eq!(records.len(), 1);
    assert_eq!(records[0].title, "github");
    assert_eq!(view::field_value(&records[0], "password").as_deref(), Some("tajne123"));
}

#[test]
fn changepass_old_password_no_longer_opens() {
    let new_bytes = rewrap_to_new_password();
    assert!(matches!(decrypt_vault(&new_bytes, TEST_PASSWORD), Err(VaultError::BadPasswordOrCorrupted)));
}

#[test]
fn changepass_output_passes_structural_verify() {
    let new_bytes = rewrap_to_new_password();
    assert!(verify_structure(&new_bytes).is_ok());
}

#[test]
fn save_adds_record_and_reopens() {
    let bytes = build_encrypted_vault();
    let (header, dek, mut body) = decrypt_vault_body(&bytes, TEST_PASSWORD).unwrap();
    assert_eq!(body.records.len(), 1);
    body.records.push(VaultRecord {
        id: [2u8; 16],
        record_type: "login".to_string(),
        title: "gitlab".to_string(),
        tags: vec![],
        notes: String::new(),
        created_at: 2,
        modified_at: 2,
        fields: RecordFields::Login {
            url: "https://gitlab.com".to_string(),
            username: "u2".to_string(),
            password: "p2".to_string(),
        },
    });
    let saved = resealed_vault_bytes(&header, &dek, &body, [77u8; NONCE_BODY_LEN]).unwrap();
    let records = decrypt_vault(&saved, TEST_PASSWORD).unwrap();
    assert_eq!(records.len(), 2);
    assert!(records.iter().any(|r| r.title == "github"));
    assert!(records.iter().any(|r| r.title == "gitlab"));
}

#[test]
fn save_rotates_nonce_body_but_keeps_header() {
    let orig = build_encrypted_vault();
    let (header, dek, body) = decrypt_vault_body(&orig, TEST_PASSWORD).unwrap();
    let after = resealed_vault_bytes(&header, &dek, &body, [99u8; NONCE_BODY_LEN]).unwrap();
    assert_eq!(&orig[..132], &after[..132]);
    assert_eq!(&after[132..144], &[99u8; NONCE_BODY_LEN]);
    assert_ne!(&orig[132..144], &after[132..144]);
    assert_eq!(decrypt_vault(&after, TEST_PASSWORD).unwrap().len(), 1);
}

#[test]
fn record_maps_to_format_and_back() {
    let inp = LoginInput {
        title: "x".to_string(),
        url: "https://u".to_string(),
        username: "usr".to_string(),
        password: "pw".to_string(),
        tags: vec!["t".to_string()],
        notes: "n".to_string(),
    };
    let rec = Record::new_login(inp, [3u8; 16], 5).unwrap();
    let vr = vault_record_from_record(&rec).unwrap();
    assert_eq!(vr.record_type, "login");

    let back = record_from_vault(&vr).unwrap();
    assert_eq!(back.title, "x");
    assert_eq!(view::field_value(&back, "username").as_deref(), Some("usr"));
    assert_eq!(view::field_value(&back, "password").as_deref(), Some("pw"));
}

#[test]
fn non_login_record_is_invalid_structure() {
    let mut vr = github_record();
    vr.record_type = "note".to_string();
    vr.fields = RecordFields::Note { content: "c".to_string() };
    match record_from_vault(&vr) {
        Err(VaultError::InvalidStructure(why)) => {
            assert_eq!(why, "nieobslugiwany typ rekordu w MVP: note")
        },
        other => panic!("unexpected: {:?}", other),
    }
}

#[test]
fn login_without_field_cannot_be_stored() {
    let mut rec = Record::new_login(
        LoginInput {
            title: "x".to_string(),
            url: "u".to_string(),
            username: "n".to_string(),
            password: "p".to_string(),
            tags: vec![],
            notes: String::new(),
        },
        [0u8; 16],
        1,
    )
    .unwrap();
    rec.fields.insert("url".to_string(), vault::record::FieldValue::Uint(1));
    match vault_record_from_record(&rec) {
        Err(VaultError::InvalidStructure(why)) => assert_eq!(why, "rekord login bez pola: url"),
        other => panic!("unexpected: {:?}", other),
    }
}

#[test]
fn verify_structure_message_is_the_format_message() {
    match verify_structure(&[]) {
        Err(VaultError::InvalidStructure(why)) => assert_eq!(why, "Plik vault jest zbyt krótki"),
        other => panic!("unexpected: {:?}", other),
    }
}

#[test]
fn error_mappings() {
    assert!(matches!(map_crypto_err(crypto::CryptoError::HmacMismatch), VaultError::BadPasswordOrCorrupted));
    assert!(matches!(map_crypto_err(crypto::CryptoError::Argon2Error), VaultError::BadPasswordOrCorrupted));
    match map_format_err(vault::format::FormatError::InvalidMagic) {
        VaultError::InvalidStructure(why) => assert_eq!(why, "Nieprawidłowy nagłówek pliku (brak VLT1)"),
        other => panic!("unexpected: {:?}", other),
    }
    assert!(matches!(map_storage_err(StorageError::Io(std::io::Error::other("x"))), VaultError::Io(_)));
    assert!(matches!(
        map_storage_err(StorageError::TempFileError(std::io::Error::other("x"))),
        VaultError::Io(_)
    ));
    match map_storage_err(StorageError::FileTooLarge(5)) {
        VaultError::InvalidStructure(why) => {
            assert_eq!(why, "Plik vault (5 bajtów) przekracza limit 100 MiB")
        },
        other => panic!("unexpected: {:?}", other),
    }
}

#[test]
fn add_login_then_list_and_get() {
    let bytes = build_encrypted_vault();
    let (header, dek, body) = decrypt_vault_body(&bytes, TEST_PASSWORD).unwrap();
    let input = LoginInput {
        title: "gitlab".to_string(),
        url: "https://gitlab.com".to_string(),
        username: "czarny".to_string(),
        password: "inne123".to_string(),
        tags: vec!["praca".to_string()],
        notes: String::new(),
    };
    let (file, rec) = add_login_to_vault(&header, &dek, body, input, 77).unwrap();
    assert_eq!(rec.created_at, 77);
    assert_eq!(rec.id[6] >> 4, 4);
    assert_eq!(&file[..132], &bytes[..132]);
    let records = decrypt_vault(&file, TEST_PASSWORD).unwrap();
    assert_eq!(records.len(), 2);
    assert_eq!(records[1].id, rec.id);
    let listed = list_text_of(&records, None, None);
    assert!(listed.contains("gitlab"));
    assert!(!listed.contains("inne123"));
    match plan_get(&records, "gitlab", Some("password"), false).unwrap() {
        GetAction::Print(v) => assert_eq!(v, "inne123"),
        other => panic!("unexpected: {:?}", other),
    }
}

#[test]
fn add_login_refuses_blank_title() {
    let (header, dek, body) = decrypt_vault_body(&build_encrypted_vault(), TEST_PASSWORD).unwrap();
    let input = LoginInput {
        title: "  ".to_string(),
        url: String::new(),
        username: "u".to_string(),
        password: String::new(),
        tags: vec![],
        notes: String::new(),
    };
    match add_login_to_vault(&header, &dek, body, input, 1) {
        Err(VaultError::InvalidStructure(why)) => assert_eq!(why, "tytul nie moze byc pusty"),
        other => panic!("unexpected: {:?}", other.map(|_| ())),
    }
}

#[test]
fn get_plans_each_case() {
    let records = decrypt_vault(&build_encrypted_vault(), TEST_PASSWORD).unwrap();
    match plan_get(&records, "nic", None, false) {
        Err(VaultError::InvalidStructure(why)) => assert_eq!(why, "nie znaleziono: nic"),
        other => panic!("unexpected: {:?}", other),
    }
    match plan_get(&records, "github", None, true) {
        Err(VaultError::InvalidStructure(why)) => assert_eq!(why, "--clip wymaga --field"),
        other => panic!("unexpected: {:?}", other),
    }
    match plan_get(&records, "github", Some("pin"), false) {
        Err(VaultError::InvalidStructure(why)) => assert_eq!(why, "rekord nie ma pola: pin"),
        other => panic!("unexpected: {:?}", other),
    }
    match plan_get(&records, "0101", Some("password"), true).unwrap() {
        GetAction::Copy { field, value } => {
            assert_eq!(field, "password");
            assert_eq!(value, "tajne123");
        },
        other => panic!("unexpected: {:?}", other),
    }
    match plan_get(&records, "github", None, false).unwrap() {
        GetAction::Print(t) => assert_eq!(t, view::format_detail(&records[0])),
        other => panic!("unexpected: {:?}", other),
    }
}

#[test]
fn list_filters_by_tag() {
    let records = decrypt_vault(&build_encrypted_vault(), TEST_PASSWORD).unwrap();
    assert_eq!(list_text_of(&records, None, Some("dom")), "Brak rekordow.");
    assert!(list_text_of(&records, Some("login"), Some("praca")).contains("github"));
}

#[test]
fn random_vault_opens_and_save_keeps_header() {
    let bytes = new_vault_bytes(TEST_PASSWORD).unwrap();
    let (header, dek, body) = decrypt_vault_body(&bytes, TEST_PASSWORD).unwrap();
    assert!(body.records.is_empty());
    assert_eq!(body.schema_version, 1);
    let saved = save_vault(&header, &dek, &body).unwrap();
    assert_eq!(&saved[..132], &bytes[..132]);
    assert!(parse_header(&saved).is_ok());
}

#[test]
fn rewrap_opens_with_new_password_only() {
    let dek = Dek::from_bytes([42u8; 32]);
    let cbor = fixture_body_cbor();
    let rewrapped = rewrap_vault_bytes(NEW_PASSWORD, &dek, &cbor).unwrap();
    assert!(parse_header(&rewrapped).is_ok());
    let records = decrypt_vault(&rewrapped, NEW_PASSWORD).unwrap();
    assert_eq!(records.len(), 1);
    assert_eq!(records[0].title, "github");
}

#[test]
fn open_to_body_cbor_gives_dek_and_body() {
    let (_h, dek, cbor) = decrypt_to_body_cbor(&build_encrypted_vault(), TEST_PASSWORD).unwrap();
    assert_eq!(dek.as_bytes(), &[42u8; 32]);
    assert_eq!(cbor, fixture_body_cbor());
}

#[test]
fn new_vault_uses_the_given_salt_and_nonces() {
    let bytes = new_vault();
    assert_eq!(&bytes[19..35], &[5u8; KDF_SALT_LEN]);
    assert_eq!(&bytes[36..48], &[7u8; NONCE_DEK_LEN]);
    assert_eq!(&bytes[132..144], &[8u8; NONCE_BODY_LEN]);
}
