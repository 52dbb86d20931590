use ciborium::Value;
use vault::format::{
    parse_body, parse_header, serialize_body, FormatError, KdfParams, RecordFields, VaultBody,
    VaultHeader, VaultRecord, AEAD_ID_CHACHA20_POLY1305, CANONICAL_HEADER_LEN, FULL_HEADER_LEN,
    HEADER_MAC_LEN, KDF_ID_ARGON2ID, KDF_SALT_LEN, NONCE_BODY_LEN, NONCE_DEK_LEN, VERSION,
    WRAPPED_DEK_LEN,
};

fn make_test_header() -> VaultHeader {
    VaultHeader {
        version: VERSION,
        flags: 0,
        kdf_id: KDF_ID_ARGON2ID,
        kdf_params: KdfParams::default_v1(),
        kdf_salt: [0u8; KDF_SALT_LEN],
        aead_id: AEAD_ID_CHACHA20_POLY1305,
        nonce_dek: [1u8; NONCE_DEK_LEN],
        wrapped_dek: [2u8; WRAPPED_DEK_LEN],
        header_mac: [3u8; HEADER_MAC_LEN],
        nonce_body: [4u8; NONCE_BODY_LEN],
    }
}

fn make_test_file_bytes(header: &VaultHeader) -> Vec<u8> {
    let mut bytes = header.serialize_full();
    bytes.push(0xAB);
    bytes
}

#[test]
fn canonical_header_has_correct_length() {
    let h = make_test_header();
    let canonical = h.serialize_canonical();
    assert_eq!(canonical.len(), CANONICAL_HEADER_LEN);
}

#[test]
fn canonical_header_starts_with_magic() {
    let h = make_test_header();
    let canonical = h.serialize_canonical();
    assert_eq!(&canonical[0..4], b"VLT1");
}

#[test]
fn canonical_header_version_big_endian() {
    let h = make_test_header();
    let canonical = h.serialize_canonical();
    assert_eq!(&canonical[4..6], &[0x00, 0x01]);
}

#[test]
fn canonical_header_flags_zero() {
    let h = make_test_header();
    let canonical = h.serialize_canonical();
    assert_eq!(&canonical[6..8], &[0x00, 0x00]);
}

#[test]
fn canonical_header_kdf_id() {
    let h = make_test_header();
    let canonical = h.serialize_canonical();
    assert_eq!(canonical[8], KDF_ID_ARGON2ID);
}

#[test]
fn canonical_header_kdf_memory_big_endian() {
    let h = make_test_header();
    let canonical = h.serialize_canonical();
    let expected = 65536u32.to_be_bytes();
    assert_eq!(&canonical[9..13], &expected);
}

#[test]
fn canonical_header_salt_len_field() {
    let h = make_test_header();
    let canonical = h.serialize_canonical();
    assert_eq!(canonical[18], 16u8);
}

#[test]
fn canonical_header_wrapped_dek_len_field() {
    let h = make_test_header();
    let canonical = h.serialize_canonical();
    let expected = 48u32.to_be_bytes();
    assert_eq!(&canonical[48..52], &expected);
}

#[test]
fn full_header_length() {
    let h = make_test_header();
    let full = h.serialize_full();
    assert_eq!(full.len(), FULL_HEADER_LEN + NONCE_BODY_LEN);
}

#[test]
fn aad_for_body_length() {
    let h = make_test_header();
    let aad = h.aad_for_body();
    assert_eq!(aad.len(), FULL_HEADER_LEN);
}

#[test]
fn parse_valid_header_roundtrip() {
    let original = make_test_header();
    let bytes = make_test_file_bytes(&original);
    let parsed = parse_header(&bytes).expect("a valid header parses");

    assert_eq!(parsed.version, original.version);
    assert_eq!(parsed.flags, original.flags);
    assert_eq!(parsed.kdf_id, original.kdf_id);
    assert_eq!(parsed.kdf_params.memory_kib, original.kdf_params.memory_kib);
    assert_eq!(parsed.kdf_params.iterations, original.kdf_params.iterations);
    assert_eq!(parsed.kdf_salt, original.kdf_salt);
    assert_eq!(parsed.aead_id, original.aead_id);
    assert_eq!(parsed.nonce_dek, original.nonce_dek);
    assert_eq!(parsed.wrapped_dek, original.wrapped_dek);
    assert_eq!(parsed.header_mac, original.header_mac);
    assert_eq!(parsed.nonce_body, original.nonce_body);
}

#[test]
fn parse_rejects_empty_file() {
    let result = parse_header(&[]);
    assert!(matches!(result, Err(FormatError::FileTooShort)));
}

#[test]
fn parse_rejects_too_short_file() {
    let result = parse_header(&[0u8; 10]);
    assert!(matches!(result, Err(FormatError::FileTooShort)));
}

#[test]
fn parse_rejects_wrong_magic() {
    let h = make_test_header();
    let mut bytes = make_test_file_bytes(&h);
    bytes[0] = b'X';
    let result = parse_header(&bytes);
    assert!(matches!(result, Err(FormatError::InvalidMagic)));
}

#[test]
fn parse_rejects_wrong_version() {
    let h = make_test_header();
    let mut bytes = make_test_file_bytes(&h);
    bytes[4] = 0x00;
    bytes[5] = 0x02;
    let result = parse_header(&bytes);
    assert!(matches!(result, Err(FormatError::UnsupportedVersion(2))));
}

#[test]
fn parse_rejects_nonzero_flags() {
    let h = make_test_header();
    let mut bytes = make_test_file_bytes(&h);
    bytes[6] = 0xFF;
    let result = parse_header(&bytes);
    assert!(matches!(result, Err(FormatError::InvalidFlags)));
}

#[test]
fn parse_rejects_unknown_kdf_id() {
    let h = make_test_header();
    let mut bytes = make_test_file_bytes(&h);
    bytes[8] = 99;
    let result = parse_header(&bytes);
    assert!(matches!(result, Err(FormatError::UnsupportedKdfId(99))));
}

#[test]
fn parse_rejects_unknown_aead_id() {
    let h = make_test_header();
    let mut bytes = make_test_file_bytes(&h);
    bytes[35] = 99;
    let result = parse_header(&bytes);
    assert!(matches!(result, Err(FormatError::UnsupportedAeadId(99))));
}

#[test]
fn parse_rejects_wrong_wrapped_dek_len() {
    let h = make_test_header();
    let mut bytes = make_test_file_bytes(&h);
    bytes[48] = 0x00;
    bytes[49] = 0x00;
    bytes[50] = 0x00;
    bytes[51] = 0x10;
    let result = parse_header(&bytes);
    assert!(matches!(result, Err(FormatError::InvalidWrappedDekLen(16))));
}

#[test]
fn parse_rejects_wrong_kdf_salt_len() {
    let h = make_test_header();
    let mut bytes = make_test_file_bytes(&h);
    bytes[18] = 8;
    let result = parse_header(&bytes);
    assert!(matches!(result, Err(FormatError::InvalidKdfSaltLen(8))));
}

fn make_test_body() -> VaultBody {
    VaultBody {
        schema_version: 1,
        records: vec![VaultRecord {
            id: [
                0x6b, 0xa7, 0xb8, 0x10, 0x9d, 0xad, 0x11, 0xd1, 0x80, 0xb4, 0x00, 0xc0, 0x4f, 0xd4,
                0x30, 0xc8,
            ],
            record_type: "login".to_string(),
            title: "Test login".to_string(),
            tags: vec!["test".to_string()],
            notes: "Testowa notatka".to_string(),
            created_at: 1_700_000_000_000_000_000,
            modified_at: 1_700_000_001_000_000_000,
            fields: RecordFields::Login {
                url: "https://example.com".to_string(),
                username: "user@example.com".to_string(),
                password: "secret_password".to_string(),
            },
        }],
    }
}

#[test]
fn body_serialize_parse_roundtrip() {
    let original = make_test_body();
    let cbor_bytes = serialize_body(&original).expect("serialization succeeds");
    let parsed = parse_body(&cbor_bytes).expect("parsing succeeds");

    assert_eq!(parsed.schema_version, original.schema_version);
    assert_eq!(parsed.records.len(), original.records.len());

    let orig_rec = &original.records[0];
    let parsed_rec = &parsed.records[0];

    assert_eq!(parsed_rec.id, orig_rec.id);
    assert_eq!(parsed_rec.record_type, orig_rec.record_type);
    assert_eq!(parsed_rec.title, orig_rec.title);
    assert_eq!(parsed_rec.tags, orig_rec.tags);
    assert_eq!(parsed_rec.notes, orig_rec.notes);
    assert_eq!(parsed_rec.created_at, orig_rec.created_at);
    assert_eq!(parsed_rec.modified_at, orig_rec.modified_at);

    if let RecordFields::Login { url, username, password } = &parsed_rec.fields {
        assert_eq!(url, "https://example.com");
        assert_eq!(username, "user@example.com");
        assert_eq!(password, "secret_password");
    } else {
        panic!("expected RecordFields::Login");
    }
}

#[test]
fn body_empty_records() {
    let body = VaultBody { schema_version: 1, records: vec![] };
    let bytes = serialize_body(&body).expect("an empty body serializes");
    let parsed = parse_body(&bytes).expect("an empty body parses");
    assert_eq!(parsed.records.len(), 0);
    assert_eq!(parsed.schema_version, 1);
}

#[test]
fn parse_body_rejects_garbage() {
    let garbage = b"to nie jest CBOR!!!";
    let result = parse_body(garbage);
    assert!(matches!(result, Err(FormatError::CborError(_))));
}

#[test]
fn parsed_header_reserializes_to_file_prefix() {
    let h = make_test_header();
    let bytes = make_test_file_bytes(&h);
    let parsed = parse_header(&bytes).unwrap();
    assert_eq!(parsed.serialize_full(), bytes[..144].to_vec());
    assert_eq!(parsed.aad_for_body(), bytes[..132].to_vec());
}

#[test]
fn body_of_every_record_type_roundtrips() {
    let mut body = make_test_body();
    let base = body.records[0].clone();
    let kinds = vec![
        ("note", RecordFields::Note { content: "tresc".to_string() }),
        ("apikey", RecordFields::ApiKey { key: "k".to_string(), environment: "prod".to_string() }),
        (
            "totp",
            RecordFields::Totp {
                secret_base32: "JBSWY3DP".to_string(),
                algorithm: "SHA1".to_string(),
                digits: 6,
                period: 30,
            },
        ),
        (
            "sshkey",
            RecordFields::SshKey {
                public_key: "ssh-ed25519 AAAA".to_string(),
                private_key: "-----BEGIN".to_string(),
                passphrase: "".to_string(),
            },
        ),
    ];
    for (t, f) in kinds {
        let mut r = base.clone();
        r.record_type = t.to_string();
        r.fields = f;
        body.records.push(r);
    }
    let bytes = serialize_body(&body).unwrap();
    let parsed = parse_body(&bytes).unwrap();
    assert_eq!(parsed.records.len(), 5);
    for (a, b) in parsed.records.iter().zip(body.records.iter()) {
        assert_eq!(a.record_type, b.record_type);
        assert_eq!(format!("{:?}", a.fields), format!("{:?}", b.fields));
    }
}

#[test]
fn parse_body_rejects_unknown_record_type() {
    let mut body = make_test_body();
    body.records[0].record_type = "attachment".to_string();
    let bytes = serialize_body(&body).unwrap();
    assert!(matches!(parse_body(&bytes), Err(FormatError::UnknownRecordType(_))));
}

#[test]
fn format_error_messages_are_exact() {
    assert_eq!(FormatError::FileTooShort.message(), "Plik vault jest zbyt krótki");
    assert_eq!(FormatError::UnsupportedVersion(2).message(), "Nieobsługiwana wersja formatu: 2");
    assert_eq!(
        FormatError::InvalidWrappedDekLen(16).message(),
        "Nieprawidłowa długość wrapped_dek: 16, oczekiwano 48"
    );
    assert_eq!(
        FormatError::UnknownRecordType("x".to_string()).message(),
        "Nieznany typ rekordu w v1: x"
    );
}

fn position(hay: &[u8], needle: &[u8]) -> usize {
    hay.windows(needle.len()).position(|w| w == needle).expect("key present")
}

#[test]
fn body_maps_are_in_canonical_key_order() {
    let bytes = serialize_body(&make_test_body()).unwrap();
    // top level: "records" (7 bytes) before "schema_version" (14 bytes)
    assert!(position(&bytes, b"records") < position(&bytes, b"schema_version"));
    // record: id, tags, type, notes, title, fields, created_at, modified_at
    let order: Vec<&[u8]> = vec![
        b"\x62id", b"\x64tags", b"\x64type", b"\x65notes", b"\x65title", b"\x66fields",
        b"created_at", b"modified_at",
    ];
    let pos: Vec<usize> = order.iter().map(|k| position(&bytes, k)).collect();
    assert!(pos.windows(2).all(|w| w[0] < w[1]), "{pos:?}");
    // login fields: url, password, username
    let u = position(&bytes, b"\x63url");
    let p = position(&bytes, b"\x68password");
    let n = position(&bytes, b"\x68username");
    assert!(u < p && p < n);
}

fn value_of_record(extra: bool) -> Vec<u8> {
    let mut rec = vec![
        (Value::Text("id".into()), Value::Bytes(vec![7u8; 16])),
        (Value::Text("tags".into()), Value::Array(vec![])),
        (Value::Text("type".into()), Value::Text("login".into())),
        (Value::Text("notes".into()), Value::Text(String::new())),
        (Value::Text("title".into()), Value::Text("t".into())),
        (
            Value::Text("fields".into()),
            Value::Map(vec![
                (Value::Text("url".into()), Value::Text("u".into())),
                (Value::Text("password".into()), Value::Text("p".into())),
                (Value::Text("username".into()), Value::Text("n".into())),
            ]),
        ),
        (Value::Text("created_at".into()), Value::Integer(1u64.into())),
        (Value::Text("modified_at".into()), Value::Integer(2u64.into())),
    ];
    if extra {
        rec.push((Value::Text("extra".into()), Value::Text("x".into())));
    }
    let body = Value::Map(vec![
        (Value::Text("records".into()), Value::Array(vec![Value::Map(rec)])),
        (Value::Text("schema_version".into()), Value::Integer(1u64.into())),
    ]);
    let mut out = Vec::new();
    ciborium::ser::into_writer(&body, &mut out).unwrap();
    out
}

#[test]
fn parse_body_accepts_exact_record_keys() {
    let parsed = parse_body(&value_of_record(false)).unwrap();
    assert_eq!(parsed.records.len(), 1);
    assert_eq!(parsed.records[0].title, "t");
}

#[test]
fn parse_body_rejects_unknown_record_field() {
    match parse_body(&value_of_record(true)) {
        Err(FormatError::UnknownField(k)) => assert_eq!(k, "extra"),
        other => panic!("unexpected: {:?}", other.map(|b| b.records.len())),
    }
    assert_eq!(
        FormatError::UnknownField("extra".to_string()).message(),
        "Nieznane pole rekordu w v1: extra"
    );
}
