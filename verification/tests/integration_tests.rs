use vault::crypto::Dek;
use vault::format::{serialize_body, RecordFields, VaultBody, VaultRecord};
use vault::record::LoginInput;
use vault::service::{
    add_login_to_vault, assemble_vault_bytes, build_new_vault_bytes,
    decrypt_vault, decrypt_vault_body, list_text_of, plan_get, rewrap_vault_bytes, GetAction,
};

const PASSWORD: &str = "correct horse battery staple";

fn login_record(i: usize) -> VaultRecord {
    VaultRecord {
        id: [(i % 256) as u8; 16],
        record_type: "login".to_string(),
        title: format!("serwis{i}"),
        tags: vec![],
        notes: String::new(),
        created_at: 1,
        modified_at: 1,
        fields: RecordFields::Login {
            url: "https://example.com".to_string(),
            username: format!("user{i}"),
            password: format!("pass{i}"),
        },
    }
}

#[test]
fn integration_tests_e2e_1_init_add_list_get() {
    let bytes = build_new_vault_bytes(PASSWORD, [1u8; 16], [42u8; 32], [2u8; 12], [3u8; 12]).unwrap();
    let (header, dek, body) = decrypt_vault_body(&bytes, PASSWORD).unwrap();
    let input = LoginInput {
        title: "github".to_string(),
        url: "https://github.com".to_string(),
        username: "user1".to_string(),
        password: "tajnehaslo".to_string(),
        tags: vec!["praca".to_string()],
        notes: String::new(),
    };
    let (file, _record) = add_login_to_vault(&header, &dek, body, input, 1).unwrap();

    let records = decrypt_vault(&file, PASSWORD).unwrap();
    let listed = list_text_of(&records, None, None);
    assert!(listed.contains("github"));
    assert!(!listed.contains("tajnehaslo"));
    match plan_get(&records, "github", Some("password"), false).unwrap() {
        GetAction::Print(v) => assert_eq!(v, "tajnehaslo"),
        other => panic!("unexpected: {:?}", other),
    }
    match plan_get(&records, "github", Some("username"), false).unwrap() {
        GetAction::Print(v) => assert_eq!(v, "user1"),
        other => panic!("unexpected: {:?}", other),
    }
}

#[test]
fn e2e_2_changepass_keeps_records() {
    let body = VaultBody { schema_version: 1, records: (0..100).map(login_record).collect() };
    let cbor = serialize_body(&body).unwrap();
    let dek = Dek::from_bytes([42u8; 32]);
    let old = assemble_vault_bytes(PASSWORD, &dek, &cbor, [1u8; 16], [2u8; 12], [3u8; 12]).unwrap();
    assert!(vault::service::verify_structure(&old).is_ok());

    // the DEK and the body that opening `old` gives, sealed under the new password
    let new_bytes = rewrap_vault_bytes("nowe haslo", &dek, &cbor).unwrap();

    let records = decrypt_vault(&new_bytes, "nowe haslo").unwrap();
    assert_eq!(records.len(), 100);
    for (i, r) in records.iter().enumerate() {
        assert_eq!(r.title, format!("serwis{i}"));
        assert_eq!(
            vault::view::field_value(r, "password").as_deref(),
            Some(format!("pass{i}").as_str())
        );
    }
}
