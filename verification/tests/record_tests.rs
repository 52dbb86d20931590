use vault::record::{FieldMap, FieldValue, LoginInput, Record, RecordType};

fn sample() -> LoginInput {
    LoginInput {
        title: "github".to_string(),
        url: "https://github.com".to_string(),
        username: "czarny".to_string(),
        password: "tajne123".to_string(),
        tags: vec!["praca".to_string()],
        notes: String::new(),
    }
}

#[test]
fn builds_login_record() {
    let r = Record::new_login(sample(), [0u8; 16], 42).unwrap();
    assert_eq!(r.rtype, RecordType::Login);
    assert_eq!(r.created_at, 42);
    assert_eq!(r.modified_at, 42);
    assert!(r.fields.contains_key("url"));
    assert!(r.fields.contains_key("username"));
    assert!(r.fields.contains_key("password"));
}

#[test]
fn empty_title_is_rejected() {
    let mut inp = sample();
    inp.title = "   ".to_string();
    assert!(Record::new_login(inp, [0u8; 16], 1).is_err());
}

#[test]
fn empty_username_is_rejected() {
    let mut inp = sample();
    inp.username = String::new();
    assert!(Record::new_login(inp, [0u8; 16], 1).is_err());
}

#[test]
fn summary_does_not_leak_password() {
    let r = Record::new_login(sample(), [0xabu8; 16], 1).unwrap();
    let s = r.summary();
    assert!(!s.contains("tajne123"));
    assert!(s.contains("github"));
}

#[test]
fn id_hex_has_32_chars() {
    let r = Record::new_login(sample(), [0xffu8; 16], 1).unwrap();
    assert_eq!(r.id_hex().len(), 32);
    assert_eq!(r.id_hex(), "ff".repeat(16));
}

#[test]
fn rejection_reasons_are_exact() {
    let mut inp = sample();
    inp.title = " \t".to_string();
    assert_eq!(Record::new_login(inp, [0u8; 16], 1).unwrap_err(), "tytul nie moze byc pusty");
    let mut inp = sample();
    inp.username = String::new();
    assert_eq!(Record::new_login(inp, [0u8; 16], 1).unwrap_err(), "username nie moze byc pusty");
}

#[test]
fn login_fields_are_in_key_order() {
    let r = Record::new_login(sample(), [1u8; 16], 1).unwrap();
    let names: Vec<&str> = r.fields.entries().iter().map(|(k, _)| k.as_str()).collect();
    assert_eq!(names, vec!["password", "url", "username"]);
    assert_eq!(r.fields.get("username"), Some(&FieldValue::Text("czarny".to_string())));
    assert_eq!(r.fields.get("nope"), None);
}

#[test]
fn summary_is_id_type_title() {
    let r = Record::new_login(sample(), [0x0au8; 16], 1).unwrap();
    assert_eq!(r.summary(), format!("{}  login  github", "0a".repeat(16)));
}

#[test]
fn field_map_insert_replaces_and_orders() {
    let mut m = FieldMap::new();
    assert!(m.insert("b".to_string(), FieldValue::Uint(1)).is_none());
    assert!(m.insert("a".to_string(), FieldValue::Uint(2)).is_none());
    assert!(m.insert("c".to_string(), FieldValue::Uint(3)).is_none());
    assert_eq!(m.insert("b".to_string(), FieldValue::Uint(4)), Some(FieldValue::Uint(1)));
    let names: Vec<&str> = m.entries().iter().map(|(k, _)| k.as_str()).collect();
    assert_eq!(names, vec!["a", "b", "c"]);
    assert_eq!(m.get("b"), Some(&FieldValue::Uint(4)));
    assert_eq!(m.len(), 3);
}

#[test]
fn field_map_orders_by_code_point() {
    let mut m = FieldMap::new();
    m.insert("é".to_string(), FieldValue::Uint(1));
    m.insert("z".to_string(), FieldValue::Uint(2));
    m.insert("Z".to_string(), FieldValue::Uint(3));
    m.insert("ab".to_string(), FieldValue::Uint(4));
    m.insert("a".to_string(), FieldValue::Uint(5));
    let names: Vec<&str> = m.entries().iter().map(|(k, _)| k.as_str()).collect();
    let mut expected = vec!["é", "z", "Z", "ab", "a"];
    expected.sort();
    assert_eq!(names, expected);
}
