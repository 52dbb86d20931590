use vault::record::{FieldValue, LoginInput, Record};
use vault::view::{field_value, filter, find, format_detail, format_list, is_secret_field};

fn login(title: &str, tags: Vec<&str>, id_byte: u8) -> Record {
    let inp = LoginInput {
        title: title.to_string(),
        url: "https://example.com".to_string(),
        username: "user".to_string(),
        password: "tajne123".to_string(),
        tags: tags.into_iter().map(|s| s.to_string()).collect(),
        notes: String::new(),
    };
    Record::new_login(inp, [id_byte; 16], 1).unwrap()
}

#[test]
fn list_hides_password() {
    let recs = vec![login("github", vec!["praca"], 0xaa)];
    let out = format_list(&recs);
    assert!(!out.contains("tajne123"));
    assert!(out.contains("github"));
    assert!(out.contains("login"));
}

#[test]
fn list_empty_message() {
    assert!(format_list(&[]).contains("Brak"));
}

#[test]
fn filter_by_type() {
    let recs = vec![login("a", vec![], 1), login("b", vec![], 2)];
    assert_eq!(filter(&recs, Some("login"), None).len(), 2);
    assert_eq!(filter(&recs, Some("note"), None).len(), 0);
}

#[test]
fn filter_by_tag() {
    let recs = vec![login("a", vec!["praca"], 1), login("b", vec!["dom"], 2)];
    let got = filter(&recs, None, Some("praca"));
    assert_eq!(got.len(), 1);
    assert_eq!(got[0].title, "a");
}

#[test]
fn find_by_title() {
    let recs = vec![login("github", vec![], 1)];
    assert!(find(&recs, "github").is_some());
    assert!(find(&recs, "gitlab").is_none());
}

#[test]
fn find_by_id_prefix() {
    let recs = vec![login("x", vec![], 0xab)];
    assert!(find(&recs, "abab").is_some());
    assert!(find(&recs, "ffff").is_none());
}

#[test]
fn detail_shows_record_fields() {
    let r = login("github", vec!["praca"], 1);
    let out = format_detail(&r);
    assert!(out.contains("github"));
    assert!(out.contains("user"));
    assert!(out.contains("tajne123"));
    assert!(out.contains("praca"));
}

#[test]
fn field_value_returns_raw() {
    let r = login("github", vec![], 1);
    assert_eq!(field_value(&r, "username").unwrap(), "user");
    assert_eq!(field_value(&r, "password").unwrap(), "tajne123");
    assert_eq!(field_value(&r, "title").unwrap(), "github");
    assert!(field_value(&r, "nieistnieje").is_none());
}

#[test]
fn is_secret_only_password() {
    assert!(is_secret_field("login", "password"));
    assert!(!is_secret_field("login", "username"));
}

#[test]
fn list_text_is_exact() {
    let recs = vec![login("github", vec!["praca", "dev"], 0xab), login("x", vec![], 0x01)];
    let expected = "ID        TYP    TYTUL   TAGI\n\
                    abababab  login  github  praca, dev\n\
                    01010101  login  x";
    assert_eq!(format_list(&recs), expected);
}

#[test]
fn list_title_width_counts_bytes() {
    let recs = vec![login("żółw", vec![], 0x11)];
    let out = format_list(&recs);
    let first = out.lines().next().unwrap();
    // "żółw" is 7 bytes in UTF-8, so the title column is 7 characters wide
    assert_eq!(first, "ID        TYP    TYTUL    TAGI");
}

#[test]
fn detail_text_is_exact() {
    let inp = LoginInput {
        title: "github".to_string(),
        url: "https://u".to_string(),
        username: "me".to_string(),
        password: "pw".to_string(),
        tags: vec!["a".to_string(), "b".to_string()],
        notes: "n".to_string(),
    };
    let r = Record::new_login(inp, [0u8; 16], 1).unwrap();
    let expected = format!(
        "ID:      {}\nTyp:     login\nTytul:   github\nTagi:    a, b\nNotatki: n\nPola:\n  password: pw\n  url: https://u\n  username: me",
        "00".repeat(16)
    );
    assert_eq!(format_detail(&r), expected);
}

#[test]
fn find_trims_query_and_takes_first() {
    let recs = vec![login("dup", vec![], 0x01), login("dup", vec![], 0x02)];
    let got = find(&recs, "  dup \n").unwrap();
    assert_eq!(got.id, [0x01u8; 16]);
    assert!(find(&recs, "   ").is_none());
}

#[test]
fn field_value_of_number_and_bytes() {
    let mut r = login("n", vec![], 3);
    r.fields.insert("digits".to_string(), FieldValue::Uint(6));
    r.fields.insert("blob".to_string(), FieldValue::Bytes(vec![1, 2, 3]));
    assert_eq!(field_value(&r, "digits").unwrap(), "6");
    assert_eq!(field_value(&r, "blob").unwrap(), "<3 bajtow>");
}

#[test]
fn list_does_not_depend_on_field_values() {
    let a = vec![login("github", vec!["praca"], 0x21)];
    let mut b = vec![login("github", vec!["praca"], 0x21)];
    b[0].fields.insert("password".to_string(), FieldValue::Text("inne haslo".to_string()));
    b[0].fields.insert("url".to_string(), FieldValue::Text("https://x".to_string()));
    assert_eq!(format_list(&a), format_list(&b));
}
