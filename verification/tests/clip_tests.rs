use vault::clip::{clear_needed, CLIPBOARD_CLEAR_SECS};

#[test]
fn clear_timeout_is_30s() {
    assert_eq!(CLIPBOARD_CLEAR_SECS, 30);
}

#[test]
fn clears_only_what_is_still_ours() {
    assert!(clear_needed(&Ok("tajne123".to_string()), "tajne123"));
    assert!(!clear_needed(&Ok("cos innego od usera".to_string()), "tajne123"));
    assert!(!clear_needed(&Err("brak schowka".to_string()), "tajne123"));
}
