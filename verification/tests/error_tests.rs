use std::io;
use vault::error::{VaultError, ERR_BAD_PASSWORD_OR_CORRUPTED};

#[test]
fn display_bad_password_is_the_one_message() {
    assert_eq!(VaultError::BadPasswordOrCorrupted.message(), ERR_BAD_PASSWORD_OR_CORRUPTED);
}

#[test]
fn display_invalid_structure_carries_reason() {
    let e = VaultError::InvalidStructure("zly magic".to_string());
    let s = e.message();
    assert!(s.contains("ERR_INVALID_STRUCTURE"));
    assert!(s.contains("zly magic"));
}

#[test]
fn display_io_has_prefix() {
    let e = VaultError::Io(io::Error::other("boom"));
    assert!(e.message().contains("ERR_IO"));
}

#[test]
fn display_not_implemented_carries_what() {
    let e = VaultError::NotImplemented("changepass");
    let s = e.message();
    assert!(s.contains("ERR_NOT_IMPLEMENTED"));
    assert!(s.contains("changepass"));
}

#[test]
fn exit_codes_are_stable() {
    assert_eq!(VaultError::BadPasswordOrCorrupted.exit_code(), 2);
    assert_eq!(VaultError::InvalidStructure(String::new()).exit_code(), 3);
    assert_eq!(VaultError::Io(io::Error::other("x")).exit_code(), 4);
    assert_eq!(VaultError::NotImplemented("x").exit_code(), 64);
}

#[test]
fn from_io_error_maps_to_io_variant() {
    let io_err = io::Error::new(io::ErrorKind::NotFound, "nie ma pliku");
    let e: VaultError = io_err.into();
    assert!(matches!(e, VaultError::Io(_)));
}

#[test]
fn source_present_only_for_io() {
    let io_e = VaultError::Io(io::Error::other("x"));
    assert!(io_e.has_source());
    assert!(!VaultError::BadPasswordOrCorrupted.has_source());
    assert!(!VaultError::InvalidStructure(String::new()).has_source());
    assert!(!VaultError::NotImplemented("x").has_source());
}

#[test]
fn debug_format_works() {
    let e = VaultError::BadPasswordOrCorrupted;
    assert!(!format!("{:?}", e).is_empty());

    let e2 = VaultError::InvalidStructure("test".to_string());
    assert!(format!("{:?}", e2).contains("InvalidStructure"));
}

#[test]
fn invalid_structure_message_is_exact() {
    assert_eq!(
        VaultError::InvalidStructure("zly magic".to_string()).message(),
        "ERR_INVALID_STRUCTURE: zly magic"
    );
    assert_eq!(VaultError::NotImplemented("x").message(), "ERR_NOT_IMPLEMENTED: x");
    assert_eq!(VaultError::Io(io::Error::other("boom")).message(), "ERR_IO: boom");
}
