use vault::storage::{check_vault_size, StorageError, MAX_VAULT_SIZE};

#[test]
fn file_not_found_error_display() {
    let err = StorageError::FileNotFound(std::path::PathBuf::from("/nie/istnieje"));
    let msg = err.message();
    assert!(msg.contains("nie/istnieje") || msg.contains("nie istnieje"));
}

#[test]
fn size_limit_is_100_mib() {
    assert_eq!(MAX_VAULT_SIZE, 100 * 1024 * 1024);
    assert!(check_vault_size(MAX_VAULT_SIZE).is_ok());
    assert!(check_vault_size(0).is_ok());
    assert!(matches!(check_vault_size(MAX_VAULT_SIZE + 1), Err(StorageError::FileTooLarge(n)) if n == MAX_VAULT_SIZE + 1));
}

#[test]
fn too_large_message_is_exact() {
    let e = StorageError::FileTooLarge(104857601);
    assert_eq!(e.message(), "Plik vault (104857601 bajtów) przekracza limit 100 MiB");
}

#[test]
fn io_and_temp_messages_have_prefixes() {
    let e = StorageError::Io(std::io::Error::other("x"));
    assert!(e.message().starts_with("Błąd I/O: "));
    let t = StorageError::TempFileError(std::io::Error::other("y"));
    assert!(t.message().starts_with("Błąd tworzenia pliku tymczasowego: "));
}
