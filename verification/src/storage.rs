//! What the storage layer decides: the size limit of a vault file, its errors
//! and their messages. Reading and writing the file is the program's I/O.
use crate::text::{concat_str, decimal_string, decimal_seq};
use vstd::prelude::*;

verus! {

#[verifier::external_type_specification]
#[verifier::external_body]
pub struct ExPathBuf(std::path::PathBuf);

/// The largest vault file that is read or written: 100 MiB.
pub const MAX_VAULT_SIZE: u64 = 104857600;

/// What reading or writing a vault file can fail with.
#[derive(Debug)]
pub enum StorageError {
    /// An error of the operating system.
    Io(std::io::Error),
    /// The file, or the data to write, is over `MAX_VAULT_SIZE`; the size in bytes.
    FileTooLarge(u64),
    /// The file does not exist.
    FileNotFound(std::path::PathBuf),
    /// The temporary file of an atomic write could not be created.
    TempFileError(std::io::Error),
}

/// A storage error as contracts see it.
pub enum StorageErrorView {
    Io,
    FileTooLarge(u64),
    FileNotFound,
    TempFileError,
}

impl View for StorageError {
    type V = StorageErrorView;

    open spec fn view(&self) -> StorageErrorView {
        match self {
            StorageError::Io(_) => StorageErrorView::Io,
            StorageError::FileTooLarge(n) => StorageErrorView::FileTooLarge(*n),
            StorageError::FileNotFound(_) => StorageErrorView::FileNotFound,
            StorageError::TempFileError(_) => StorageErrorView::TempFileError,
        }
    }
}

/// The message of a file over the limit.
pub open spec fn too_large_message(size: u64) -> Seq<char> {
    "Plik vault ("@ + decimal_seq(size as nat) + " bajtów) przekracza limit 100 MiB"@
}

/// The description of an I/O error, through its `Display` impl in std.
/// Nothing is said of the text: it comes from the operating system.
#[verifier::external_body]
fn io_text(e: &std::io::Error) -> String {
    e.to_string()
}

/// The path as `Path::display` shows it (lossy for names that are not UTF-8).
/// Nothing is said of the text.
#[verifier::external_body]
fn path_text(p: &std::path::PathBuf) -> String {
    p.display().to_string()
}

/// Whether a file or a buffer of `size` bytes may be a vault: `Ok` up to
/// `MAX_VAULT_SIZE`, else `FileTooLarge` with the size.
pub fn check_vault_size(size: u64) -> (r: Result<(), StorageError>)
    ensures
        r is Ok <==> size <= MAX_VAULT_SIZE,
        r matches Err(e) ==> e@ == StorageErrorView::FileTooLarge(size),
{
    if size > MAX_VAULT_SIZE {
        Err(StorageError::FileTooLarge(size))
    } else {
        Ok(())
    }
}

impl StorageError {
    /// The message of the error. That of a file over the limit is exact; the
    /// others begin with their fixed prefix and go on with the description of the
    /// OS error or the path.
    pub fn message(&self) -> (r: String)
        ensures
            self@ matches StorageErrorView::FileTooLarge(n) ==> r@ == too_large_message(n),
            self@ is Io ==> exists|t: Seq<char>| r@ == "Błąd I/O: "@ + t,
            self@ is FileNotFound ==> exists|t: Seq<char>| r@ == "Plik vault nie istnieje: "@ + t,
            self@ is TempFileError ==> exists|t: Seq<char>| r@ == "Błąd tworzenia pliku tymczasowego: "@ + t,
    {
        match self {
            StorageError::Io(e) => {
                let t = io_text(e);
                let r = concat_str("Błąd I/O: ", t.as_str());
                assert(r@ == "Błąd I/O: "@ + t@);
                r
            },
            StorageError::FileTooLarge(size) => {
                let digits = decimal_string(*size);
                let head = concat_str("Plik vault (", digits.as_str());
                concat_str(head.as_str(), " bajtów) przekracza limit 100 MiB")
            },
            StorageError::FileNotFound(path) => {
                let t = path_text(path);
                let r = concat_str("Plik vault nie istnieje: ", t.as_str());
                assert(r@ == "Plik vault nie istnieje: "@ + t@);
                r
            },
            StorageError::TempFileError(e) => {
                let t = io_text(e);
                let r = concat_str("Błąd tworzenia pliku tymczasowego: ", t.as_str());
                assert(r@ == "Błąd tworzenia pliku tymczasowego: "@ + t@);
                r
            },
        }
    }
}

impl From<std::io::Error> for StorageError {
    fn from(e: std::io::Error) -> (r: Self) {
        StorageError::Io(e)
    }
}

impl vstd::std_specs::convert::FromSpecImpl<std::io::Error> for StorageError {
    open spec fn obeys_from_spec() -> bool {
        true
    }

    open spec fn from_spec(v: std::io::Error) -> Self {
        StorageError::Io(v)
    }
}

} // verus!
