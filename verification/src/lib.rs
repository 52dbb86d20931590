//! A password vault: records kept in one file, encrypted under a master password.
//!
//! - `format`: the binary header and the CBOR body of a vault file.
//! - `cbor`: CBOR items and their encoding through `ciborium`.
//! - `crypto`: Argon2id, HKDF, HMAC and ChaCha20-Poly1305 with the vault's key hierarchy.
//! - `service`: creating, opening, changing and saving a vault, on the bytes of its file.
//! - `record`, `view`: the records of the application and how they are shown.
//! - `error`, `storage`, `clip`, `prompt`, `cli`: errors, size limit, clipboard rule,
//!   answers of the user and the commands of the program.
//! - `text`: text utilities with exact specifications.
pub mod cbor;
pub mod cli;
pub mod clip;
pub mod crypto;
pub mod error;
pub mod format;
pub mod prompt;
pub mod record;
pub mod service;
pub mod storage;
pub mod text;
pub mod view;
