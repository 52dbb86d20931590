//! The body of a vault after decryption: records encoded as a CBOR map.
//!
//! ```text
//! Vault  = { "schema_version": uint, "records": [Record, ...] }
//! Record = { "id": bytes(16), "type": text, "title": text, "tags": [text, ...],
//!            "notes": text, "created_at": uint, "modified_at": uint,
//!            "fields": { text => text / uint } }
//! ```
use vstd::prelude::*;

use crate::cbor::{
    cbor_decoding, cbor_encoding, decode_cbor, encode_cbor, entries_model, items_model,
    lemma_entries_model, lemma_items_model, plain_model, push_entry, push_item,
    CborModel, CborValue,
};
use crate::format::{push_all, read_array, FormatError};
use crate::text::{concat_str, decimal_seq, decimal_string, str_eq};

verus! {

/// Fields that depend on the type of a record.
#[derive(Debug, Clone)]
pub enum RecordFields {
    Login { url: String, username: String, password: String },
    Note { content: String },
    ApiKey { key: String, environment: String },
    Totp { secret_base32: String, algorithm: String, digits: u64, period: u64 },
    SshKey { public_key: String, private_key: String, passphrase: String },
}

/// One record of the body.
#[derive(Debug, Clone)]
pub struct VaultRecord {
    /// UUID v4 as 16 bytes.
    pub id: [u8; 16],
    /// `"login"`, `"note"`, ...
    pub record_type: String,
    pub title: String,
    pub tags: Vec<String>,
    pub notes: String,
    /// Unix time in nanoseconds.
    pub created_at: u64,
    /// Unix time in nanoseconds.
    pub modified_at: u64,
    pub fields: RecordFields,
}

/// The whole body.
#[derive(Debug, Clone)]
pub struct VaultBody {
    /// Version of the record schema (not of the file format).
    pub schema_version: u64,
    pub records: Vec<VaultRecord>,
}

/// The content of the type-specific fields.
pub enum FieldsView {
    Login { url: Seq<char>, username: Seq<char>, password: Seq<char> },
    Note { content: Seq<char> },
    ApiKey { key: Seq<char>, environment: Seq<char> },
    Totp { secret_base32: Seq<char>, algorithm: Seq<char>, digits: u64, period: u64 },
    SshKey { public_key: Seq<char>, private_key: Seq<char>, passphrase: Seq<char> },
}

/// The content of a record.
pub struct RecordView {
    pub id: Seq<u8>,
    pub record_type: Seq<char>,
    pub title: Seq<char>,
    pub tags: Seq<Seq<char>>,
    pub notes: Seq<char>,
    pub created_at: u64,
    pub modified_at: u64,
    pub fields: FieldsView,
}

/// The content of a body.
pub struct BodyView {
    pub schema_version: u64,
    pub records: Seq<RecordView>,
}

/// The content of a format error, with texts as character sequences.
pub enum FormatErrorView {
    FileTooShort,
    InvalidMagic,
    UnsupportedVersion(u16),
    InvalidFlags,
    UnsupportedKdfId(u8),
    UnsupportedAeadId(u8),
    InvalidWrappedDekLen(u32),
    InvalidKdfSaltLen(u8),
    CborError(Seq<char>),
    CborSerializeError(Seq<char>),
    MissingField(Seq<char>),
    InvalidFieldType(Seq<char>),
    UnknownRecordType(Seq<char>),
    UnknownField(Seq<char>),
}

impl View for FormatError {
    type V = FormatErrorView;

    open spec fn view(&self) -> FormatErrorView {
        match self {
            FormatError::FileTooShort => FormatErrorView::FileTooShort,
            FormatError::InvalidMagic => FormatErrorView::InvalidMagic,
            FormatError::UnsupportedVersion(v) => FormatErrorView::UnsupportedVersion(*v),
            FormatError::InvalidFlags => FormatErrorView::InvalidFlags,
            FormatError::UnsupportedKdfId(v) => FormatErrorView::UnsupportedKdfId(*v),
            FormatError::UnsupportedAeadId(v) => FormatErrorView::UnsupportedAeadId(*v),
            FormatError::InvalidWrappedDekLen(v) => FormatErrorView::InvalidWrappedDekLen(*v),
            FormatError::InvalidKdfSaltLen(v) => FormatErrorView::InvalidKdfSaltLen(*v),
            FormatError::CborError(s) => FormatErrorView::CborError(s@),
            FormatError::CborSerializeError(s) => FormatErrorView::CborSerializeError(s@),
            FormatError::MissingField(s) => FormatErrorView::MissingField(s@),
            FormatError::InvalidFieldType(s) => FormatErrorView::InvalidFieldType(s@),
            FormatError::UnknownRecordType(s) => FormatErrorView::UnknownRecordType(s@),
            FormatError::UnknownField(s) => FormatErrorView::UnknownField(s@),
        }
    }
}

/// The message of a format error.
pub open spec fn format_error_text(e: FormatErrorView) -> Seq<char> {
    match e {
        FormatErrorView::FileTooShort => "Plik vault jest zbyt krótki"@,
        FormatErrorView::InvalidMagic => "Nieprawidłowy nagłówek pliku (brak VLT1)"@,
        FormatErrorView::UnsupportedVersion(v) => "Nieobsługiwana wersja formatu: "@ + decimal_seq(v as nat),
        FormatErrorView::InvalidFlags => "Pole flags musi być 0x0000"@,
        FormatErrorView::UnsupportedKdfId(id) => "Nieznany algorytm KDF: "@ + decimal_seq(id as nat),
        FormatErrorView::UnsupportedAeadId(id) => "Nieznany algorytm AEAD: "@ + decimal_seq(id as nat),
        FormatErrorView::InvalidWrappedDekLen(l) => "Nieprawidłowa długość wrapped_dek: "@ + decimal_seq(l as nat) + ", oczekiwano 48"@,
        FormatErrorView::InvalidKdfSaltLen(l) => "Nieprawidłowa długość kdf_salt: "@ + decimal_seq(l as nat) + ", oczekiwano 16"@,
        FormatErrorView::CborError(m) => "Błąd parsowania CBOR: "@ + m,
        FormatErrorView::CborSerializeError(m) => "Błąd serializacji CBOR: "@ + m,
        FormatErrorView::MissingField(n) => "Brakujące wymagane pole rekordu: "@ + n,
        FormatErrorView::InvalidFieldType(n) => "Nieprawidłowy typ pola: "@ + n,
        FormatErrorView::UnknownRecordType(t) => "Nieznany typ rekordu w v1: "@ + t,
        FormatErrorView::UnknownField(n) => "Nieznane pole rekordu w v1: "@ + n,
    }
}

impl FormatError {
    /// The message of the error, as the program shows it.
    pub fn message(&self) -> (r: String)
        ensures
            r@ == format_error_text(self@),
    {
        match self {
            FormatError::FileTooShort => "Plik vault jest zbyt krótki".to_owned(),
            FormatError::InvalidMagic => "Nieprawidłowy nagłówek pliku (brak VLT1)".to_owned(),
            FormatError::UnsupportedVersion(v) => {
                let n = decimal_string(*v as u64);
                concat_str("Nieobsługiwana wersja formatu: ", n.as_str())
            },
            FormatError::InvalidFlags => "Pole flags musi być 0x0000".to_owned(),
            FormatError::UnsupportedKdfId(id) => {
                let n = decimal_string(*id as u64);
                concat_str("Nieznany algorytm KDF: ", n.as_str())
            },
            FormatError::UnsupportedAeadId(id) => {
                let n = decimal_string(*id as u64);
                concat_str("Nieznany algorytm AEAD: ", n.as_str())
            },
            FormatError::InvalidWrappedDekLen(l) => {
                let n = decimal_string(*l as u64);
                let head = concat_str("Nieprawidłowa długość wrapped_dek: ", n.as_str());
                concat_str(head.as_str(), ", oczekiwano 48")
            },
            FormatError::InvalidKdfSaltLen(l) => {
                let n = decimal_string(*l as u64);
                let head = concat_str("Nieprawidłowa długość kdf_salt: ", n.as_str());
                concat_str(head.as_str(), ", oczekiwano 16")
            },
            FormatError::CborError(m) => concat_str("Błąd parsowania CBOR: ", m.as_str()),
            FormatError::CborSerializeError(m) => concat_str("Błąd serializacji CBOR: ", m.as_str()),
            FormatError::MissingField(n) => concat_str("Brakujące wymagane pole rekordu: ", n.as_str()),
            FormatError::InvalidFieldType(n) => concat_str("Nieprawidłowy typ pola: ", n.as_str()),
            FormatError::UnknownRecordType(t) => concat_str("Nieznany typ rekordu w v1: ", t.as_str()),
            FormatError::UnknownField(n) => concat_str("Nieznane pole rekordu w v1: ", n.as_str()),
        }
    }
}

impl View for RecordFields {
    type V = FieldsView;

    open spec fn view(&self) -> FieldsView {
        match self {
            RecordFields::Login { url, username, password } => FieldsView::Login {
                url: url@,
                username: username@,
                password: password@,
            },
            RecordFields::Note { content } => FieldsView::Note { content: content@ },
            RecordFields::ApiKey { key, environment } => FieldsView::ApiKey {
                key: key@,
                environment: environment@,
            },
            RecordFields::Totp { secret_base32, algorithm, digits, period } => FieldsView::Totp {
                secret_base32: secret_base32@,
                algorithm: algorithm@,
                digits: *digits,
                period: *period,
            },
            RecordFields::SshKey { public_key, private_key, passphrase } => FieldsView::SshKey {
                public_key: public_key@,
                private_key: private_key@,
                passphrase: passphrase@,
            },
        }
    }
}

/// The views of a sequence of strings.
pub open spec fn texts_of(v: Seq<String>) -> Seq<Seq<char>> {
    v.map_values(|s: String| s@)
}

impl View for VaultRecord {
    type V = RecordView;

    open spec fn view(&self) -> RecordView {
        RecordView {
            id: self.id@,
            record_type: self.record_type@,
            title: self.title@,
            tags: texts_of(self.tags@),
            notes: self.notes@,
            created_at: self.created_at,
            modified_at: self.modified_at,
            fields: self.fields@,
        }
    }
}

impl View for VaultBody {
    type V = BodyView;

    open spec fn view(&self) -> BodyView {
        BodyView {
            schema_version: self.schema_version,
            records: self.records@.map_values(|r: VaultRecord| r@),
        }
    }
}

// ─── The tree of a body ─────────────────────────────────────────────────────

/// A map entry with a text key.
pub open spec fn entry(key: Seq<char>, value: CborModel) -> (CborModel, CborModel) {
    (CborModel::Text(key), value)
}

/// The map of the type-specific fields, keys in canonical CBOR order (shorter key
/// first, then bytewise).
pub open spec fn fields_tree(f: FieldsView) -> CborModel {
    match f {
        FieldsView::Login { url, username, password } => CborModel::Entries(
            seq![
                entry("url"@, CborModel::Text(url)),
                entry("password"@, CborModel::Text(password)),
                entry("username"@, CborModel::Text(username)),
            ],
        ),
        FieldsView::Note { content } => CborModel::Entries(
            seq![entry("content"@, CborModel::Text(content))],
        ),
        FieldsView::ApiKey { key, environment } => CborModel::Entries(
            seq![
                entry("key"@, CborModel::Text(key)),
                entry("environment"@, CborModel::Text(environment)),
            ],
        ),
        FieldsView::Totp { secret_base32, algorithm, digits, period } => CborModel::Entries(
            seq![
                entry("digits"@, CborModel::Integer(digits as int)),
                entry("period"@, CborModel::Integer(period as int)),
                entry("algorithm"@, CborModel::Text(algorithm)),
                entry("secret_base32"@, CborModel::Text(secret_base32)),
            ],
        ),
        FieldsView::SshKey { public_key, private_key, passphrase } => CborModel::Entries(
            seq![
                entry("passphrase"@, CborModel::Text(passphrase)),
                entry("public_key"@, CborModel::Text(public_key)),
                entry("private_key"@, CborModel::Text(private_key)),
            ],
        ),
    }
}

/// The array of the tags.
pub open spec fn tags_tree(tags: Seq<Seq<char>>) -> CborModel {
    CborModel::Array(tags.map_values(|t: Seq<char>| CborModel::Text(t)))
}

/// The map of a record, keys in canonical CBOR order (shorter key first, then
/// bytewise).
pub open spec fn record_tree(r: RecordView) -> CborModel {
    CborModel::Entries(
        seq![
            entry("id"@, CborModel::Bytes(r.id)),
            entry("tags"@, tags_tree(r.tags)),
            entry("type"@, CborModel::Text(r.record_type)),
            entry("notes"@, CborModel::Text(r.notes)),
            entry("title"@, CborModel::Text(r.title)),
            entry("fields"@, fields_tree(r.fields)),
            entry("created_at"@, CborModel::Integer(r.created_at as int)),
            entry("modified_at"@, CborModel::Integer(r.modified_at as int)),
        ],
    )
}

/// The map of a body, keys in canonical CBOR order: `records`, then `schema_version`.
pub open spec fn body_tree(b: BodyView) -> CborModel {
    CborModel::Entries(
        seq![
            entry("records"@, CborModel::Array(b.records.map_values(|r: RecordView| record_tree(r)))),
            entry("schema_version"@, CborModel::Integer(b.schema_version as int)),
        ],
    )
}

// ─── Reading a body from its tree ───────────────────────────────────────────

/// Whether every key of the entries is text.
pub open spec fn all_text_keys(xs: Seq<(CborModel, CborModel)>) -> bool {
    forall|i: int| 0 <= i < xs.len() ==> (#[trigger] xs[i]).0 is Text
}

/// The entries of a map whose keys are all text; else the error that names `context`.
pub open spec fn text_map(m: CborModel, context: Seq<char>) -> Result<
    Seq<(CborModel, CborModel)>,
    FormatErrorView,
> {
    match m {
        CborModel::Entries(xs) => if all_text_keys(xs) {
            Ok(xs)
        } else {
            Err(FormatErrorView::InvalidFieldType(context + ": klucz mapy nie jest tekstem"@))
        },
        _ => Err(FormatErrorView::InvalidFieldType(context + ": oczekiwano mapy CBOR"@)),
    }
}

/// The value of the last entry with text key `key` (a later entry replaces an
/// earlier one with the same key).
pub open spec fn lookup(xs: Seq<(CborModel, CborModel)>, key: Seq<char>) -> Option<CborModel>
    decreases xs.len(),
{
    if xs.len() == 0 {
        None
    } else if xs.last().0 == CborModel::Text(key) {
        Some(xs.last().1)
    } else {
        lookup(xs.drop_last(), key)
    }
}

/// A required text field.
pub open spec fn get_text(xs: Seq<(CborModel, CborModel)>, field: Seq<char>) -> Result<
    Seq<char>,
    FormatErrorView,
> {
    match lookup(xs, field) {
        Some(CborModel::Text(s)) => Ok(s),
        Some(_) => Err(FormatErrorView::InvalidFieldType(field)),
        None => Err(FormatErrorView::MissingField(field)),
    }
}

/// A required unsigned 64-bit field.
pub open spec fn get_uint(xs: Seq<(CborModel, CborModel)>, field: Seq<char>) -> Result<
    u64,
    FormatErrorView,
> {
    match lookup(xs, field) {
        Some(CborModel::Integer(i)) => if 0 <= i <= u64::MAX {
            Ok(i as u64)
        } else {
            Err(FormatErrorView::InvalidFieldType(field))
        },
        Some(_) => Err(FormatErrorView::InvalidFieldType(field)),
        None => Err(FormatErrorView::MissingField(field)),
    }
}

/// A required byte-string field.
pub open spec fn get_bytes(xs: Seq<(CborModel, CborModel)>, field: Seq<char>) -> Result<
    Seq<u8>,
    FormatErrorView,
> {
    match lookup(xs, field) {
        Some(CborModel::Bytes(b)) => Ok(b),
        Some(_) => Err(FormatErrorView::InvalidFieldType(field)),
        None => Err(FormatErrorView::MissingField(field)),
    }
}

/// The record types that format v1 knows.
pub open spec fn known_record_type(t: Seq<char>) -> bool {
    ||| t == "login"@
    ||| t == "note"@
    ||| t == "apikey"@
    ||| t == "totp"@
    ||| t == "sshkey"@
    ||| t == "attachment"@
}

/// The type-specific fields of a record of type `t`, read from their map.
pub open spec fn fields_from_tree(m: CborModel, t: Seq<char>) -> Result<
    FieldsView,
    FormatErrorView,
> {
    match text_map(m, "fields"@) {
        Err(e) => Err(e),
        Ok(xs) => if t == "login"@ {
            match get_text(xs, "url"@) {
                Err(e) => Err(e),
                Ok(url) => match get_text(xs, "username"@) {
                    Err(e) => Err(e),
                    Ok(username) => match get_text(xs, "password"@) {
                        Err(e) => Err(e),
                        Ok(password) => Ok(FieldsView::Login { url, username, password }),
                    },
                },
            }
        } else if t == "note"@ {
            match get_text(xs, "content"@) {
                Err(e) => Err(e),
                Ok(content) => Ok(FieldsView::Note { content }),
            }
        } else if t == "apikey"@ {
            match get_text(xs, "key"@) {
                Err(e) => Err(e),
                Ok(key) => match get_text(xs, "environment"@) {
                    Err(e) => Err(e),
                    Ok(environment) => Ok(FieldsView::ApiKey { key, environment }),
                },
            }
        } else if t == "totp"@ {
            match get_text(xs, "secret_base32"@) {
                Err(e) => Err(e),
                Ok(secret_base32) => match get_text(xs, "algorithm"@) {
                    Err(e) => Err(e),
                    Ok(algorithm) => match get_uint(xs, "digits"@) {
                        Err(e) => Err(e),
                        Ok(digits) => match get_uint(xs, "period"@) {
                            Err(e) => Err(e),
                            Ok(period) => Ok(
                                FieldsView::Totp { secret_base32, algorithm, digits, period },
                            ),
                        },
                    },
                },
            }
        } else if t == "sshkey"@ {
            match get_text(xs, "public_key"@) {
                Err(e) => Err(e),
                Ok(public_key) => match get_text(xs, "private_key"@) {
                    Err(e) => Err(e),
                    Ok(private_key) => match get_text(xs, "passphrase"@) {
                        Err(e) => Err(e),
                        Ok(passphrase) => Ok(
                            FieldsView::SshKey { public_key, private_key, passphrase },
                        ),
                    },
                },
            }
        } else {
            Err(FormatErrorView::UnknownRecordType(t))
        },
    }
}

/// The tags of a record, read from their array.
pub open spec fn tags_from_tree(m: CborModel) -> Result<Seq<Seq<char>>, FormatErrorView> {
    match m {
        CborModel::Array(items) => if forall|i: int| 0 <= i < items.len() ==> (#[trigger] items[i]) is Text {
            Ok(items.map_values(|x: CborModel| x->Text_0))
        } else {
            Err(FormatErrorView::InvalidFieldType("tags element"@))
        },
        _ => Err(FormatErrorView::InvalidFieldType("tags"@)),
    }
}

/// The fields of a record after its id and type, read in order.
pub open spec fn record_rest_from_tree(
    xs: Seq<(CborModel, CborModel)>,
    id: Seq<u8>,
    t: Seq<char>,
) -> Result<RecordView, FormatErrorView> {
    match get_text(xs, "title"@) {
        Err(e) => Err(e),
        Ok(title) => match lookup(xs, "tags"@) {
            None => Err(FormatErrorView::MissingField("tags"@)),
            Some(tags_item) => match tags_from_tree(tags_item) {
                Err(e) => Err(e),
                Ok(tags) => match get_text(xs, "notes"@) {
                    Err(e) => Err(e),
                    Ok(notes) => match get_uint(xs, "created_at"@) {
                        Err(e) => Err(e),
                        Ok(created_at) => match get_uint(xs, "modified_at"@) {
                            Err(e) => Err(e),
                            Ok(modified_at) => match lookup(xs, "fields"@) {
                                None => Err(FormatErrorView::MissingField("fields"@)),
                                Some(f) => match fields_from_tree(f, t) {
                                    Err(e) => Err(e),
                                    Ok(fields) => Ok(
                                        RecordView {
                                            id,
                                            record_type: t,
                                            title,
                                            tags,
                                            notes,
                                            created_at,
                                            modified_at,
                                            fields,
                                        },
                                    ),
                                },
                            },
                        },
                    },
                },
            },
        },
    }
}

/// A record read from its map; the first error in the order of the fields.
/// Whether a key is one of the keys of a v1 record.
pub open spec fn record_key(k: Seq<char>) -> bool {
    ||| k == "id"@
    ||| k == "type"@
    ||| k == "title"@
    ||| k == "tags"@
    ||| k == "notes"@
    ||| k == "created_at"@
    ||| k == "modified_at"@
    ||| k == "fields"@
}

/// The first of the first `n` text keys that a v1 record does not have.
pub open spec fn unknown_key_prefix(xs: Seq<(CborModel, CborModel)>, n: nat) -> Option<Seq<char>>
    decreases n,
{
    if n == 0 {
        None
    } else {
        match unknown_key_prefix(xs, (n - 1) as nat) {
            Some(k) => Some(k),
            None => if !record_key(xs[n - 1].0->Text_0) {
                Some(xs[n - 1].0->Text_0)
            } else {
                None
            },
        }
    }
}

/// A record read from its map. Every key must be one of a v1 record's: an unknown
/// field is an error.
pub open spec fn record_from_tree(m: CborModel) -> Result<RecordView, FormatErrorView> {
    match text_map(m, "record"@) {
        Err(e) => Err(e),
        Ok(xs) => match unknown_key_prefix(xs, xs.len()) {
          Some(k) => Err(FormatErrorView::UnknownField(k)),
          None => match get_bytes(xs, "id"@) {
            Err(e) => Err(e),
            Ok(id) => if id.len() != 16 {
                Err(FormatErrorView::InvalidFieldType("id (oczekiwano 16 bajtów)"@))
            } else {
                match get_text(xs, "type"@) {
                    Err(e) => Err(e),
                    Ok(t) => if !known_record_type(t) {
                        Err(FormatErrorView::UnknownRecordType(t))
                    } else {
                        record_rest_from_tree(xs, id, t)
                    },
                }
            },
          },
        },
    }
}

/// The first `n` records of an array, or the first error among them.
pub open spec fn records_prefix(items: Seq<CborModel>, n: nat) -> Result<
    Seq<RecordView>,
    FormatErrorView,
>
    decreases n,
{
    if n == 0 {
        Ok(Seq::empty())
    } else {
        match records_prefix(items, (n - 1) as nat) {
            Err(e) => Err(e),
            Ok(rs) => match record_from_tree(items[n - 1]) {
                Err(e) => Err(e),
                Ok(r) => Ok(rs.push(r)),
            },
        }
    }
}

/// A body read from its tree.
pub open spec fn body_from_tree(m: CborModel) -> Result<BodyView, FormatErrorView> {
    match text_map(m, "vault root"@) {
        Err(e) => Err(e),
        Ok(xs) => match get_uint(xs, "schema_version"@) {
            Err(e) => Err(e),
            Ok(schema_version) => match lookup(xs, "records"@) {
                None => Err(FormatErrorView::MissingField("records"@)),
                Some(CborModel::Array(items)) => match records_prefix(items, items.len()) {
                    Err(e) => Err(e),
                    Ok(records) => Ok(BodyView { schema_version, records }),
                },
                Some(_) => Err(FormatErrorView::InvalidFieldType("records"@)),
            },
        },
    }
}

/// What parsing the decrypted bytes of a body gives: a body, or the error.
/// `None` stands for bytes that are not CBOR.
pub open spec fn body_from_bytes(data: Seq<u8>) -> Option<Result<BodyView, FormatErrorView>> {
    match cbor_decoding(data) {
        None => None,
        Some(m) => Some(body_from_tree(m)),
    }
}

// ─── Writing a body ─────────────────────────────────────────────────────────

fn text_of(s: &String) -> (v: CborValue)
    ensures
        v@ == CborModel::Text(s@),
{
    CborValue::Text(s.clone())
}

fn uint_of(n: u64) -> (v: CborValue)
    ensures
        v@ == CborModel::Integer(n as int),
{
    CborValue::Integer(n as i128)
}

/// The map of the type-specific fields.
fn serialize_fields(fields: &RecordFields) -> (r: CborValue)
    ensures
        r@ == fields_tree(fields@),
{
    let mut map: Vec<(CborValue, CborValue)> = Vec::new();
    match fields {
        RecordFields::Login { url, username, password } => {
            push_entry(&mut map, "url", text_of(url));
            push_entry(&mut map, "password", text_of(password));
            push_entry(&mut map, "username", text_of(username));
        },
        RecordFields::Note { content } => {
            push_entry(&mut map, "content", text_of(content));
        },
        RecordFields::ApiKey { key, environment } => {
            push_entry(&mut map, "key", text_of(key));
            push_entry(&mut map, "environment", text_of(environment));
        },
        RecordFields::Totp { secret_base32, algorithm, digits, period } => {
            push_entry(&mut map, "digits", uint_of(*digits));
            push_entry(&mut map, "period", uint_of(*period));
            push_entry(&mut map, "algorithm", text_of(algorithm));
            push_entry(&mut map, "secret_base32", text_of(secret_base32));
        },
        RecordFields::SshKey { public_key, private_key, passphrase } => {
            push_entry(&mut map, "passphrase", text_of(passphrase));
            push_entry(&mut map, "public_key", text_of(public_key));
            push_entry(&mut map, "private_key", text_of(private_key));
        },
    }
    proof {
        lemma_entries_model(map);
        assert(entries_model(map@) =~= fields_tree(fields@)->Entries_0);
    }
    CborValue::Entries(map)
}

/// The array of the tags.
fn serialize_tags(tags: &Vec<String>) -> (r: CborValue)
    ensures
        r@ == tags_tree(texts_of(tags@)),
{
    let mut items: Vec<CborValue> = Vec::new();
    let mut i: usize = 0;
    while i < tags.len()
        invariant
            i <= tags@.len(),
            items_model(items@) == tags_tree(texts_of(tags@.subrange(0, i as int)))->Array_0,
        decreases tags@.len() - i,
    {
        push_item(&mut items, text_of(&tags[i]));
        proof {
            assert(tags_tree(texts_of(tags@.subrange(0, i + 1)))->Array_0 =~= tags_tree(
                texts_of(tags@.subrange(0, i as int)),
            )->Array_0.push(CborModel::Text(tags@[i as int]@)));
        }
        i = i + 1;
    }
    proof {
        assert(tags@.subrange(0, tags@.len() as int) =~= tags@);
        lemma_items_model(items);
    }
    CborValue::Array(items)
}

/// The map of a record.
fn serialize_record(record: &VaultRecord) -> (r: CborValue)
    ensures
        r@ == record_tree(record@),
{
    let mut map: Vec<(CborValue, CborValue)> = Vec::new();
    let mut id: Vec<u8> = Vec::new();
    push_all(&mut id, &record.id);
    push_entry(&mut map, "id", CborValue::Bytes(id));
    push_entry(&mut map, "tags", serialize_tags(&record.tags));
    push_entry(&mut map, "type", text_of(&record.record_type));
    push_entry(&mut map, "notes", text_of(&record.notes));
    push_entry(&mut map, "title", text_of(&record.title));
    push_entry(&mut map, "fields", serialize_fields(&record.fields));
    push_entry(&mut map, "created_at", uint_of(record.created_at));
    push_entry(&mut map, "modified_at", uint_of(record.modified_at));
    proof {
        lemma_entries_model(map);
        assert(entries_model(map@) =~= record_tree(record@)->Entries_0);
    }
    CborValue::Entries(map)
}

/// The map of a body.
fn body_value(body: &VaultBody) -> (r: CborValue)
    ensures
        r@ == body_tree(body@),
{
    let mut items: Vec<CborValue> = Vec::new();
    let mut i: usize = 0;
    while i < body.records.len()
        invariant
            i <= body.records@.len(),
            items_model(items@) == body@.records.subrange(0, i as int).map_values(
                |r: RecordView| record_tree(r),
            ),
        decreases body.records@.len() - i,
    {
        push_item(&mut items, serialize_record(&body.records[i]));
        proof {
            assert(body@.records.subrange(0, i + 1).map_values(|r: RecordView| record_tree(r))
                =~= body@.records.subrange(0, i as int).map_values(
                |r: RecordView| record_tree(r),
            ).push(record_tree(body.records@[i as int]@)));
        }
        i = i + 1;
    }
    let mut map: Vec<(CborValue, CborValue)> = Vec::new();
    proof {
        assert(body@.records.subrange(0, body.records@.len() as int) =~= body@.records);
        lemma_items_model(items);
    }
    push_entry(&mut map, "records", CborValue::Array(items));
    push_entry(&mut map, "schema_version", uint_of(body.schema_version));
    proof {
        lemma_entries_model(map);
        assert(entries_model(map@) =~= body_tree(body@)->Entries_0);
    }
    CborValue::Entries(map)
}

proof fn lemma_fields_tree_plain(f: FieldsView)
    ensures
        plain_model(fields_tree(f), 2),
{
    assert(fields_tree(f) is Entries);
    reveal_with_fuel(no_later_key, 5);
    let xs = fields_tree(f)->Entries_0;
    assert forall|i: int| 0 <= i < xs.len() implies plain_model(#[trigger] xs[i].0, 1)
        && plain_model(xs[i].1, 1) by {}
    assert(fields_tree(f) == CborModel::Entries(xs));
}

proof fn lemma_record_tree_plain(r: RecordView)
    ensures
        plain_model(record_tree(r), 3),
{
    lemma_fields_tree_plain(r.fields);
    let tags = tags_tree(r.tags)->Array_0;
    assert forall|i: int| 0 <= i < tags.len() implies plain_model(#[trigger] tags[i], 1) by {}
    assert(plain_model(tags_tree(r.tags), 2));
    reveal_with_fuel(no_later_key, 9);
    let xs = record_tree(r)->Entries_0;
    assert forall|i: int| 0 <= i < xs.len() implies plain_model(#[trigger] xs[i].0, 2)
        && plain_model(xs[i].1, 2) by {
        if i == 5 {
            lemma_plain_deeper(fields_tree(r.fields), 2, 2);
        }
    }
}

/// A plain item is plain for any larger depth too.
proof fn lemma_plain_deeper(m: CborModel, d: nat, e: nat)
    requires
        plain_model(m, d),
        d <= e,
    ensures
        plain_model(m, e),
    decreases d,
{
    match m {
        CborModel::Array(xs) => {
            assert forall|i: int| 0 <= i < xs.len() implies plain_model(
                #[trigger] xs[i],
                (e - 1) as nat,
            ) by {
                lemma_plain_deeper(xs[i], (d - 1) as nat, (e - 1) as nat);
            }
        },
        CborModel::Entries(xs) => {
            assert forall|i: int| 0 <= i < xs.len() implies plain_model(
                #[trigger] xs[i].0,
                (e - 1) as nat,
            ) && plain_model(xs[i].1, (e - 1) as nat) by {
                lemma_plain_deeper(xs[i].0, (d - 1) as nat, (e - 1) as nat);
                lemma_plain_deeper(xs[i].1, (d - 1) as nat, (e - 1) as nat);
            }
        },
        _ => {},
    }
}

proof fn lemma_body_tree_plain(b: BodyView)
    ensures
        plain_model(body_tree(b), 128),
{
    let rs = b.records.map_values(|r: RecordView| record_tree(r));
    assert forall|i: int| 0 <= i < rs.len() implies plain_model(#[trigger] rs[i], 126) by {
        lemma_record_tree_plain(b.records[i]);
        lemma_plain_deeper(rs[i], 3, 126);
    }
    reveal_with_fuel(no_later_key, 3);
    let xs = body_tree(b)->Entries_0;
    assert forall|i: int| 0 <= i < xs.len() implies plain_model(#[trigger] xs[i].0, 127)
        && plain_model(xs[i].1, 127) by {}
}

/// Encodes a body as CBOR: a map of `records` and `schema_version`, each record a
/// map of its fields, every map with its keys in canonical CBOR order. It always
/// succeeds; the bytes are the encoding of the body's tree, and decoding them
/// gives that tree back.
pub fn serialize_body(body: &VaultBody) -> (r: Result<Vec<u8>, FormatError>)
    ensures
        r is Ok,
        r matches Ok(bytes) ==> bytes@ == cbor_encoding(body_tree(body@)),
        r matches Ok(bytes) ==> cbor_decoding(bytes@) == Some(body_tree(body@)),
        r matches Err(e) ==> e is CborSerializeError,
{
    let value = body_value(body);
    proof {
        lemma_body_tree_plain(body@);
    }
    match encode_cbor(&value) {
        Ok(bytes) => Ok(bytes),
        Err(msg) => Err(FormatError::CborSerializeError(msg)),
    }
}

// ─── Reading a body ─────────────────────────────────────────────────────────

/// Whether an outcome agrees, by view, with the outcome that a specification gives.
pub open spec fn agrees<T: View>(r: Result<T, FormatError>, s: Result<T::V, FormatErrorView>) -> bool {
    match (r, s) {
        (Ok(a), Ok(b)) => a@ == b,
        (Err(a), Err(b)) => a@ == b,
        _ => false,
    }
}

/// The entries of a map whose keys are all text.
fn cbor_map<'a>(value: &'a CborValue, context: &str) -> (r: Result<
    &'a Vec<(CborValue, CborValue)>,
    FormatError,
>)
    ensures
        match text_map(value@, context@) {
            Ok(xs) => r matches Ok(v) && entries_model(v@) == xs,
            Err(e) => r matches Err(er) && er@ == e,
        },
{
    match value {
        CborValue::Entries(xs) => {
            proof {
                lemma_entries_model(*xs);
            }
            let mut i: usize = 0;
            while i < xs.len()
                invariant
                    i <= xs@.len(),
                    value@ == CborModel::Entries(entries_model(xs@)),
                    forall|j: int| 0 <= j < i ==> (#[trigger] entries_model(xs@)[j]).0 is Text,
                decreases xs@.len() - i,
            {
                match &xs[i].0 {
                    CborValue::Text(_) => {},
                    _ => {
                        proof {
                            assert(!(entries_model(xs@)[i as int].0 is Text));
                            assert(!all_text_keys(entries_model(xs@)));
                            reveal_strlit(": klucz mapy nie jest tekstem");
                        }
                        return Err(
                            FormatError::InvalidFieldType(
                                concat_str(context, ": klucz mapy nie jest tekstem"),
                            ),
                        );
                    },
                }
                i = i + 1;
            }
            Ok(xs)
        },
        _ => Err(FormatError::InvalidFieldType(concat_str(context, ": oczekiwano mapy CBOR"))),
    }
}

/// The value of the last entry with text key `key`.
fn cbor_lookup<'a>(xs: &'a Vec<(CborValue, CborValue)>, key: &str) -> (r: Option<&'a CborValue>)
    ensures
        match lookup(entries_model(xs@), key@) {
            Some(m) => r matches Some(v) && v@ == m,
            None => r is None,
        },
{
    let ghost em = entries_model(xs@);
    assert(em.subrange(0, em.len() as int) =~= em);
    let mut i: usize = xs.len();
    while i > 0
        invariant
            i <= xs@.len(),
            em == entries_model(xs@),
            lookup(em, key@) == lookup(em.subrange(0, i as int), key@),
        decreases i,
    {
        let is_key = match &xs[i - 1].0 {
            CborValue::Text(s) => str_eq(s.as_str(), key),
            _ => false,
        };
        proof {
            let sub = em.subrange(0, i as int);
            assert(sub.last() == em[i - 1]);
            assert(sub.drop_last() =~= em.subrange(0, i - 1));
        }
        if is_key {
            return Some(&xs[i - 1].1);
        }
        i = i - 1;
    }
    None
}

/// A required text field.
fn cbor_get_text(xs: &Vec<(CborValue, CborValue)>, field: &str) -> (r: Result<String, FormatError>)
    ensures
        agrees(r, get_text(entries_model(xs@), field@)),
{
    match cbor_lookup(xs, field) {
        Some(CborValue::Text(s)) => Ok(s.clone()),
        Some(_) => Err(FormatError::InvalidFieldType(field.to_owned())),
        None => Err(FormatError::MissingField(field.to_owned())),
    }
}

/// A required unsigned 64-bit field.
fn cbor_get_uint(xs: &Vec<(CborValue, CborValue)>, field: &str) -> (r: Result<u64, FormatError>)
    ensures
        agrees(r, get_uint(entries_model(xs@), field@)),
{
    match cbor_lookup(xs, field) {
        Some(CborValue::Integer(i)) => {
            if 0 <= *i && *i <= 0xffff_ffff_ffff_ffffi128 {
                Ok(*i as u64)
            } else {
                Err(FormatError::InvalidFieldType(field.to_owned()))
            }
        },
        Some(_) => Err(FormatError::InvalidFieldType(field.to_owned())),
        None => Err(FormatError::MissingField(field.to_owned())),
    }
}

/// A required byte-string field.
fn cbor_get_bytes(xs: &Vec<(CborValue, CborValue)>, field: &str) -> (r: Result<Vec<u8>, FormatError>)
    ensures
        agrees(r, get_bytes(entries_model(xs@), field@)),
{
    match cbor_lookup(xs, field) {
        Some(CborValue::Bytes(b)) => {
            let mut out: Vec<u8> = Vec::new();
            push_all(&mut out, b.as_slice());
            Ok(out)
        },
        Some(_) => Err(FormatError::InvalidFieldType(field.to_owned())),
        None => Err(FormatError::MissingField(field.to_owned())),
    }
}

/// The type-specific fields of a record of type `record_type`.
fn parse_fields(value: &CborValue, record_type: &str) -> (r: Result<RecordFields, FormatError>)
    ensures
        agrees(r, fields_from_tree(value@, record_type@)),
{
    let map = match cbor_map(value, "fields") {
        Ok(m) => m,
        Err(e) => return Err(e),
    };
    if str_eq(record_type, "login") {
        let url = match cbor_get_text(map, "url") {
            Ok(v) => v,
            Err(e) => return Err(e),
        };
        let username = match cbor_get_text(map, "username") {
            Ok(v) => v,
            Err(e) => return Err(e),
        };
        let password = match cbor_get_text(map, "password") {
            Ok(v) => v,
            Err(e) => return Err(e),
        };
        Ok(RecordFields::Login { url, username, password })
    } else if str_eq(record_type, "note") {
        let content = match cbor_get_text(map, "content") {
            Ok(v) => v,
            Err(e) => return Err(e),
        };
        Ok(RecordFields::Note { content })
    } else if str_eq(record_type, "apikey") {
        let key = match cbor_get_text(map, "key") {
            Ok(v) => v,
            Err(e) => return Err(e),
        };
        let environment = match cbor_get_text(map, "environment") {
            Ok(v) => v,
            Err(e) => return Err(e),
        };
        Ok(RecordFields::ApiKey { key, environment })
    } else if str_eq(record_type, "totp") {
        let secret_base32 = match cbor_get_text(map, "secret_base32") {
            Ok(v) => v,
            Err(e) => return Err(e),
        };
        let algorithm = match cbor_get_text(map, "algorithm") {
            Ok(v) => v,
            Err(e) => return Err(e),
        };
        let digits = match cbor_get_uint(map, "digits") {
            Ok(v) => v,
            Err(e) => return Err(e),
        };
        let period = match cbor_get_uint(map, "period") {
            Ok(v) => v,
            Err(e) => return Err(e),
        };
        Ok(RecordFields::Totp { secret_base32, algorithm, digits, period })
    } else if str_eq(record_type, "sshkey") {
        let public_key = match cbor_get_text(map, "public_key") {
            Ok(v) => v,
            Err(e) => return Err(e),
        };
        let private_key = match cbor_get_text(map, "private_key") {
            Ok(v) => v,
            Err(e) => return Err(e),
        };
        let passphrase = match cbor_get_text(map, "passphrase") {
            Ok(v) => v,
            Err(e) => return Err(e),
        };
        Ok(RecordFields::SshKey { public_key, private_key, passphrase })
    } else {
        Err(FormatError::UnknownRecordType(record_type.to_owned()))
    }
}

/// The tags of a record.
fn parse_tags(value: &CborValue) -> (r: Result<Vec<String>, FormatError>)
    ensures
        match tags_from_tree(value@) {
            Ok(t) => r matches Ok(v) && texts_of(v@) == t,
            Err(e) => r matches Err(er) && er@ == e,
        },
{
    match value {
        CborValue::Array(items) => {
            proof {
                lemma_items_model(*items);
            }
            let ghost im = items_model(items@);
            let mut tags: Vec<String> = Vec::new();
            let mut i: usize = 0;
            while i < items.len()
                invariant
                    i <= items@.len(),
                    im == items_model(items@),
                    value@ == CborModel::Array(im),
                    forall|j: int| 0 <= j < i ==> (#[trigger] im[j]) is Text,
                    texts_of(tags@) == im.subrange(0, i as int).map_values(
                        |x: CborModel| x->Text_0,
                    ),
                decreases items@.len() - i,
            {
                match &items[i] {
                    CborValue::Text(s) => {
                        let ghost before = tags@;
                        tags.push(s.clone());
                        proof {
                            assert(im[i as int] == CborModel::Text(s@));
                            assert(im.subrange(0, i + 1).map_values(|x: CborModel| x->Text_0)
                                =~= im.subrange(0, i as int).map_values(
                                |x: CborModel| x->Text_0,
                            ).push(s@));
                            assert(texts_of(tags@) =~= texts_of(before).push(s@));
                        }
                    },
                    _ => {
                        proof {
                            assert(!(im[i as int] is Text));
                            reveal_strlit("tags element");
                        }
                        return Err(FormatError::InvalidFieldType("tags element".to_owned()));
                    },
                }
                i = i + 1;
            }
            assert(im.subrange(0, im.len() as int) =~= im);
            Ok(tags)
        },
        _ => Err(FormatError::InvalidFieldType("tags".to_owned())),
    }
}

/// One record read from its map; the first error in the order of the fields.
fn is_record_key(k: &str) -> (r: bool)
    ensures
        r == record_key(k@),
{
    str_eq(k, "id") || str_eq(k, "type") || str_eq(k, "title") || str_eq(k, "tags") || str_eq(
        k,
        "notes",
    ) || str_eq(k, "created_at") || str_eq(k, "modified_at") || str_eq(k, "fields")
}

/// The first key of a record map (all of whose keys are text) that a v1 record
/// does not have.
fn first_unknown_key(map: &Vec<(CborValue, CborValue)>) -> (r: Option<String>)
    requires
        all_text_keys(entries_model(map@)),
    ensures
        match unknown_key_prefix(entries_model(map@), map@.len()) {
            Some(k) => r matches Some(s) && s@ == k,
            None => r is None,
        },
{
    let ghost em = entries_model(map@);
    let mut i: usize = 0;
    while i < map.len()
        invariant
            i <= map@.len(),
            em == entries_model(map@),
            all_text_keys(em),
            unknown_key_prefix(em, i as nat) is None,
        decreases map@.len() - i,
    {
        assert(em[i as int].0 is Text);
        match &map[i].0 {
            CborValue::Text(k) => {
                if !is_record_key(k.as_str()) {
                    proof {
                        lemma_unknown_key_extends(em, (i + 1) as nat, map@.len());
                    }
                    return Some(k.clone());
                }
            },
            _ => {},
        }
        i = i + 1;
    }
    None
}

/// Once a prefix holds an unknown key, every longer prefix gives that key.
proof fn lemma_unknown_key_extends(xs: Seq<(CborModel, CborModel)>, n: nat, m: nat)
    requires
        n <= m,
        unknown_key_prefix(xs, n) is Some,
    ensures
        unknown_key_prefix(xs, m) == unknown_key_prefix(xs, n),
    decreases m - n,
{
    if n < m {
        lemma_unknown_key_extends(xs, n, (m - 1) as nat);
    }
}

fn parse_record(value: &CborValue) -> (r: Result<VaultRecord, FormatError>)
    ensures
        agrees(r, record_from_tree(value@)),
{
    let map = match cbor_map(value, "record") {
        Ok(m) => m,
        Err(e) => return Err(e),
    };
    match first_unknown_key(map) {
        Some(k) => return Err(FormatError::UnknownField(k)),
        None => {},
    }
    let id_bytes = match cbor_get_bytes(map, "id") {
        Ok(v) => v,
        Err(e) => return Err(e),
    };
    if id_bytes.len() != 16 {
        return Err(FormatError::InvalidFieldType("id (oczekiwano 16 bajtów)".to_owned()));
    }
    let id: [u8; 16] = read_array(id_bytes.as_slice(), 0);
    assert(id_bytes@.subrange(0, 16) =~= id_bytes@);
    let record_type = match cbor_get_text(map, "type") {
        Ok(v) => v,
        Err(e) => return Err(e),
    };
    let t = record_type.as_str();
    if !(str_eq(t, "login") || str_eq(t, "note") || str_eq(t, "apikey") || str_eq(t, "totp")
        || str_eq(t, "sshkey") || str_eq(t, "attachment")) {
        return Err(FormatError::UnknownRecordType(record_type));
    }
    let title = match cbor_get_text(map, "title") {
        Ok(v) => v,
        Err(e) => return Err(e),
    };
    let tags = match cbor_lookup(map, "tags") {
        None => return Err(FormatError::MissingField("tags".to_owned())),
        Some(item) => match parse_tags(item) {
            Ok(v) => v,
            Err(e) => return Err(e),
        },
    };
    let notes = match cbor_get_text(map, "notes") {
        Ok(v) => v,
        Err(e) => return Err(e),
    };
    let created_at = match cbor_get_uint(map, "created_at") {
        Ok(v) => v,
        Err(e) => return Err(e),
    };
    let modified_at = match cbor_get_uint(map, "modified_at") {
        Ok(v) => v,
        Err(e) => return Err(e),
    };
    let fields = match cbor_lookup(map, "fields") {
        None => return Err(FormatError::MissingField("fields".to_owned())),
        Some(item) => match parse_fields(item, record_type.as_str()) {
            Ok(v) => v,
            Err(e) => return Err(e),
        },
    };
    Ok(VaultRecord { id, record_type, title, tags, notes, created_at, modified_at, fields })
}

proof fn lemma_records_prefix_err(items: Seq<CborModel>, i: nat, n: nat, e: FormatErrorView)
    requires
        i <= n,
        records_prefix(items, i) == Err::<Seq<RecordView>, FormatErrorView>(e),
    ensures
        records_prefix(items, n) == Err::<Seq<RecordView>, FormatErrorView>(e),
    decreases n - i,
{
    if i < n {
        lemma_records_prefix_err(items, i, (n - 1) as nat, e);
    }
}

/// Parses the decrypted bytes of a body: CBOR first, then the map of the body,
/// then each record in order. Bytes that are not CBOR give `CborError`; otherwise
/// the outcome is the body that the tree describes, or the first error in it.
pub fn parse_body(data: &[u8]) -> (r: Result<VaultBody, FormatError>)
    ensures
        match body_from_bytes(data@) {
            None => r matches Err(FormatError::CborError(_)),
            Some(res) => agrees(r, res),
        },
{
    let value = match decode_cbor(data) {
        Ok(v) => v,
        Err(msg) => return Err(FormatError::CborError(msg)),
    };
    let map = match cbor_map(&value, "vault root") {
        Ok(m) => m,
        Err(e) => return Err(e),
    };
    let schema_version = match cbor_get_uint(map, "schema_version") {
        Ok(v) => v,
        Err(e) => return Err(e),
    };
    let items = match cbor_lookup(map, "records") {
        None => return Err(FormatError::MissingField("records".to_owned())),
        Some(CborValue::Array(items)) => items,
        Some(_) => return Err(FormatError::InvalidFieldType("records".to_owned())),
    };
    proof {
        lemma_items_model(*items);
    }
    let ghost im = items_model(items@);
    let mut records: Vec<VaultRecord> = Vec::new();
    assert(records@.map_values(|r: VaultRecord| r@) =~= Seq::<RecordView>::empty());
    let mut i: usize = 0;
    #[verifier::loop_isolation(false)]
    while i < items.len()
        invariant
            i <= items@.len(),
            im == items_model(items@),
            records_prefix(im, i as nat) == Ok::<Seq<RecordView>, FormatErrorView>(
                records@.map_values(|r: VaultRecord| r@),
            ),
        decreases items@.len() - i,
    {
        let parsed = parse_record(&items[i]);
        proof {
            assert(im[i as int] == items@[i as int]@);
        }
        match parsed {
            Ok(rec) => {
                let ghost before = records@;
                records.push(rec);
                proof {
                    assert(records@.map_values(|r: VaultRecord| r@) =~= before.map_values(
                        |r: VaultRecord| r@,
                    ).push(rec@));
                }
            },
            Err(e) => {
                proof {
                    lemma_records_prefix_err(im, (i + 1) as nat, im.len(), e@);
                }
                return Err(e);
            },
        }
        i = i + 1;
    }
    let body = VaultBody { schema_version, records };
    Ok(body)
}

// ─── Laws of the body encoding ──────────────────────────────────────────────

/// The record type that a variant of the fields belongs to.
pub open spec fn fields_type_name(f: FieldsView) -> Seq<char> {
    match f {
        FieldsView::Login { .. } => "login"@,
        FieldsView::Note { .. } => "note"@,
        FieldsView::ApiKey { .. } => "apikey"@,
        FieldsView::Totp { .. } => "totp"@,
        FieldsView::SshKey { .. } => "sshkey"@,
    }
}

/// A record whose id has 16 bytes and whose type names the variant of its fields.
pub open spec fn record_consistent(r: RecordView) -> bool {
    r.id.len() == 16 && r.record_type == fields_type_name(r.fields)
}

/// A body all of whose records are consistent.
pub open spec fn body_consistent(b: BodyView) -> bool {
    forall|i: int| 0 <= i < b.records.len() ==> record_consistent(#[trigger] b.records[i])
}

/// The lengths and first letters of the keys and type names of the body encoding,
/// which tell any two of them apart.
proof fn lemma_key_literals()
    ensures
        "url"@.len() == 3,
        "username"@.len() == 8,
        "password"@.len() == 8,
        "content"@.len() == 7,
        "key"@.len() == 3,
        "environment"@.len() == 11,
        "secret_base32"@.len() == 13,
        "algorithm"@.len() == 9,
        "digits"@.len() == 6,
        "period"@.len() == 6,
        "public_key"@.len() == 10,
        "private_key"@.len() == 11,
        "passphrase"@.len() == 10,
        "login"@.len() == 5,
        "note"@.len() == 4,
        "apikey"@.len() == 6,
        "totp"@.len() == 4,
        "sshkey"@.len() == 6,
        "attachment"@.len() == 10,
        "id"@.len() == 2,
        "type"@.len() == 4,
        "title"@.len() == 5,
        "tags"@.len() == 4,
        "notes"@.len() == 5,
        "created_at"@.len() == 10,
        "modified_at"@.len() == 11,
        "fields"@.len() == 6,
        "schema_version"@.len() == 14,
        "records"@.len() == 7,
        "url"@[0] == 'u' && "url"@[1] == 'r',
        "username"@[0] == 'u' && "username"@[1] == 's',
        "password"@[0] == 'p' && "password"@[1] == 'a',
        "content"@[0] == 'c' && "content"@[1] == 'o',
        "key"@[0] == 'k' && "key"@[1] == 'e',
        "environment"@[0] == 'e' && "environment"@[1] == 'n',
        "secret_base32"@[0] == 's' && "secret_base32"@[1] == 'e',
        "algorithm"@[0] == 'a' && "algorithm"@[1] == 'l',
        "digits"@[0] == 'd' && "digits"@[1] == 'i',
        "period"@[0] == 'p' && "period"@[1] == 'e',
        "public_key"@[0] == 'p' && "public_key"@[1] == 'u',
        "private_key"@[0] == 'p' && "private_key"@[1] == 'r',
        "passphrase"@[0] == 'p' && "passphrase"@[1] == 'a',
        "login"@[0] == 'l' && "login"@[1] == 'o',
        "note"@[0] == 'n' && "note"@[1] == 'o',
        "apikey"@[0] == 'a' && "apikey"@[1] == 'p',
        "totp"@[0] == 't' && "totp"@[1] == 'o',
        "sshkey"@[0] == 's' && "sshkey"@[1] == 's',
        "attachment"@[0] == 'a' && "attachment"@[1] == 't',
        "id"@[0] == 'i' && "id"@[1] == 'd',
        "type"@[0] == 't' && "type"@[1] == 'y',
        "title"@[0] == 't' && "title"@[1] == 'i',
        "tags"@[0] == 't' && "tags"@[1] == 'a',
        "notes"@[0] == 'n' && "notes"@[1] == 'o',
        "created_at"@[0] == 'c' && "created_at"@[1] == 'r',
        "modified_at"@[0] == 'm' && "modified_at"@[1] == 'o',
        "fields"@[0] == 'f' && "fields"@[1] == 'i',
        "schema_version"@[0] == 's' && "schema_version"@[1] == 'c',
        "records"@[0] == 'r' && "records"@[1] == 'e',
{
    reveal_strlit("url");
    reveal_strlit("username");
    reveal_strlit("password");
    reveal_strlit("content");
    reveal_strlit("key");
    reveal_strlit("environment");
    reveal_strlit("secret_base32");
    reveal_strlit("algorithm");
    reveal_strlit("digits");
    reveal_strlit("period");
    reveal_strlit("public_key");
    reveal_strlit("private_key");
    reveal_strlit("passphrase");
    reveal_strlit("login");
    reveal_strlit("note");
    reveal_strlit("apikey");
    reveal_strlit("totp");
    reveal_strlit("sshkey");
    reveal_strlit("attachment");
    reveal_strlit("id");
    reveal_strlit("type");
    reveal_strlit("title");
    reveal_strlit("tags");
    reveal_strlit("notes");
    reveal_strlit("created_at");
    reveal_strlit("modified_at");
    reveal_strlit("fields");
    reveal_strlit("schema_version");
    reveal_strlit("records");
}

/// No entry after `pos` has the key `key`, written so that it unfolds on a literal list.
spec fn no_later_key(xs: Seq<(CborModel, CborModel)>, key: Seq<char>, pos: int) -> bool
    decreases xs.len() - pos,
{
    if pos + 1 >= xs.len() {
        true
    } else {
        xs[pos + 1].0 != CborModel::Text(key) && no_later_key(xs, key, pos + 1)
    }
}

proof fn lemma_no_later_key(xs: Seq<(CborModel, CborModel)>, key: Seq<char>, pos: int)
    requires
        0 <= pos < xs.len(),
        no_later_key(xs, key, pos),
    ensures
        forall|j: int| pos < j < xs.len() ==> (#[trigger] xs[j]).0 != CborModel::Text(key),
    decreases xs.len() - pos,
{
    if pos + 1 < xs.len() {
        lemma_no_later_key(xs, key, pos + 1);
    }
}

proof fn lemma_lookup_last_wins(xs: Seq<(CborModel, CborModel)>, key: Seq<char>, pos: int)
    requires
        0 <= pos < xs.len(),
        xs[pos].0 == CborModel::Text(key),
        forall|j: int| pos < j < xs.len() ==> (#[trigger] xs[j]).0 != CborModel::Text(key),
    ensures
        lookup(xs, key) == Some(xs[pos].1),
    decreases xs.len() - pos,
{
    if xs.len() - 1 > pos {
        let ys = xs.drop_last();
        assert forall|j: int| pos < j < ys.len() implies (#[trigger] ys[j]).0 != CborModel::Text(
            key,
        ) by {
            assert(ys[j] == xs[j]);
        }
        lemma_lookup_last_wins(ys, key, pos);
    }
}

/// The value of the entry at `pos` is what a lookup of its key gives when no later
/// entry has that key.
proof fn lemma_lookup_at(xs: Seq<(CborModel, CborModel)>, key: Seq<char>, pos: int)
    requires
        0 <= pos < xs.len(),
        xs[pos].0 == CborModel::Text(key),
        no_later_key(xs, key, pos),
    ensures
        lookup(xs, key) == Some(xs[pos].1),
{
    lemma_no_later_key(xs, key, pos);
    lemma_lookup_last_wins(xs, key, pos);
}

proof fn lemma_fields_roundtrip(f: FieldsView)
    ensures
        fields_from_tree(fields_tree(f), fields_type_name(f)) == Ok::<
            FieldsView,
            FormatErrorView,
        >(f),
{

    lemma_key_literals();
    reveal_with_fuel(no_later_key, 5);
    let xs = fields_tree(f)->Entries_0;
    assert(fields_tree(f) is Entries);
    assert(all_text_keys(xs));
    match f {
        FieldsView::Login { url, username, password } => {
            lemma_lookup_at(xs, "url"@, 0);
            lemma_lookup_at(xs, "password"@, 1);
            lemma_lookup_at(xs, "username"@, 2);
        },
        FieldsView::Note { content } => {
            lemma_lookup_at(xs, "content"@, 0);
        },
        FieldsView::ApiKey { key, environment } => {
            lemma_lookup_at(xs, "key"@, 0);
            lemma_lookup_at(xs, "environment"@, 1);
        },
        FieldsView::Totp { secret_base32, algorithm, digits, period } => {
            lemma_lookup_at(xs, "digits"@, 0);
            lemma_lookup_at(xs, "period"@, 1);
            lemma_lookup_at(xs, "algorithm"@, 2);
            lemma_lookup_at(xs, "secret_base32"@, 3);
        },
        FieldsView::SshKey { public_key, private_key, passphrase } => {
            lemma_lookup_at(xs, "passphrase"@, 0);
            lemma_lookup_at(xs, "public_key"@, 1);
            lemma_lookup_at(xs, "private_key"@, 2);
        },
    }
}

proof fn lemma_tags_roundtrip(tags: Seq<Seq<char>>)
    ensures
        tags_from_tree(tags_tree(tags)) == Ok::<Seq<Seq<char>>, FormatErrorView>(tags),
{
    let items = tags_tree(tags)->Array_0;
    assert forall|i: int| 0 <= i < items.len() implies (#[trigger] items[i]) is Text by {}
    assert(items.map_values(|x: CborModel| x->Text_0) =~= tags);
}

proof fn lemma_record_roundtrip(r: RecordView)
    requires
        record_consistent(r),
    ensures
        record_from_tree(record_tree(r)) == Ok::<RecordView, FormatErrorView>(r),
{

    lemma_key_literals();
    reveal_with_fuel(no_later_key, 9);
    reveal_with_fuel(unknown_key_prefix, 9);
    let xs = record_tree(r)->Entries_0;
    assert(all_text_keys(xs));
    assert(unknown_key_prefix(xs, xs.len()) is None);
    lemma_lookup_at(xs, "id"@, 0);
    lemma_lookup_at(xs, "tags"@, 1);
    lemma_lookup_at(xs, "type"@, 2);
    lemma_lookup_at(xs, "notes"@, 3);
    lemma_lookup_at(xs, "title"@, 4);
    lemma_lookup_at(xs, "fields"@, 5);
    lemma_lookup_at(xs, "created_at"@, 6);
    lemma_lookup_at(xs, "modified_at"@, 7);
    lemma_tags_roundtrip(r.tags);
    lemma_fields_roundtrip(r.fields);
    assert(known_record_type(r.record_type));
}

proof fn lemma_records_roundtrip(rs: Seq<RecordView>, n: nat)
    requires
        n <= rs.len(),
        forall|i: int| 0 <= i < rs.len() ==> record_consistent(#[trigger] rs[i]),
    ensures
        records_prefix(rs.map_values(|r: RecordView| record_tree(r)), n) == Ok::<
            Seq<RecordView>,
            FormatErrorView,
        >(rs.subrange(0, n as int)),
    decreases n,
{
    if n == 0 {
        assert(rs.subrange(0, 0) =~= Seq::<RecordView>::empty());
    } else {
        lemma_records_roundtrip(rs, (n - 1) as nat);
        lemma_record_roundtrip(rs[n - 1]);
        assert(rs.subrange(0, n - 1).push(rs[n - 1]) =~= rs.subrange(0, n as int));
    }
}

/// Law: the tree of a consistent body reads back as that body.
pub proof fn lemma_body_tree_roundtrip(b: BodyView)
    requires
        body_consistent(b),
    ensures
        body_from_tree(body_tree(b)) == Ok::<BodyView, FormatErrorView>(b),
{

    lemma_key_literals();
    reveal_with_fuel(no_later_key, 3);
    let xs = body_tree(b)->Entries_0;
    assert(all_text_keys(xs));
    lemma_lookup_at(xs, "records"@, 0);
    lemma_lookup_at(xs, "schema_version"@, 1);
    lemma_records_roundtrip(b.records, b.records.len());
    assert(b.records.subrange(0, b.records.len() as int) =~= b.records);
}

/// Law: bytes from which the decoder reads the tree of a consistent body (as the
/// bytes that `serialize_body` returns for it) parse back to that body.
pub proof fn lemma_serialized_body_parses_back(b: BodyView, bytes: Seq<u8>)
    requires
        body_consistent(b),
        cbor_decoding(bytes) == Some(body_tree(b)),
    ensures
        body_from_bytes(bytes) == Some(Ok::<BodyView, FormatErrorView>(b)),
{
    lemma_body_tree_roundtrip(b);
}

/// Law: reading a login's fields takes each from the key of its name. Whenever a
/// fields map reads as a login, its url is the text under `url`, its username the
/// text under `username` and its password the text under `password`.
pub proof fn lemma_login_fields_read_by_key(
    xs: Seq<(CborModel, CborModel)>,
    url: Seq<char>,
    username: Seq<char>,
    password: Seq<char>,
)
    requires
        fields_from_tree(CborModel::Entries(xs), "login"@) == Ok::<FieldsView, FormatErrorView>(
            FieldsView::Login { url, username, password },
        ),
    ensures
        lookup(xs, "url"@) == Some(CborModel::Text(url)),
        lookup(xs, "username"@) == Some(CborModel::Text(username)),
        lookup(xs, "password"@) == Some(CborModel::Text(password)),
{
}

/// Law: writing a login's fields puts each under the key of its name: the url
/// under `url`, the username under `username`, the password under `password`.
pub proof fn lemma_login_fields_written_by_key(url: Seq<char>, username: Seq<char>, password: Seq<char>)
    ensures
        fields_tree(FieldsView::Login { url, username, password }) is Entries,
        lookup(fields_tree(FieldsView::Login { url, username, password })->Entries_0, "url"@) == Some(CborModel::Text(url)),
        lookup(fields_tree(FieldsView::Login { url, username, password })->Entries_0, "username"@) == Some(CborModel::Text(username)),
        lookup(fields_tree(FieldsView::Login { url, username, password })->Entries_0, "password"@) == Some(CborModel::Text(password)),
{
    lemma_key_literals();
    reveal_with_fuel(no_later_key, 5);
    let xs = fields_tree(FieldsView::Login { url, username, password })->Entries_0;
    lemma_lookup_at(xs, "url"@, 0);
    lemma_lookup_at(xs, "password"@, 1);
    lemma_lookup_at(xs, "username"@, 2);
}

} // verus!
