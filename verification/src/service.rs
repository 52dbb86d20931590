//! The operations of the vault on the bytes of a file: creating a vault,
//! opening it with a password, changing the password, adding a record and
//! saving, and the structural check. Reading and writing the file, and asking
//! for passwords, are the program's I/O around these.
//!
//! Every failure of a cryptographic check after the header has been parsed gives
//! `BadPasswordOrCorrupted`, so that a wrong password and a damaged file cannot be
//! told apart.
use crate::cbor::{cbor_decoding, cbor_encoding};
use crate::crypto::{
    argon2_accepts, argon2id_key, chacha20poly1305_open, chacha20poly1305_seal,
    compute_header_mac, decrypt_body, derive_keys, derive_master_key, encrypt_body,
    header_mac_key_info, hkdf_sha256_okm, hmac_sha256_tag, unwrap_dek, verify_header_mac,
    wrap_dek, wrap_dek_aad, wrap_key_info, CryptoError, Dek,
};
use crate::error::{VaultError, VaultErrorView};
use crate::format::body::{
    body_consistent, body_from_bytes, body_tree, lemma_serialized_body_parses_back, texts_of,
    FieldsView, RecordFields, RecordView, VaultRecord,
};
use crate::format::{
    body_aad_seq, canonical_header_seq, format_error_text, full_header_seq, header_error,
    header_fields, header_valid, lemma_header_roundtrip, parse_body, parse_header,
    serialize_body, BodyView, FormatError, HeaderView, KdfParams, VaultBody, VaultHeader,
    AEAD_ID_CHACHA20_POLY1305, FULL_HEADER_LEN, KDF_ID_ARGON2ID, NONCE_BODY_LEN, VERSION,
};
use crate::record::{
    as_map, has_key, lemma_login_fields_lookup, login_field_map, login_fields, FieldValue,
    FieldValueView, LoginInput, Record, RecordModel, RecordType,
};
use crate::storage::StorageError;
use crate::text::{concat_str, string_views, trim_seq};
use crate::view::{
    answers, detail_text, field_value, field_value_of, filter, find, format_detail, format_list,
    list_text, opt_str, passes_filters, record_models, ref_models,
};
use vstd::prelude::*;
use vstd::utf8::encode_utf8;

verus! {

// ─── Error mapping ──────────────────────────────────────────────────────────

/// A structural error of the format becomes `InvalidStructure` with its message.
pub fn map_format_err(e: FormatError) -> (r: VaultError)
    ensures
        r@ == VaultErrorView::InvalidStructure(format_error_text(e@)),
{
    VaultError::InvalidStructure(e.message())
}

/// An I/O error stays an I/O error (also that of the temporary file); the other
/// storage errors become `InvalidStructure` with their message.
pub fn map_storage_err(e: StorageError) -> (r: VaultError)
    ensures
        (e@ is Io || e@ is TempFileError) ==> r@ is Io,
        !(e@ is Io || e@ is TempFileError) ==> r@ is InvalidStructure,
        e@ matches crate::storage::StorageErrorView::FileTooLarge(n) ==> r@ == VaultErrorView::InvalidStructure(crate::storage::too_large_message(n)),
{
    match e {
        StorageError::Io(io) => VaultError::Io(io),
        StorageError::TempFileError(io) => VaultError::Io(io),
        other => VaultError::InvalidStructure(other.message()),
    }
}

/// Every cryptographic error becomes the one `BadPasswordOrCorrupted`: a wrong
/// password and a damaged file are not told apart.
pub fn map_crypto_err(e: CryptoError) -> (r: VaultError)
    ensures
        r@ == VaultErrorView::BadPasswordOrCorrupted,
{
    VaultError::BadPasswordOrCorrupted
}

// ─── What opening a file computes ───────────────────────────────────────────

/// The UTF-8 bytes of a password, which the KDF takes.
pub open spec fn password_bytes(password: Seq<char>) -> Seq<u8> {
    encode_utf8(password)
}

/// The DEK that a header gives under a password: the master key from Argon2id
/// with the header's salt and costs, the derived keys from HKDF, the header MAC
/// checked, and the wrapped DEK opened. Any failure is `BadPasswordOrCorrupted`.
#[verifier::opaque]
pub open spec fn header_dek(h: HeaderView, password: Seq<u8>) -> Result<Seq<u8>, VaultErrorView> {
    if !argon2_accepts(password.len(), h.kdf_salt.len(), h.memory_kib, h.iterations, h.parallelism as u32) {
        Err(VaultErrorView::BadPasswordOrCorrupted)
    } else {
        let master = argon2id_key(password, h.kdf_salt, h.memory_kib, h.iterations, h.parallelism as u32);
        let wrap_key = hkdf_sha256_okm(master, wrap_key_info());
        let mac_key = hkdf_sha256_okm(master, header_mac_key_info());
        if h.header_mac != hmac_sha256_tag(mac_key, canonical_header_seq(h)) {
            Err(VaultErrorView::BadPasswordOrCorrupted)
        } else {
            match chacha20poly1305_open(wrap_key, h.nonce_dek, h.wrapped_dek, wrap_dek_aad()) {
                None => Err(VaultErrorView::BadPasswordOrCorrupted),
                Some(dek) => Ok(dek),
            }
        }
    }
}

/// What opening a file with a password gives: its header, its DEK and the
/// decrypted CBOR of its body. A file whose header does not parse gives
/// `InvalidStructure` with the format's message; after that every failure is
/// `BadPasswordOrCorrupted`.
#[verifier::opaque]
pub open spec fn unlock(d: Seq<u8>, password: Seq<u8>) -> Result<(HeaderView, Seq<u8>, Seq<u8>), VaultErrorView> {
    match header_error(d) {
        Some(e) => Err(VaultErrorView::InvalidStructure(format_error_text(e@))),
        None => {
            let h = header_fields(d);
            match header_dek(h, password) {
                Err(e) => Err(e),
                Ok(dek) => match chacha20poly1305_open(dek, h.nonce_body, d.subrange(144, d.len() as int), body_aad_seq(h)) {
                    None => Err(VaultErrorView::BadPasswordOrCorrupted),
                    Some(body) => Ok((h, dek, body)),
                },
            }
        },
    }
}

/// What opening a file gives with the body parsed. A body that decrypts but does
/// not parse counts as damage: `BadPasswordOrCorrupted`.
#[verifier::opaque]
pub open spec fn unlock_body(d: Seq<u8>, password: Seq<u8>) -> Result<(HeaderView, Seq<u8>, BodyView), VaultErrorView> {
    match unlock(d, password) {
        Err(e) => Err(e),
        Ok((h, dek, bytes)) => match body_from_bytes(bytes) {
            Some(Ok(body)) => Ok((h, dek, body)),
            _ => Err(VaultErrorView::BadPasswordOrCorrupted),
        },
    }
}

/// Law: once the header parses, opening fails only with `BadPasswordOrCorrupted`,
/// whichever check failed.
pub proof fn lemma_crypto_failures_look_alike(d: Seq<u8>, password: Seq<u8>)
    requires
        header_error(d) is None,
    ensures
        unlock(d, password) matches Err(e) ==> e == VaultErrorView::BadPasswordOrCorrupted,
        unlock_body(d, password) matches Err(e) ==> e == VaultErrorView::BadPasswordOrCorrupted,
{
    reveal(unlock);
    reveal(unlock_body);
    reveal(header_dek);
}

/// An opened file whose body parses opens with that body, and its header is the
/// one that its bytes hold.
proof fn lemma_unlock_then_parse(
    d: Seq<u8>,
    password: Seq<u8>,
    h: HeaderView,
    dek: Seq<u8>,
    bytes: Seq<u8>,
    body: BodyView,
)
    requires
        unlock(d, password) == Ok::<(HeaderView, Seq<u8>, Seq<u8>), VaultErrorView>((h, dek, bytes)),
        body_from_bytes(bytes) == Some(Ok::<BodyView, crate::format::FormatErrorView>(body)),
    ensures
        h == header_fields(d),
        unlock_body(d, password) == Ok::<(HeaderView, Seq<u8>, BodyView), VaultErrorView>((h, dek, body)),
{
    reveal(unlock);
    reveal(unlock_body);
}

// ─── Opening ────────────────────────────────────────────────────────────────

/// Checks the structure of a file without a password: `Ok` exactly when its
/// header parses, else `InvalidStructure` with the format's message.
pub fn verify_structure(bytes: &[u8]) -> (r: Result<(), VaultError>)
    ensures
        match header_error(bytes@) {
            None => r is Ok,
            Some(e) => r matches Err(x) && x@ == VaultErrorView::InvalidStructure(format_error_text(e@)),
        },
{
    match parse_header(bytes) {
        Ok(_) => Ok(()),
        Err(e) => Err(map_format_err(e)),
    }
}

/// Opens a file with a password down to the decrypted CBOR of its body: header,
/// keys from the password, header MAC, DEK, body. The outcome is `unlock`.
pub fn decrypt_to_body_cbor(bytes: &[u8], password: &str) -> (r: Result<(VaultHeader, Dek, Vec<u8>), VaultError>)
    ensures
        match unlock(bytes@, password_bytes(password@)) {
            Ok((h, dek, body)) => r matches Ok((hh, k, b)) && hh@ == h && k@ == dek && b@ == body,
            Err(e) => r matches Err(x) && x@ == e,
        },
{
    proof {
        reveal(unlock);
        reveal(header_dek);
    }
    let header = match parse_header(bytes) {
        Ok(h) => h,
        Err(e) => return Err(map_format_err(e)),
    };
    let pw = password.as_bytes();
    let master = match derive_master_key(
        pw,
        &header.kdf_salt,
        header.kdf_params.memory_kib,
        header.kdf_params.iterations,
        header.kdf_params.parallelism as u32,
    ) {
        Ok(m) => m,
        Err(e) => return Err(map_crypto_err(e)),
    };
    let keys = match derive_keys(&master) {
        Ok(k) => k,
        Err(e) => return Err(map_crypto_err(e)),
    };
    let canonical = header.serialize_canonical();
    match verify_header_mac(&keys.header_mac_key, canonical.as_slice(), &header.header_mac) {
        Ok(()) => {},
        Err(e) => return Err(map_crypto_err(e)),
    }
    let dek = match unwrap_dek(&keys.wrap_key, &header.nonce_dek, &header.wrapped_dek) {
        Ok(d) => d,
        Err(e) => return Err(map_crypto_err(e)),
    };
    let ct_body = slice_from(bytes, FULL_HEADER_LEN + NONCE_BODY_LEN);
    let aad = header.aad_for_body();
    let body_cbor = match decrypt_body(&dek, &header.nonce_body, ct_body.as_slice(), aad.as_slice()) {
        Ok(b) => b,
        Err(e) => return Err(map_crypto_err(e)),
    };
    Ok((header, dek, body_cbor))
}

/// The bytes of `data` from `start` on.
fn slice_from(data: &[u8], start: usize) -> (r: Vec<u8>)
    requires
        start <= data@.len(),
    ensures
        r@ == data@.subrange(start as int, data@.len() as int),
{
    let mut v: Vec<u8> = Vec::new();
    let mut i: usize = start;
    while i < data.len()
        invariant
            start <= i <= data@.len(),
            v@ == data@.subrange(start as int, i as int),
        decreases data@.len() - i,
    {
        v.push(data[i]);
        assert(v@ =~= data@.subrange(start as int, i + 1));
        i = i + 1;
    }
    v
}

/// Opens a file and parses its body. The outcome is `unlock_body`.
pub fn decrypt_vault_body(bytes: &[u8], password: &str) -> (r: Result<(VaultHeader, Dek, VaultBody), VaultError>)
    ensures
        match unlock_body(bytes@, password_bytes(password@)) {
            Ok((h, dek, body)) => r matches Ok((hh, k, b)) && hh@ == h && k@ == dek && b@ == body,
            Err(e) => r matches Err(x) && x@ == e,
        },
{
    proof {
        reveal(unlock_body);
    }
    let (header, dek, body_cbor) = match decrypt_to_body_cbor(bytes, password) {
        Ok(t) => t,
        Err(e) => return Err(e),
    };
    match parse_body(body_cbor.as_slice()) {
        Ok(body) => Ok((header, dek, body)),
        Err(_) => Err(VaultError::BadPasswordOrCorrupted),
    }
}

// ─── Creating a file ────────────────────────────────────────────────────────

/// The header that a new file gets: the default KDF parameters, the given salt
/// and nonces, the DEK wrapped under the key that the password gives, and the MAC
/// of the canonical header under the MAC key that the password gives.
pub open spec fn new_header(
    password: Seq<u8>,
    kdf_salt: Seq<u8>,
    nonce_dek: Seq<u8>,
    nonce_body: Seq<u8>,
    dek: Seq<u8>,
) -> HeaderView {
    let master = argon2id_key(password, kdf_salt, 65536, 3, 1);
    let wrap_key = hkdf_sha256_okm(master, wrap_key_info());
    let mac_key = hkdf_sha256_okm(master, header_mac_key_info());
    let h = HeaderView {
        version: 1,
        flags: 0,
        kdf_id: 1,
        memory_kib: 65536,
        iterations: 3,
        parallelism: 1,
        kdf_salt,
        aead_id: 1,
        nonce_dek,
        wrapped_dek: chacha20poly1305_seal(wrap_key, nonce_dek, dek, wrap_dek_aad()),
        header_mac: Seq::empty(),
        nonce_body,
    };
    HeaderView { header_mac: hmac_sha256_tag(mac_key, canonical_header_seq(h)), ..h }
}

/// The bytes of a file: the full header, then the body encrypted under the DEK
/// with the canonical header and its MAC as associated data.
pub open spec fn file_bytes(h: HeaderView, dek: Seq<u8>, body_cbor: Seq<u8>) -> Seq<u8> {
    full_header_seq(h) + chacha20poly1305_seal(dek, h.nonce_body, body_cbor, body_aad_seq(h))
}

/// Builds the bytes of a vault file from a password, a DEK and an encoded body,
/// with a fresh salt and nonces: the layout shared by creating a vault and by
/// changing its password. It fails, with `BadPasswordOrCorrupted`, only when
/// Argon2 refuses the password (over `u32::MAX` bytes) or the body is too long to
/// encrypt. The file opens with that password to that DEK and that body.
#[verifier::rlimit(40)]
pub fn assemble_vault_bytes(
    password: &str,
    dek: &Dek,
    body_cbor: &[u8],
    kdf_salt: [u8; 16],
    nonce_dek: [u8; 12],
    nonce_body: [u8; 12],
) -> (r: Result<Vec<u8>, VaultError>)
    ensures
        r is Ok <==> argon2_accepts(password_bytes(password@).len(), 16, 65536, 3, 1) && crate::crypto::aead_len_ok(body_cbor@.len()),
        r matches Err(e) ==> e@ == VaultErrorView::BadPasswordOrCorrupted,
        r matches Ok(f) ==> f@ == file_bytes(new_header(password_bytes(password@), kdf_salt@, nonce_dek@, nonce_body@, dek@), dek@, body_cbor@),
        r matches Ok(f) ==> unlock(f@, password_bytes(password@)) == Ok::<(HeaderView, Seq<u8>, Seq<u8>), VaultErrorView>((new_header(password_bytes(password@), kdf_salt@, nonce_dek@, nonce_body@, dek@), dek@, body_cbor@)),
{
    let params = KdfParams::default_v1();
    let master = match derive_master_key(
        password.as_bytes(),
        &kdf_salt,
        params.memory_kib,
        params.iterations,
        params.parallelism as u32,
    ) {
        Ok(m) => m,
        Err(e) => return Err(map_crypto_err(e)),
    };
    let keys = match derive_keys(&master) {
        Ok(k) => k,
        Err(e) => return Err(map_crypto_err(e)),
    };
    let wrapped = match wrap_dek(&keys.wrap_key, &nonce_dek, dek) {
        Ok(w) => w,
        Err(e) => return Err(map_crypto_err(e)),
    };
    let mut header = VaultHeader {
        version: VERSION,
        flags: 0,
        kdf_id: KDF_ID_ARGON2ID,
        kdf_params: params,
        kdf_salt,
        aead_id: AEAD_ID_CHACHA20_POLY1305,
        nonce_dek,
        wrapped_dek: wrapped,
        header_mac: [0u8; 32],
        nonce_body,
    };
    let canonical = header.serialize_canonical();
    header.header_mac = compute_header_mac(&keys.header_mac_key, canonical.as_slice());
    let aad = header.aad_for_body();
    let ct_body = match encrypt_body(dek, &nonce_body, body_cbor, aad.as_slice()) {
        Ok(c) => c,
        Err(e) => return Err(map_crypto_err(e)),
    };
    let mut file = header.serialize_full();
    crate::format::push_all(&mut file, ct_body.as_slice());
    proof {
        reveal(unlock);
        reveal(header_dek);
        let pw = password_bytes(password@);
        let h = new_header(pw, kdf_salt@, nonce_dek@, nonce_body@, dek@);
        assert(header@ == h);
        assert(header_valid(h));
        lemma_header_roundtrip(h, ct_body@);
        let f = file@;
        assert(f == full_header_seq(h) + ct_body@);
        assert(f.subrange(144, f.len() as int) =~= ct_body@);
        assert(header_dek(h, pw) == Ok::<Seq<u8>, VaultErrorView>(dek@));
    }
    Ok(file)
}

/// The body of a new vault: schema version 1, no records.
pub open spec fn empty_body() -> BodyView {
    BodyView { schema_version: 1, records: Seq::empty() }
}

/// Whether a new vault can be built under a password: Argon2 accepts the password
/// with the default costs, and the encoded empty body is short enough to encrypt.
pub open spec fn new_vault_ok(password: Seq<u8>) -> bool {
    argon2_accepts(password.len(), 16, 65536, 3, 1) && crate::crypto::aead_len_ok(cbor_encoding(body_tree(empty_body())).len())
}

/// Builds a new, empty vault encrypted under a password, from the random salt,
/// DEK and nonces that the caller draws. On success the file opens with that
/// password to that DEK and an empty body of schema version 1. It fails, with
/// `BadPasswordOrCorrupted`, exactly when Argon2 refuses the password (or the body
/// could not be encrypted): see `new_vault_ok`.
pub fn build_new_vault_bytes(
    password: &str,
    kdf_salt: [u8; 16],
    dek_bytes: [u8; 32],
    nonce_dek: [u8; 12],
    nonce_body: [u8; 12],
) -> (r: Result<Vec<u8>, VaultError>)
    ensures
        r is Ok <==> new_vault_ok(password_bytes(password@)),
        r matches Err(e) ==> e@ is BadPasswordOrCorrupted,
        r matches Ok(f) ==> f@ == file_bytes(new_header(password_bytes(password@), kdf_salt@, nonce_dek@, nonce_body@, dek_bytes@), dek_bytes@, cbor_encoding(body_tree(empty_body()))),
        r matches Ok(f) ==> unlock_body(f@, password_bytes(password@)) == Ok::<(HeaderView, Seq<u8>, BodyView), VaultErrorView>((header_fields(f@), dek_bytes@, empty_body())),
{
    let dek = Dek::from_bytes(dek_bytes);
    let body = VaultBody { schema_version: 1, records: Vec::new() };
    let body_cbor = match serialize_body(&body) {
        Ok(b) => b,
        Err(e) => return Err(map_format_err(e)),
    };
    let r = assemble_vault_bytes(password, &dek, body_cbor.as_slice(), kdf_salt, nonce_dek, nonce_body);
    proof {
        assert(body@.records =~= Seq::<crate::format::RecordView>::empty());
        assert(body@ == empty_body());
        if r is Ok {
            let f = r->Ok_0;
            lemma_serialized_body_parses_back(empty_body(), body_cbor@);
            let pw = password_bytes(password@);
            let h = new_header(pw, kdf_salt@, nonce_dek@, nonce_body@, dek@);
            lemma_unlock_then_parse(f@, pw, h, dek@, body_cbor@, empty_body());
        }
    }
    r
}

// ─── Records of the file and of the application ─────────────────────────────

/// The application record of a record of the file. Logins are the one type of
/// this version; any other type is `InvalidStructure`, since decryption worked.
pub open spec fn record_of(rv: RecordView) -> Result<RecordModel, VaultErrorView> {
    match rv.fields {
        FieldsView::Login { url, username, password } => Ok(RecordModel {
            id: rv.id,
            rtype: RecordType::Login,
            title: rv.title,
            tags: rv.tags,
            notes: rv.notes,
            created_at: rv.created_at,
            modified_at: rv.modified_at,
            fields: login_fields(url, username, password),
        }),
        _ => Err(VaultErrorView::InvalidStructure("nieobslugiwany typ rekordu w MVP: "@ + rv.record_type)),
    }
}

/// The application records of the records of a file, or the error of the first
/// that has none.
pub open spec fn records_of(rs: Seq<RecordView>) -> Result<Seq<RecordModel>, VaultErrorView>
    decreases rs.len(),
{
    if rs.len() == 0 {
        Ok(Seq::empty())
    } else {
        match records_of(rs.drop_last()) {
            Err(e) => Err(e),
            Ok(ms) => match record_of(rs.last()) {
                Err(e) => Err(e),
                Ok(m) => Ok(ms.push(m)),
            },
        }
    }
}

/// The text of the field `k` of a login, or the error that it is missing.
pub open spec fn login_text(fields: Seq<(Seq<char>, FieldValueView)>, k: Seq<char>) -> Result<Seq<char>, VaultErrorView> {
    if has_key(fields, k) && as_map(fields)[k] is Text {
        Ok(as_map(fields)[k]->Text_0)
    } else {
        Err(VaultErrorView::InvalidStructure("rekord login bez pola: "@ + k))
    }
}

/// The record of the file for an application record: the texts of `url`,
/// `username` and `password` (the first missing one is an error).
pub open spec fn vault_record_of(m: RecordModel) -> Result<RecordView, VaultErrorView> {
    match login_text(m.fields, "url"@) {
        Err(e) => Err(e),
        Ok(url) => match login_text(m.fields, "username"@) {
            Err(e) => Err(e),
            Ok(username) => match login_text(m.fields, "password"@) {
                Err(e) => Err(e),
                Ok(password) => Ok(RecordView {
                    id: m.id,
                    record_type: "login"@,
                    title: m.title,
                    tags: m.tags,
                    notes: m.notes,
                    created_at: m.created_at,
                    modified_at: m.modified_at,
                    fields: FieldsView::Login { url, username, password },
                }),
            },
        },
    }
}

fn copy_strings(v: &Vec<String>) -> (r: Vec<String>)
    ensures
        string_views(r@) == string_views(v@),
{
    let mut out: Vec<String> = Vec::new();
    let mut i: usize = 0;
    while i < v.len()
        invariant
            i <= v@.len(),
            out@.len() == i,
            forall|j: int| 0 <= j < i ==> (#[trigger] out@[j])@ == v@[j]@,
        decreases v@.len() - i,
    {
        out.push(v[i].clone());
        i = i + 1;
    }
    assert(string_views(out@) =~= string_views(v@));
    out
}

/// The application record of a record of the file (see `record_of`).
pub fn record_from_vault(vr: &VaultRecord) -> (r: Result<Record, VaultError>)
    ensures
        match record_of(vr@) {
            Ok(m) => r matches Ok(rec) && rec@ == m,
            Err(e) => r matches Err(x) && x@ == e,
        },
{
    match &vr.fields {
        RecordFields::Login { url, username, password } => {
            let fields = login_field_map(url.clone(), username.clone(), password.clone());
            let tags = copy_strings(&vr.tags);
            let rec = Record {
                id: vr.id,
                rtype: RecordType::Login,
                title: vr.title.clone(),
                tags,
                notes: vr.notes.clone(),
                created_at: vr.created_at,
                modified_at: vr.modified_at,
                fields,
            };
            proof {
                assert(texts_of(vr.tags@) =~= string_views(vr.tags@));
            }
            Ok(rec)
        },
        _ => Err(VaultError::InvalidStructure(concat_str("nieobslugiwany typ rekordu w MVP: ", vr.record_type.as_str()))),
    }
}

fn login_field_text(rec: &Record, k: &str) -> (r: Result<String, VaultError>)
    ensures
        match login_text(rec@.fields, k@) {
            Ok(t) => r matches Ok(s) && s@ == t,
            Err(e) => r matches Err(x) && x@ == e,
        },
{
    match rec.fields.get(k) {
        Some(FieldValue::Text(s)) => Ok(s.clone()),
        _ => Err(VaultError::InvalidStructure(concat_str("rekord login bez pola: ", k))),
    }
}

/// The record of the file for an application record (see `vault_record_of`).
pub fn vault_record_from_record(rec: &Record) -> (r: Result<VaultRecord, VaultError>)
    ensures
        match vault_record_of(rec@) {
            Ok(v) => r matches Ok(x) && x@ == v,
            Err(e) => r matches Err(x) && x@ == e,
        },
{
    let url = match login_field_text(rec, "url") {
        Ok(t) => t,
        Err(e) => return Err(e),
    };
    let username = match login_field_text(rec, "username") {
        Ok(t) => t,
        Err(e) => return Err(e),
    };
    let password = match login_field_text(rec, "password") {
        Ok(t) => t,
        Err(e) => return Err(e),
    };
    let tags = copy_strings(&rec.tags);
    let out = VaultRecord {
        id: rec.id,
        record_type: rec.rtype.as_str().to_owned(),
        title: rec.title.clone(),
        tags,
        notes: rec.notes.clone(),
        created_at: rec.created_at,
        modified_at: rec.modified_at,
        fields: RecordFields::Login { url, username, password },
    };
    proof {
        assert(texts_of(out.tags@) =~= string_views(out.tags@));
    }
    Ok(out)
}

/// Law: a login record goes to the file and back unchanged.
pub proof fn lemma_record_to_file_and_back(m: RecordModel, url: Seq<char>, username: Seq<char>, password: Seq<char>)
    requires
        m.rtype == RecordType::Login,
        m.fields == login_fields(url, username, password),
    ensures
        vault_record_of(m) matches Ok(v) && record_of(v) == Ok::<RecordModel, VaultErrorView>(m),
{
    lemma_login_fields_lookup(url, username, password);
}

/// Law: a login record of the file goes to the application and back unchanged.
pub proof fn lemma_file_record_to_app_and_back(rv: RecordView)
    requires
        rv.fields is Login,
        rv.record_type == "login"@,
    ensures
        record_of(rv) matches Ok(m) && vault_record_of(m) == Ok::<RecordView, VaultErrorView>(rv),
{
    match rv.fields {
        FieldsView::Login { url, username, password } => {
            lemma_login_fields_lookup(url, username, password);
        },
        _ => {},
    }
}

/// Opens a file with a password down to the application records; the outcome is
/// `unlock_body` followed by `records_of`.
#[verifier::loop_isolation(false)]
pub fn decrypt_vault(bytes: &[u8], password: &str) -> (r: Result<Vec<Record>, VaultError>)
    ensures
        match unlock_body(bytes@, password_bytes(password@)) {
            Err(e) => r matches Err(x) && x@ == e,
            Ok((_h, _dek, body)) => match records_of(body.records) {
                Ok(ms) => r matches Ok(v) && record_models(v@) == ms,
                Err(e) => r matches Err(x) && x@ == e,
            },
        },
{
    let (_header, _dek, body) = match decrypt_vault_body(bytes, password) {
        Ok(t) => t,
        Err(e) => return Err(e),
    };
    let ghost rs = body@.records;
    let mut out: Vec<Record> = Vec::new();
    let mut i: usize = 0;
    assert(rs.subrange(0, 0) =~= Seq::<RecordView>::empty());
    assert(record_models(out@) =~= Seq::<RecordModel>::empty());
    while i < body.records.len()
        invariant
            i <= body.records@.len(),
            rs == body@.records,
            rs.len() == body.records@.len(),
            records_of(rs.subrange(0, i as int)) == Ok::<Seq<RecordModel>, VaultErrorView>(record_models(out@)),
        decreases body.records@.len() - i,
    {
        let next = record_from_vault(&body.records[i]);
        proof {
            let sub = rs.subrange(0, i + 1);
            assert(sub.drop_last() =~= rs.subrange(0, i as int));
            assert(sub.last() == body.records@[i as int]@);
        }
        match next {
            Ok(rec) => {
                let ghost before = out@;
                out.push(rec);
                assert(record_models(out@) =~= record_models(before).push(rec@));
            },
            Err(e) => {
                proof {
                    let sub = rs.subrange(0, i + 1);
                    assert(records_of(sub) == Err::<Seq<RecordModel>, VaultErrorView>(e@));
                    lemma_records_of_err(rs, (i + 1) as nat, e@);
                    assert(rs.subrange(0, rs.len() as int) =~= rs);
                }
                return Err(e);
            },
        }
        i = i + 1;
    }
    proof {
        assert(rs.subrange(0, rs.len() as int) =~= rs);
    }
    Ok(out)
}

/// Once a prefix of the records fails, the whole list fails with that error.
proof fn lemma_records_of_err(rs: Seq<RecordView>, n: nat, e: VaultErrorView)
    requires
        n <= rs.len(),
        records_of(rs.subrange(0, n as int)) == Err::<Seq<RecordModel>, VaultErrorView>(e),
    ensures
        records_of(rs) == Err::<Seq<RecordModel>, VaultErrorView>(e),
    decreases rs.len() - n,
{
    if n < rs.len() {
        let sub = rs.subrange(0, n as int + 1);
        assert(sub.drop_last() =~= rs.subrange(0, n as int));
        lemma_records_of_err(rs, n + 1, e);
    } else {
        assert(rs.subrange(0, n as int) =~= rs);
    }
}

// ─── Randomness ─────────────────────────────────────────────────────────────

/// `N` bytes from the operating system's CSPRNG:
/// `rand::rngs::OsRng.try_fill_bytes`, its error turned into the `std::io::Error`
/// that `rand_core` converts it to. Nothing is said of the bytes, nor of when the
/// operating system fails to supply them.
#[verifier::external_body]
fn random_bytes<const N: usize>() -> Result<[u8; N], std::io::Error> {
    let mut b = [0u8; N];
    match rand::RngCore::try_fill_bytes(&mut rand::rngs::OsRng, &mut b) {
        Ok(()) => Ok(b),
        Err(e) => Err(std::io::Error::from(e)),
    }
}

/// A version 4 UUID from 16 random bytes, as `uuid` builds one:
/// `Builder::from_random_bytes(bytes).into_uuid().into_bytes()`.
///
/// Claims, from `Builder::with_version` and `with_variant`: byte 6 gets version 4 in
/// its high half (`(b & 0x0f) | 0x40`), byte 8 gets the RFC 4122 variant in its top
/// two bits (`(b & 0x3f) | 0x80`), and every other byte is the input's.
#[verifier::external_body]
fn uuid_v4_from_bytes(bytes: [u8; 16]) -> (r: [u8; 16])
    ensures
        r@[6] == bytes@[6] % 16 + 64,
        r@[8] == bytes@[8] % 64 + 128,
        forall|i: int| 0 <= i < 16 && i != 6 && i != 8 ==> r@[i] == bytes@[i],
{
    uuid::Builder::from_random_bytes(bytes).into_uuid().into_bytes()
}

/// Whether 16 bytes are a version 4 UUID: version nibble 4, variant bits `10`.
pub open spec fn is_uuid_v4(id: Seq<u8>) -> bool {
    id.len() == 16 && id[6] / 16 == 4 && id[8] / 64 == 2
}

/// A new random record id: a version 4 UUID from 16 bytes of the operating
/// system's CSPRNG; an I/O error when the operating system supplies none.
fn new_record_id() -> (r: Result<[u8; 16], std::io::Error>)
    ensures
        r matches Ok(id) ==> is_uuid_v4(id@),
{
    match random_bytes::<16>() {
        Ok(bytes) => {
            let id = uuid_v4_from_bytes(bytes);
            assert(id@[6] / 16 == 4);
            assert(id@[8] / 64 == 2);
            Ok(id)
        },
        Err(e) => Err(e),
    }
}

// ─── Saving after a change ──────────────────────────────────────────────────

/// A header with another body nonce.
pub open spec fn with_nonce(h: HeaderView, nonce_body: Seq<u8>) -> HeaderView {
    HeaderView { nonce_body, ..h }
}

/// Whether a password opens a header to a DEK: its MAC checks and its wrapped DEK
/// opens to that DEK.
pub open spec fn opens_to(h: HeaderView, password: Seq<u8>, dek: Seq<u8>) -> bool {
    header_valid(h) && header_dek(h, password) == Ok::<Seq<u8>, VaultErrorView>(dek)
}

/// The bytes of a file after a change of its body: the same header (salt, wrapped
/// DEK and MAC untouched, so the same password opens it) with a new body nonce,
/// and the body encrypted anew under the same DEK. Fails, with
/// `BadPasswordOrCorrupted`, exactly when the encoded body is too long to encrypt. A DEK must never be used twice with one nonce: the caller
/// passes a fresh one.
pub fn resealed_vault_bytes(header: &VaultHeader, dek: &Dek, body: &VaultBody, nonce_body: [u8; 12]) -> (r: Result<Vec<u8>, VaultError>)
    ensures
        r is Ok <==> crate::crypto::aead_len_ok(cbor_encoding(body_tree(body@)).len()),
        r matches Ok(f) ==> f@.subrange(0, 132) == body_aad_seq(header@),
        r matches Ok(f) ==> f@.subrange(132, 144) == nonce_body@,
        r matches Ok(f) ==> f@ == file_bytes(with_nonce(header@, nonce_body@), dek@, crate::cbor::cbor_encoding(crate::format::body::body_tree(body@))),
        r matches Ok(f) ==> forall|pw: Seq<u8>| opens_to(header@, pw, dek@) && body_consistent(body@) ==> #[trigger] unlock_body(f@, pw) == Ok::<(HeaderView, Seq<u8>, BodyView), VaultErrorView>((with_nonce(header@, nonce_body@), dek@, body@)),
        r matches Err(e) ==> e@ is BadPasswordOrCorrupted,
{
    let body_cbor = match serialize_body(body) {
        Ok(b) => b,
        Err(e) => return Err(map_format_err(e)),
    };
    let aad = header.aad_for_body();
    let ct_body = match encrypt_body(dek, &nonce_body, body_cbor.as_slice(), aad.as_slice()) {
        Ok(c) => c,
        Err(e) => return Err(map_crypto_err(e)),
    };
    let mut new_header = *header;
    new_header.nonce_body = nonce_body;
    let mut file = new_header.serialize_full();
    crate::format::push_all(&mut file, ct_body.as_slice());
    proof {
        let h = header@;
        let h2 = with_nonce(h, nonce_body@);
        assert(new_header@ == h2);
        lemma_resealed_opens(h, nonce_body@, dek@, body@, body_cbor@, ct_body@, file@);
    }
    Ok(file)
}

/// The resealed file keeps the first 132 bytes, holds the new nonce, and opens
/// with every password that opened the header, to the same DEK and the body.
proof fn lemma_resealed_opens(
    h: HeaderView,
    nonce_body: Seq<u8>,
    dek: Seq<u8>,
    body: BodyView,
    body_cbor: Seq<u8>,
    ct_body: Seq<u8>,
    f: Seq<u8>,
)
    requires
        nonce_body.len() == 12,
        h.kdf_salt.len() == 16,
        h.nonce_dek.len() == 12,
        h.wrapped_dek.len() == 48,
        h.header_mac.len() == 32,
        cbor_decoding(body_cbor) == Some(body_tree(body)),
        body_cbor == crate::cbor::cbor_encoding(body_tree(body)),
        ct_body == chacha20poly1305_seal(dek, nonce_body, body_cbor, body_aad_seq(h)),
        chacha20poly1305_open(dek, nonce_body, ct_body, body_aad_seq(h)) == Some(body_cbor),
        f == full_header_seq(with_nonce(h, nonce_body)) + ct_body,
        ct_body.len() >= 1,
    ensures
        f.subrange(0, 132) == body_aad_seq(h),
        f.subrange(132, 144) == nonce_body,
        f == file_bytes(with_nonce(h, nonce_body), dek, body_cbor),
        forall|pw: Seq<u8>| opens_to(h, pw, dek) && body_consistent(body) ==> #[trigger] unlock_body(f, pw) == Ok::<(HeaderView, Seq<u8>, BodyView), VaultErrorView>((with_nonce(h, nonce_body), dek, body)),
{
    let h2 = with_nonce(h, nonce_body);
    assert(f.subrange(0, 132) =~= body_aad_seq(h));
    assert(f.subrange(132, 144) =~= nonce_body);
    assert(f.subrange(144, f.len() as int) =~= ct_body);
    assert(body_aad_seq(h2) == body_aad_seq(h));
    assert forall|pw: Seq<u8>| opens_to(h, pw, dek) && body_consistent(body) implies #[trigger] unlock_body(f, pw) == Ok::<(HeaderView, Seq<u8>, BodyView), VaultErrorView>((h2, dek, body)) by {
        reveal(unlock);
        reveal(unlock_body);
        reveal(header_dek);
        lemma_header_roundtrip(h2, ct_body);
        lemma_serialized_body_parses_back(body, body_cbor);
    }
}

/// Saves a changed body: `resealed_vault_bytes` with a body nonce fresh from the
/// operating system's CSPRNG. Besides `BadPasswordOrCorrupted` for a body too long
/// to encrypt, it fails with an I/O error exactly when the operating system
/// supplies no random bytes.
pub fn save_vault(header: &VaultHeader, dek: &Dek, body: &VaultBody) -> (r: Result<Vec<u8>, VaultError>)
    ensures
        r is Ok ==> crate::crypto::aead_len_ok(cbor_encoding(body_tree(body@)).len()),
        r matches Err(e) ==> e@ is Io || (e@ is BadPasswordOrCorrupted && !crate::crypto::aead_len_ok(cbor_encoding(body_tree(body@)).len())),
        r matches Ok(f) ==> f@.subrange(0, 132) == body_aad_seq(header@),
        r matches Ok(f) ==> forall|pw: Seq<u8>| opens_to(header@, pw, dek@) && body_consistent(body@) ==> #[trigger] unlock_body(f@, pw) == Ok::<(HeaderView, Seq<u8>, BodyView), VaultErrorView>((with_nonce(header@, f@.subrange(132, 144)), dek@, body@)),
{
    let nonce_body = match random_bytes::<12>() {
        Ok(n) => n,
        Err(e) => return Err(VaultError::Io(e)),
    };
    resealed_vault_bytes(header, dek, body, nonce_body)
}

// ─── Creating a vault, changing its password ────────────────────────────────

/// Creates a new, empty vault under a password, with salt, DEK and nonces fresh
/// from the operating system's CSPRNG. It fails with an I/O error exactly when the
/// operating system supplies no random bytes, and otherwise as
/// `build_new_vault_bytes` does: `BadPasswordOrCorrupted` exactly when
/// `new_vault_ok` does not hold. On success the file opens with that password to
/// an empty body of schema version 1.
pub fn new_vault_bytes(password: &str) -> (r: Result<Vec<u8>, VaultError>)
    ensures
        r is Ok ==> new_vault_ok(password_bytes(password@)),
        r matches Err(e) ==> e@ is Io || (e@ is BadPasswordOrCorrupted && !new_vault_ok(password_bytes(password@))),
        r matches Ok(f) ==> (unlock_body(f@, password_bytes(password@)) matches Ok((h, _dek, body)) && h == header_fields(f@) && body == empty_body()),
        r matches Ok(f) ==> exists|salt: Seq<u8>, nonce_dek: Seq<u8>, nonce_body: Seq<u8>, dek: Seq<u8>| salt.len() == 16 && nonce_dek.len() == 12 && nonce_body.len() == 12 && dek.len() == 32 && f@ == #[trigger] file_bytes(new_header(password_bytes(password@), salt, nonce_dek, nonce_body, dek), dek, cbor_encoding(body_tree(empty_body()))),
{
    let kdf_salt = match random_bytes::<16>() {
        Ok(b) => b,
        Err(e) => return Err(VaultError::Io(e)),
    };
    let dek_bytes = match random_bytes::<32>() {
        Ok(b) => b,
        Err(e) => return Err(VaultError::Io(e)),
    };
    let nonce_dek = match random_bytes::<12>() {
        Ok(b) => b,
        Err(e) => return Err(VaultError::Io(e)),
    };
    let nonce_body = match random_bytes::<12>() {
        Ok(b) => b,
        Err(e) => return Err(VaultError::Io(e)),
    };
    build_new_vault_bytes(password, kdf_salt, dek_bytes, nonce_dek, nonce_body)
}

/// Puts an opened vault under a new password: the same DEK and body, a fresh
/// salt and fresh nonces, a new header. It fails with an I/O error exactly when
/// the operating system supplies no random bytes, and with
/// `BadPasswordOrCorrupted` exactly when Argon2 refuses the new password or the
/// body is too long to encrypt. The file opens with the new password to the same
/// DEK and the same body.
pub fn rewrap_vault_bytes(new_password: &str, dek: &Dek, body_cbor: &[u8]) -> (r: Result<Vec<u8>, VaultError>)
    ensures
        r is Ok ==> argon2_accepts(password_bytes(new_password@).len(), 16, 65536, 3, 1) && crate::crypto::aead_len_ok(body_cbor@.len()),
        r matches Err(e) ==> e@ is Io || (e@ == VaultErrorView::BadPasswordOrCorrupted && !(argon2_accepts(password_bytes(new_password@).len(), 16, 65536, 3, 1) && crate::crypto::aead_len_ok(body_cbor@.len()))),
        r matches Ok(f) ==> unlock(f@, password_bytes(new_password@)) == Ok::<(HeaderView, Seq<u8>, Seq<u8>), VaultErrorView>((header_fields(f@), dek@, body_cbor@)),
{
    let kdf_salt = match random_bytes::<16>() {
        Ok(b) => b,
        Err(e) => return Err(VaultError::Io(e)),
    };
    let nonce_dek = match random_bytes::<12>() {
        Ok(b) => b,
        Err(e) => return Err(VaultError::Io(e)),
    };
    let nonce_body = match random_bytes::<12>() {
        Ok(b) => b,
        Err(e) => return Err(VaultError::Io(e)),
    };
    let r = assemble_vault_bytes(new_password, dek, body_cbor, kdf_salt, nonce_dek, nonce_body);
    proof {
        if r is Ok {
            let f = r->Ok_0;
            lemma_unlock_header(f@, password_bytes(new_password@));
        }
    }
    r
}

/// An opened file's header is the one that its bytes hold.
proof fn lemma_unlock_header(d: Seq<u8>, password: Seq<u8>)
    ensures
        unlock(d, password) matches Ok((h, _dek, _b)) ==> h == header_fields(d),
{
    reveal(unlock);
}

/// Law: changing the password keeps the body. When the old file opens with the
/// old password to a DEK and a body, and the new file opens with the new password
/// to the same DEK and the same encoded body (as `rewrap_vault_bytes` gives), the
/// new file's body parses exactly as the old one's did.
pub proof fn lemma_changepass_keeps_body(old_file: Seq<u8>, old_password: Seq<u8>, new_file: Seq<u8>, new_password: Seq<u8>)
    requires
        unlock(old_file, old_password) is Ok,
        unlock(new_file, new_password) is Ok,
        unlock(old_file, old_password)->Ok_0.1 == unlock(new_file, new_password)->Ok_0.1,
        unlock(old_file, old_password)->Ok_0.2 == unlock(new_file, new_password)->Ok_0.2,
    ensures
        unlock_body(old_file, old_password) is Ok <==> unlock_body(new_file, new_password) is Ok,
        unlock_body(old_file, old_password) matches Ok((_h, dek, body)) ==> (unlock_body(new_file, new_password) matches Ok((_h2, dek2, body2)) && dek2 == dek && body2 == body),
{
    reveal(unlock_body);
}

// ─── Adding a login ─────────────────────────────────────────────────────────

/// The body with one more record.
pub open spec fn with_record(b: BodyView, r: RecordView) -> BodyView {
    BodyView { records: b.records.push(r), ..b }
}

/// The record of the file that a new login becomes.
pub open spec fn login_record_view(
    id: Seq<u8>,
    title: Seq<char>,
    url: Seq<char>,
    username: Seq<char>,
    password: Seq<char>,
    tags: Seq<Seq<char>>,
    notes: Seq<char>,
    now_nanos: u64,
) -> RecordView {
    RecordView {
        id,
        record_type: "login"@,
        title,
        tags,
        notes,
        created_at: now_nanos,
        modified_at: now_nanos,
        fields: FieldsView::Login { url, username, password },
    }
}

/// Why adding a login with this id fails, if it fails: an input that
/// `Record::new_login` refuses, or a body too long to encrypt.
pub open spec fn add_login_error(body: BodyView, input: LoginInputView, id: Seq<u8>, now_nanos: u64) -> Option<VaultErrorView> {
    match crate::record::login_input_error(input.title, input.username) {
        Some(why) => Some(VaultErrorView::InvalidStructure(why)),
        None => if !crate::crypto::aead_len_ok(cbor_encoding(body_tree(with_record(body, login_record_view(id, input.title, input.url, input.username, input.password, input.tags, input.notes, now_nanos)))).len()) {
            Some(VaultErrorView::BadPasswordOrCorrupted)
        } else {
            None
        },
    }
}

/// The content of a login input.
pub struct LoginInputView {
    pub title: Seq<char>,
    pub url: Seq<char>,
    pub username: Seq<char>,
    pub password: Seq<char>,
    pub tags: Seq<Seq<char>>,
    pub notes: Seq<char>,
}

/// The content of a login input.
pub open spec fn login_input_view(input: LoginInput) -> LoginInputView {
    LoginInputView {
        title: input.title@,
        url: input.url@,
        username: input.username@,
        password: input.password@,
        tags: string_views(input.tags@),
        notes: input.notes@,
    }
}

/// Adds a login with a given id to an opened vault and seals the body under a
/// given nonce. It fails exactly as `add_login_error` says: `InvalidStructure`
/// with the reason for an input that `Record::new_login` refuses,
/// `BadPasswordOrCorrupted` for a body too long to encrypt. On success it returns
/// the new file and the record; the file opens with every password that opened
/// the vault to the body with the record added.
pub fn add_login_record(header: &VaultHeader, dek: &Dek, body: VaultBody, input: LoginInput, id: [u8; 16], now_nanos: u64, nonce_body: [u8; 12]) -> (r: Result<(Vec<u8>, Record), VaultError>)
    ensures
        match add_login_error(body@, login_input_view(input), id@, now_nanos) {
            Some(e) => r matches Err(x) && x@ == e,
            None => r is Ok,
        },
        r matches Ok((f, rec)) ==> rec@ == (RecordModel {
            id: id@,
            rtype: RecordType::Login,
            title: input.title@,
            tags: string_views(input.tags@),
            notes: input.notes@,
            created_at: now_nanos,
            modified_at: now_nanos,
            fields: login_fields(input.url@, input.username@, input.password@),
        }),
        r matches Ok((f, rec)) ==> f@.subrange(0, 132) == body_aad_seq(header@) && f@.subrange(132, 144) == nonce_body@,
        r matches Ok((f, rec)) ==> forall|pw: Seq<u8>| opens_to(header@, pw, dek@) && body_consistent(body@) ==> #[trigger] unlock_body(f@, pw) == Ok::<(HeaderView, Seq<u8>, BodyView), VaultErrorView>((with_nonce(header@, nonce_body@), dek@, with_record(body@, login_record_view(id@, input.title@, input.url@, input.username@, input.password@, string_views(input.tags@), input.notes@, now_nanos)))),
{
    let ghost iv = login_input_view(input);
    let record = match Record::new_login(input, id, now_nanos) {
        Ok(rec) => rec,
        Err(why) => return Err(VaultError::InvalidStructure(why.to_owned())),
    };
    let vr = match vault_record_from_record(&record) {
        Ok(v) => v,
        Err(e) => return Err(e),
    };
    proof {
        lemma_login_fields_lookup(iv.url, iv.username, iv.password);
        lemma_record_to_file_and_back(record@, iv.url, iv.username, iv.password);
        reveal_strlit("login");
        assert(vr@ == login_record_view(id@, iv.title, iv.url, iv.username, iv.password, iv.tags, iv.notes, now_nanos));
    }
    let mut body = body;
    let ghost old_body = body@;
    body.records.push(vr);
    proof {
        assert(body@.records =~= old_body.records.push(vr@));
        assert(body@ == with_record(old_body, vr@));
        assert(crate::format::body::record_consistent(vr@));
        assert(body_consistent(old_body) ==> body_consistent(body@));
    }
    let f = match resealed_vault_bytes(header, dek, &body, nonce_body) {
        Ok(f) => f,
        Err(e) => return Err(e),
    };
    Ok((f, record))
}

/// Adds a login to an opened vault and saves it: `add_login_record` with a random
/// version 4 UUID as id and a body nonce, both fresh from the operating system's
/// CSPRNG. It fails with an I/O error exactly when the operating system supplies
/// no random bytes; otherwise as `add_login_error` says for the id it drew.
pub fn add_login_to_vault(header: &VaultHeader, dek: &Dek, body: VaultBody, input: LoginInput, now_nanos: u64) -> (r: Result<(Vec<u8>, Record), VaultError>)
    ensures
        r matches Err(e) ==> e@ is Io || exists|id: Seq<u8>| is_uuid_v4(id) && add_login_error(body@, login_input_view(input), id, now_nanos) == Some(e@),
        r matches Ok((f, rec)) ==> is_uuid_v4(rec@.id) && add_login_error(body@, login_input_view(input), rec@.id, now_nanos) is None,
        r matches Ok((f, rec)) ==> rec@.title == input.title@ && rec@.tags == string_views(input.tags@) && rec@.notes == input.notes@ && rec@.created_at == now_nanos && rec@.modified_at == now_nanos && rec@.fields == login_fields(input.url@, input.username@, input.password@) && rec@.rtype == RecordType::Login,
        r matches Ok((f, rec)) ==> f@.subrange(0, 132) == body_aad_seq(header@),
        r matches Ok((f, rec)) ==> forall|pw: Seq<u8>| opens_to(header@, pw, dek@) && body_consistent(body@) ==> #[trigger] unlock_body(f@, pw) == Ok::<(HeaderView, Seq<u8>, BodyView), VaultErrorView>((with_nonce(header@, f@.subrange(132, 144)), dek@, with_record(body@, login_record_view(rec@.id, input.title@, input.url@, input.username@, input.password@, string_views(input.tags@), input.notes@, now_nanos)))),
{
    let id = match new_record_id() {
        Ok(id) => id,
        Err(e) => return Err(VaultError::Io(e)),
    };
    let nonce_body = match random_bytes::<12>() {
        Ok(n) => n,
        Err(e) => return Err(VaultError::Io(e)),
    };
    add_login_record(header, dek, body, input, id, now_nanos, nonce_body)
}

// ─── Showing records ────────────────────────────────────────────────────────

/// What `get` does with the record it found.
#[derive(Debug)]
pub enum GetAction {
    /// Copy the value of the field to the clipboard (and clear it later); the
    /// secret is not printed.
    Copy { field: String, value: String },
    /// Print this text.
    Print(String),
}

/// The content of a `get` action.
pub enum GetActionView {
    Copy { field: Seq<char>, value: Seq<char> },
    Print(Seq<char>),
}

impl View for GetAction {
    type V = GetActionView;

    open spec fn view(&self) -> GetActionView {
        match self {
            GetAction::Copy { field, value } => GetActionView::Copy { field: field@, value: value@ },
            GetAction::Print(t) => GetActionView::Print(t@),
        }
    }
}

/// What `get` does with a found record: with `--clip` it copies the named field
/// (and needs `--field`); with `--field` alone it prints the raw value; with
/// neither it prints the whole record. A field that the record lacks is an error.
pub open spec fn get_outcome(m: RecordModel, field: Option<Seq<char>>, clip: bool) -> Result<GetActionView, VaultErrorView> {
    match field {
        None => if clip {
            Err(VaultErrorView::InvalidStructure("--clip wymaga --field"@))
        } else {
            Ok(GetActionView::Print(detail_text(m)))
        },
        Some(name) => match field_value_of(m, name) {
            None => Err(VaultErrorView::InvalidStructure("rekord nie ma pola: "@ + name)),
            Some(v) => if clip {
                Ok(GetActionView::Copy { field: name, value: v })
            } else {
                Ok(GetActionView::Print(v))
            },
        },
    }
}

/// The decision of `get`: finds the record by id prefix or title (as `find`),
/// then what to show or copy (as `get_outcome`). No record gives
/// `InvalidStructure` with `nie znaleziono: ` and the query.
pub fn plan_get(records: &[Record], id_or_name: &str, field: Option<&str>, clip: bool) -> (r: Result<GetAction, VaultError>)
    ensures
        (forall|j: int| 0 <= j < records@.len() ==> !answers(#[trigger] records@[j]@, trim_seq(id_or_name@))) ==> (r matches Err(e) && e@ == VaultErrorView::InvalidStructure("nie znaleziono: "@ + id_or_name@)),
        (exists|j: int| 0 <= j < records@.len() && answers(#[trigger] records@[j]@, trim_seq(id_or_name@))) ==> exists|i: int| 0 <= i < records@.len() && answers(records@[i]@, trim_seq(id_or_name@)) && (forall|j: int| 0 <= j < i ==> !answers(#[trigger] records@[j]@, trim_seq(id_or_name@))) && match get_outcome(records@[i]@, opt_str(field), clip) {
            Ok(a) => r matches Ok(x) && x@ == a,
            Err(e) => r matches Err(x) && x@ == e,
        },
{
    let record = match find(records, id_or_name) {
        Some(rec) => rec,
        None => return Err(VaultError::InvalidStructure(concat_str("nie znaleziono: ", id_or_name))),
    };
    if clip {
        let name = match field {
            Some(n) => n,
            None => return Err(VaultError::InvalidStructure("--clip wymaga --field".to_owned())),
        };
        match field_value(record, name) {
            Some(value) => Ok(GetAction::Copy { field: name.to_owned(), value }),
            None => Err(VaultError::InvalidStructure(concat_str("rekord nie ma pola: ", name))),
        }
    } else {
        match field {
            Some(name) => match field_value(record, name) {
                Some(value) => Ok(GetAction::Print(value)),
                None => Err(VaultError::InvalidStructure(concat_str("rekord nie ma pola: ", name))),
            },
            None => Ok(GetAction::Print(format_detail(record))),
        }
    }
}

/// The text of `list`: the records that pass the filters, as `format_list`
/// shows them (no secrets).
pub fn list_text_of(records: &[Record], type_filter: Option<&str>, tag_filter: Option<&str>) -> (r: String)
    ensures
        r@ == list_text(record_models(records@).filter(|m: RecordModel| passes_filters(m, opt_str(type_filter), opt_str(tag_filter)))),
{
    let chosen = filter(records, type_filter, tag_filter);
    let mut owned: Vec<Record> = Vec::new();
    let mut i: usize = 0;
    while i < chosen.len()
        invariant
            i <= chosen@.len(),
            owned@.len() == i,
            forall|j: int| 0 <= j < i ==> (#[trigger] owned@[j])@ == chosen@[j]@,
        decreases chosen@.len() - i,
    {
        owned.push(chosen[i].duplicate());
        i = i + 1;
    }
    assert(record_models(owned@) =~= ref_models(chosen@));
    format_list(owned.as_slice())
}

} // verus!
