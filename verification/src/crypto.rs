//! The key hierarchy of a vault and its cryptographic operations: Argon2id from
//! the password, HKDF-SHA256 for the derived keys, HMAC-SHA256 over the header and
//! ChaCha20-Poly1305 for the wrapped DEK and the body.
//!
//! ```text
//! master_key     = Argon2id(password, kdf_salt, params)
//! wrap_key       = HKDF(master_key, info = "vault-v1" || "wrap-dek-key")
//! header_mac_key = HKDF(master_key, info = "vault-v1" || "header-mac")
//! ```
use vstd::prelude::*;

verus! {

// ─── Constants ──────────────────────────────────────────────────────────────

/// Size of the master key, the derived keys and the DEK.
pub const KEY_LEN: usize = 32;

/// Size of a ChaCha20-Poly1305 nonce.
pub const NONCE_LEN: usize = 12;

/// Size of a Poly1305 tag.
pub const AEAD_TAG_LEN: usize = 16;

/// Size of the wrapped DEK: the 32-byte DEK and its 16-byte tag.
pub const WRAPPED_DEK_LEN: usize = 48;

/// Size of an HMAC-SHA256 tag.
pub const HMAC_LEN: usize = 32;

/// Default Argon2id memory cost in KiB (64 MiB).
pub const ARGON2_MEMORY_KIB: u32 = 65536;

/// Default Argon2id number of passes.
pub const ARGON2_ITERATIONS: u32 = 3;

/// Default Argon2id degree of parallelism.
pub const ARGON2_PARALLELISM: u32 = 1;

/// The context string of the format, ASCII `vault-v1`.
pub open spec fn context_bytes() -> Seq<u8> {
    seq![0x76u8, 0x61, 0x75, 0x6c, 0x74, 0x2d, 0x76, 0x31]
}

/// HKDF info of the wrap key: `vault-v1wrap-dek-key`.
pub open spec fn wrap_key_info() -> Seq<u8> {
    context_bytes() + seq![0x77u8, 0x72, 0x61, 0x70, 0x2d, 0x64, 0x65, 0x6b, 0x2d, 0x6b, 0x65, 0x79]
}

/// HKDF info of the header MAC key: `vault-v1header-mac`.
pub open spec fn header_mac_key_info() -> Seq<u8> {
    context_bytes() + seq![0x68u8, 0x65, 0x61, 0x64, 0x65, 0x72, 0x2d, 0x6d, 0x61, 0x63]
}

/// Associated data of the wrapped DEK: `vault-v1wrap-dek`.
pub open spec fn wrap_dek_aad() -> Seq<u8> {
    context_bytes() + seq![0x77u8, 0x72, 0x61, 0x70, 0x2d, 0x64, 0x65, 0x6b]
}

// ─── Names for what the outside primitives compute ──────────────────────────

/// The 32-byte tag that Argon2id (version 0x13, no secret, no associated data)
/// computes from a password, a salt and the memory, time and parallelism costs.
pub uninterp spec fn argon2id_key(
    password: Seq<u8>,
    salt: Seq<u8>,
    memory_kib: u32,
    iterations: u32,
    parallelism: u32,
) -> Seq<u8>;

/// The first 32 bytes of the HKDF-SHA256 output key material for an input key
/// and an info string, without salt.
pub uninterp spec fn hkdf_sha256_okm(ikm: Seq<u8>, info: Seq<u8>) -> Seq<u8>;

/// The HMAC-SHA256 tag of a message under a key.
pub uninterp spec fn hmac_sha256_tag(key: Seq<u8>, msg: Seq<u8>) -> Seq<u8>;

/// The ChaCha20-Poly1305 ciphertext followed by its tag, for a key, a nonce, a
/// plaintext and associated data.
pub uninterp spec fn chacha20poly1305_seal(
    key: Seq<u8>,
    nonce: Seq<u8>,
    msg: Seq<u8>,
    aad: Seq<u8>,
) -> Seq<u8>;

/// The plaintext that ChaCha20-Poly1305 recovers from a ciphertext with its tag,
/// or `None` when the tag does not authenticate it.
pub uninterp spec fn chacha20poly1305_open(
    key: Seq<u8>,
    nonce: Seq<u8>,
    ct: Seq<u8>,
    aad: Seq<u8>,
) -> Option<Seq<u8>>;

/// Whether `argon2::Params::new` accepts these costs with a 32-byte output.
pub open spec fn argon2_params_valid(memory_kib: u32, iterations: u32, parallelism: u32) -> bool {
    &&& memory_kib >= 8
    &&& memory_kib >= 8 * parallelism
    &&& iterations >= 1
    &&& 1 <= parallelism <= 0xff_ffff
}

/// Whether Argon2 accepts a password and a salt of these lengths.
pub open spec fn argon2_inputs_valid(password_len: nat, salt_len: nat) -> bool {
    &&& password_len <= 0xffff_ffff
    &&& 8 <= salt_len <= 0xffff_ffff
}

/// Whether Argon2id computes a key for inputs of these lengths and these costs.
pub open spec fn argon2_accepts(
    password_len: nat,
    salt_len: nat,
    memory_kib: u32,
    iterations: u32,
    parallelism: u32,
) -> bool {
    argon2_params_valid(memory_kib, iterations, parallelism) && argon2_inputs_valid(
        password_len,
        salt_len,
    )
}

/// Whether `mac` is the header MAC of `canonical_header` under `key`.
pub open spec fn header_mac_matches(key: Seq<u8>, canonical_header: Seq<u8>, mac: Seq<u8>) -> bool {
    mac == hmac_sha256_tag(key, canonical_header)
}

/// Whether ChaCha20-Poly1305 accepts a message of this length: fewer than
/// `u32::MAX` whole 64-byte blocks.
pub open spec fn aead_len_ok(len: nat) -> bool {
    len / 64 < 0xffff_ffff
}

// ─── Trusted calls into the outside crates ──────────────────────────────────

/// Argon2id through the `argon2` crate: `Params::new(m, t, p, Some(32))`, then
/// `Argon2::new(Argon2id, V0x13, params).hash_password_into(password, salt, out)`.
///
/// Claims, from the crate's source: a key comes back exactly when `Params::new`
/// accepts the costs (`argon2_params_valid`) and `hash_password_into` accepts the
/// lengths of password and salt (`argon2_inputs_valid`); it is then
/// `argon2id_key` of the arguments. `parallelism` stays below 2^29, where
/// `Params::new` computes `8 * parallelism` without overflow. Not said: that the
/// `m` KiB of memory that the hash allocates can be had on the machine.
#[verifier::external_body]
fn argon2id_hash(
    password: &[u8],
    salt: &[u8],
    memory_kib: u32,
    iterations: u32,
    parallelism: u32,
) -> (r: Option<[u8; 32]>)
    requires
        parallelism < 0x2000_0000,
    ensures
        r is Some <==> argon2_accepts(password@.len(), salt@.len(), memory_kib, iterations, parallelism),
        r matches Some(k) ==> k@ == argon2id_key(password@, salt@, memory_kib, iterations, parallelism),
{
    let params = argon2::Params::new(memory_kib, iterations, parallelism, Some(32)).ok()?;
    let hasher = argon2::Argon2::new(argon2::Algorithm::Argon2id, argon2::Version::V0x13, params);
    let mut out = [0u8; 32];
    hasher.hash_password_into(password, salt, &mut out).ok()?;
    Some(out)
}

/// HKDF-SHA256 through the `hkdf` crate: `Hkdf::<Sha256>::new(None, ikm)`, then
/// `expand(info, okm)` into 32 bytes.
///
/// Claims: the 32 bytes are `hkdf_sha256_okm(ikm, info)`. `expand` fails only
/// for more than 255 * 32 bytes of output, so it succeeds here.
#[verifier::external_body]
fn hkdf_sha256(ikm: &[u8; 32], info: &[u8]) -> (r: [u8; 32])
    ensures
        r@ == hkdf_sha256_okm(ikm@, info@),
{
    let hk = hkdf::Hkdf::<sha2::Sha256>::new(None, ikm);
    let mut okm = [0u8; 32];
    let _ = hk.expand(info, &mut okm);
    okm
}

/// HMAC-SHA256 through the `hmac` crate: `new_from_slice(key)`, `update(msg)`,
/// `finalize()`.
///
/// Claims: the tag is `hmac_sha256_tag(key, msg)`. HMAC takes keys of any length,
/// so `new_from_slice` does not fail.
#[verifier::external_body]
fn hmac_sha256(key: &[u8; 32], msg: &[u8]) -> (r: [u8; 32])
    ensures
        r@ == hmac_sha256_tag(key@, msg@),
{
    let mut mac = <hmac::Hmac<sha2::Sha256> as hmac::Mac>::new_from_slice(key).unwrap();
    hmac::Mac::update(&mut mac, msg);
    hmac::Mac::finalize(mac).into_bytes().into()
}

/// HMAC-SHA256 check through the `hmac` crate: `new_from_slice(key)`,
/// `update(msg)`, `verify_slice(tag)`.
///
/// Claims, from `digest`'s `verify_slice`: it accepts exactly a tag that has the
/// tag's length and equals `hmac_sha256_tag(key, msg)` (compared in constant time).
#[verifier::external_body]
fn hmac_sha256_verify(key: &[u8; 32], msg: &[u8], tag: &[u8]) -> (r: bool)
    ensures
        r <==> tag@ == hmac_sha256_tag(key@, msg@),
{
    let mut mac = <hmac::Hmac<sha2::Sha256> as hmac::Mac>::new_from_slice(key).unwrap();
    hmac::Mac::update(&mut mac, msg);
    hmac::Mac::verify_slice(mac, tag).is_ok()
}

/// ChaCha20-Poly1305 encryption through the `chacha20poly1305` crate:
/// `ChaCha20Poly1305::new(key).encrypt(nonce, Payload { msg, aad })`.
///
/// Claims, from the crate's source: it succeeds exactly when the message has
/// fewer than `u32::MAX` whole 64-byte blocks; the output is
/// `chacha20poly1305_seal` of the arguments, the ciphertext (as long as the
/// message) followed by the 16-byte tag; and, as for any AEAD, opening that
/// output with the same key, nonce and associated data gives the message back.
#[verifier::external_body]
fn aead_seal(key: &[u8; 32], nonce: &[u8; 12], msg: &[u8], aad: &[u8]) -> (r: Option<Vec<u8>>)
    ensures
        r is Some <==> aead_len_ok(msg@.len()),
        r matches Some(c) ==> c@ == chacha20poly1305_seal(key@, nonce@, msg@, aad@),
        r matches Some(c) ==> c@.len() == msg@.len() + 16,
        r matches Some(c) ==> chacha20poly1305_open(key@, nonce@, c@, aad@) == Some(msg@),
{
    let cipher: chacha20poly1305::ChaCha20Poly1305 =
        chacha20poly1305::aead::KeyInit::new(key.into());
    let payload = chacha20poly1305::aead::Payload { msg, aad };
    chacha20poly1305::aead::Aead::encrypt(&cipher, nonce.into(), payload).ok()
}

/// ChaCha20-Poly1305 decryption through the `chacha20poly1305` crate:
/// `ChaCha20Poly1305::new(key).decrypt(nonce, Payload { msg: ct, aad })`.
///
/// Claims: the result is `chacha20poly1305_open` of the arguments; a plaintext
/// is 16 bytes shorter than the ciphertext, whose last 16 bytes are the tag.
#[verifier::external_body]
fn aead_open(key: &[u8; 32], nonce: &[u8; 12], ct: &[u8], aad: &[u8]) -> (r: Option<Vec<u8>>)
    ensures
        r matches Some(p) ==> chacha20poly1305_open(key@, nonce@, ct@, aad@) == Some(p@),
        r is None ==> chacha20poly1305_open(key@, nonce@, ct@, aad@) is None,
        r matches Some(p) ==> p@.len() + 16 == ct@.len(),
{
    let cipher: chacha20poly1305::ChaCha20Poly1305 =
        chacha20poly1305::aead::KeyInit::new(key.into());
    let payload = chacha20poly1305::aead::Payload { msg: ct, aad };
    chacha20poly1305::aead::Aead::decrypt(&cipher, nonce.into(), payload).ok()
}

// ─── Keys ───────────────────────────────────────────────────────────────────

/// The master key that Argon2id derives from the password.
pub struct MasterKey([u8; 32]);

/// The key that wraps the DEK.
pub struct WrapKey([u8; 32]);

/// The key of the header MAC.
pub struct HeaderMacKey([u8; 32]);

/// The data encryption key: a random key under which the body is encrypted.
pub struct Dek([u8; 32]);

impl View for MasterKey {
    type V = Seq<u8>;

    closed spec fn view(&self) -> Seq<u8> {
        self.0@
    }
}

impl View for WrapKey {
    type V = Seq<u8>;

    closed spec fn view(&self) -> Seq<u8> {
        self.0@
    }
}

impl View for HeaderMacKey {
    type V = Seq<u8>;

    closed spec fn view(&self) -> Seq<u8> {
        self.0@
    }
}

impl View for Dek {
    type V = Seq<u8>;

    closed spec fn view(&self) -> Seq<u8> {
        self.0@
    }
}

impl MasterKey {
    /// The bytes of the key.
    pub fn as_bytes(&self) -> (r: &[u8; 32])
        ensures
            r@ == self@,
    {
        &self.0
    }
}

impl WrapKey {
    /// The bytes of the key.
    pub fn as_bytes(&self) -> (r: &[u8; 32])
        ensures
            r@ == self@,
    {
        &self.0
    }
}

impl HeaderMacKey {
    /// The bytes of the key.
    pub fn as_bytes(&self) -> (r: &[u8; 32])
        ensures
            r@ == self@,
    {
        &self.0
    }
}

impl Dek {
    /// A DEK from its raw bytes (as after unwrapping it from a file).
    pub fn from_bytes(bytes: [u8; 32]) -> (r: Self)
        ensures
            r@ == bytes@,
    {
        Dek(bytes)
    }

    /// The bytes of the key.
    pub fn as_bytes(&self) -> (r: &[u8; 32])
        ensures
            r@ == self@,
    {
        &self.0
    }
}

/// The keys that HKDF derives from the master key.
pub struct DerivedKeys {
    pub wrap_key: WrapKey,
    pub header_mac_key: HeaderMacKey,
}

/// What a cryptographic operation can fail with.
#[derive(Debug, Clone, Copy, PartialEq, Eq, Structural)]
pub enum CryptoError {
    /// Argon2id did not derive a key (parameters or input lengths it refuses).
    Argon2Error,
    /// AEAD encryption failed.
    AeadEncryptError,
    /// AEAD decryption failed: a wrong password or a damaged file.
    AeadDecryptError,
    /// The header MAC does not match: a changed header or a wrong password.
    HmacMismatch,
}

impl CryptoError {
    /// The text of the error. The two failures that a wrong password can cause
    /// read the same, so that the message tells nothing about which check failed.
    pub fn message(&self) -> (r: &'static str)
        ensures
            r@ == crypto_error_text(*self),
    {
        match self {
            CryptoError::Argon2Error => "błąd wyprowadzenia klucza Argon2id",
            CryptoError::AeadEncryptError => "błąd szyfrowania AEAD",
            CryptoError::AeadDecryptError => "ERR_BAD_PASSWORD_OR_CORRUPTED",
            CryptoError::HmacMismatch => "ERR_BAD_PASSWORD_OR_CORRUPTED",
        }
    }
}

/// The text of a cryptographic error.
pub open spec fn crypto_error_text(e: CryptoError) -> Seq<char> {
    match e {
        CryptoError::Argon2Error => "błąd wyprowadzenia klucza Argon2id"@,
        CryptoError::AeadEncryptError => "błąd szyfrowania AEAD"@,
        CryptoError::AeadDecryptError => "ERR_BAD_PASSWORD_OR_CORRUPTED"@,
        CryptoError::HmacMismatch => "ERR_BAD_PASSWORD_OR_CORRUPTED"@,
    }
}

// ─── Byte strings of the key hierarchy ──────────────────────────────────────

/// Appends `vault-v1` and then `suffix`.
fn context_with(suffix: &[u8]) -> (r: Vec<u8>)
    ensures
        r@ == context_bytes() + suffix@,
{
    let mut v: Vec<u8> = Vec::new();
    v.push(0x76u8);
    v.push(0x61u8);
    v.push(0x75u8);
    v.push(0x6cu8);
    v.push(0x74u8);
    v.push(0x2du8);
    v.push(0x76u8);
    v.push(0x31u8);
    assert(v@ =~= context_bytes());
    let mut i: usize = 0;
    while i < suffix.len()
        invariant
            i <= suffix@.len(),
            v@ == context_bytes() + suffix@.subrange(0, i as int),
        decreases suffix@.len() - i,
    {
        v.push(suffix[i]);
        assert(suffix@.subrange(0, i + 1) =~= suffix@.subrange(0, i as int).push(suffix@[i as int]));
        assert(v@ =~= context_bytes() + suffix@.subrange(0, i + 1));
        i = i + 1;
    }
    assert(suffix@.subrange(0, suffix@.len() as int) =~= suffix@);
    v
}

// ─── 1. Master key: Argon2id ────────────────────────────────────────────────

/// Derives the master key from the password and the salt with Argon2id.
///
/// Fails with `Argon2Error` exactly when Argon2 refuses the costs or the lengths
/// of password and salt; the default costs (64 MiB, 3 passes, 1 lane) and the
/// 16-byte salt of the format are accepted.
pub fn derive_master_key(
    password: &[u8],
    kdf_salt: &[u8],
    memory_kib: u32,
    iterations: u32,
    parallelism: u32,
) -> (r: Result<MasterKey, CryptoError>)
    requires
        parallelism < 0x2000_0000,
    ensures
        r is Ok <==> argon2_accepts(password@.len(), kdf_salt@.len(), memory_kib, iterations, parallelism),
        r matches Ok(k) ==> k@ == argon2id_key(password@, kdf_salt@, memory_kib, iterations, parallelism),
        r matches Err(e) ==> e == CryptoError::Argon2Error,
{
    match argon2id_hash(password, kdf_salt, memory_kib, iterations, parallelism) {
        Some(key) => Ok(MasterKey(key)),
        None => Err(CryptoError::Argon2Error),
    }
}

// ─── 2. Derived keys: HKDF-SHA256 ───────────────────────────────────────────

/// Derives the wrap key and the header MAC key from the master key with
/// HKDF-SHA256, under the infos `vault-v1wrap-dek-key` and `vault-v1header-mac`.
/// It always succeeds.
pub fn derive_keys(master_key: &MasterKey) -> (r: Result<DerivedKeys, CryptoError>)
    ensures
        r matches Ok(keys) && keys.wrap_key@ == hkdf_sha256_okm(master_key@, wrap_key_info())
            && keys.header_mac_key@ == hkdf_sha256_okm(master_key@, header_mac_key_info()),
{
    let wrap_info = context_with(&[0x77u8, 0x72, 0x61, 0x70, 0x2d, 0x64, 0x65, 0x6b, 0x2d, 0x6b, 0x65, 0x79]);
    let mac_info = context_with(&[0x68u8, 0x65, 0x61, 0x64, 0x65, 0x72, 0x2d, 0x6d, 0x61, 0x63]);
    proof {
        assert(wrap_info@ =~= wrap_key_info());
        assert(mac_info@ =~= header_mac_key_info());
    }
    let wrap_key = WrapKey(hkdf_sha256(&master_key.0, wrap_info.as_slice()));
    let header_mac_key = HeaderMacKey(hkdf_sha256(&master_key.0, mac_info.as_slice()));
    Ok(DerivedKeys { wrap_key, header_mac_key })
}

// ─── 3. Header MAC ──────────────────────────────────────────────────────────

/// The HMAC-SHA256 of the canonical header (the first 100 bytes of the file);
/// `verify_header_mac` accepts it for the same key and header.
pub fn compute_header_mac(header_mac_key: &HeaderMacKey, canonical_header: &[u8]) -> (r: [u8; 32])
    ensures
        r@ == hmac_sha256_tag(header_mac_key@, canonical_header@),
        header_mac_matches(header_mac_key@, canonical_header@, r@),
{
    hmac_sha256(&header_mac_key.0, canonical_header)
}

/// Checks the header MAC in constant time: `Ok` exactly when `expected_mac` is
/// the HMAC-SHA256 of the canonical header, else `HmacMismatch`.
pub fn verify_header_mac(
    header_mac_key: &HeaderMacKey,
    canonical_header: &[u8],
    expected_mac: &[u8],
) -> (r: Result<(), CryptoError>)
    ensures
        r is Ok <==> header_mac_matches(header_mac_key@, canonical_header@, expected_mac@),
        r matches Err(e) ==> e == CryptoError::HmacMismatch,
{
    if hmac_sha256_verify(&header_mac_key.0, canonical_header, expected_mac) {
        Ok(())
    } else {
        Err(CryptoError::HmacMismatch)
    }
}

// ─── 4. Wrapping the DEK ────────────────────────────────────────────────────

/// Wraps the DEK: ChaCha20-Poly1305 under the wrap key and `nonce_dek`, with
/// associated data `vault-v1wrap-dek`. The 48 bytes are the encrypted DEK and its
/// tag; unwrapping them with the same key and nonce gives the DEK back.
pub fn wrap_dek(wrap_key: &WrapKey, nonce_dek: &[u8; 12], dek: &Dek) -> (r: Result<[u8; 48], CryptoError>)
    ensures
        r matches Ok(w) && w@ == chacha20poly1305_seal(wrap_key@, nonce_dek@, dek@, wrap_dek_aad()),
        r matches Ok(w) ==> chacha20poly1305_open(wrap_key@, nonce_dek@, w@, wrap_dek_aad()) == Some(dek@),
{
    let aad = context_with(&[0x77u8, 0x72, 0x61, 0x70, 0x2d, 0x64, 0x65, 0x6b]);
    proof {
        assert(aad@ =~= wrap_dek_aad());
    }
    let sealed = aead_seal(&wrap_key.0, nonce_dek, dek.0.as_slice(), aad.as_slice());
    match sealed {
        Some(ct) => {
            let mut out = [0u8; 48];
            let mut i: usize = 0;
            while i < 48
                invariant
                    ct@.len() == 48,
                    i <= 48,
                    forall|j: int| 0 <= j < i ==> out@[j] == ct@[j],
                decreases 48 - i,
            {
                out[i] = ct[i];
                i = i + 1;
            }
            assert(out@ =~= ct@);
            Ok(out)
        },
        None => {
            proof {
                assert(aead_len_ok(dek.0@.len()));
            }
            Err(CryptoError::AeadEncryptError)
        },
    }
}

/// Unwraps the DEK: `Ok` with the DEK exactly when the tag authenticates the
/// wrapped bytes under the wrap key and nonce, else `AeadDecryptError` (a wrong
/// password or a damaged file).
pub fn unwrap_dek(
    wrap_key: &WrapKey,
    nonce_dek: &[u8; 12],
    wrapped_dek: &[u8; 48],
) -> (r: Result<Dek, CryptoError>)
    ensures
        match chacha20poly1305_open(wrap_key@, nonce_dek@, wrapped_dek@, wrap_dek_aad()) {
            Some(p) => r matches Ok(d) && d@ == p,
            None => r == Err::<Dek, CryptoError>(CryptoError::AeadDecryptError),
        },
{
    let aad = context_with(&[0x77u8, 0x72, 0x61, 0x70, 0x2d, 0x64, 0x65, 0x6b]);
    proof {
        assert(aad@ =~= wrap_dek_aad());
    }
    match aead_open(&wrap_key.0, nonce_dek, wrapped_dek.as_slice(), aad.as_slice()) {
        Some(plain) => {
            let mut key = [0u8; 32];
            let mut i: usize = 0;
            while i < 32
                invariant
                    plain@.len() == 32,
                    i <= 32,
                    forall|j: int| 0 <= j < i ==> key@[j] == plain@[j],
                decreases 32 - i,
            {
                key[i] = plain[i];
                i = i + 1;
            }
            assert(key@ =~= plain@);
            Ok(Dek::from_bytes(key))
        },
        None => Err(CryptoError::AeadDecryptError),
    }
}

// ─── 5. The body ────────────────────────────────────────────────────────────

/// Encrypts the CBOR body under the DEK and `nonce_body`; the associated data is
/// the canonical header and its MAC (the first 132 bytes of the file). Fails with
/// `AeadEncryptError` only for a body of `u32::MAX` or more 64-byte blocks.
/// Decrypting the result with the same DEK, nonce and associated data gives the
/// body back.
pub fn encrypt_body(
    dek: &Dek,
    nonce_body: &[u8; 12],
    body_cbor: &[u8],
    aad_body: &[u8],
) -> (r: Result<Vec<u8>, CryptoError>)
    ensures
        r is Ok <==> aead_len_ok(body_cbor@.len()),
        r matches Ok(c) ==> c@ == chacha20poly1305_seal(dek@, nonce_body@, body_cbor@, aad_body@),
        r matches Ok(c) ==> c@.len() == body_cbor@.len() + 16,
        r matches Ok(c) ==> chacha20poly1305_open(dek@, nonce_body@, c@, aad_body@) == Some(body_cbor@),
        r matches Err(e) ==> e == CryptoError::AeadEncryptError,
{
    match aead_seal(&dek.0, nonce_body, body_cbor, aad_body) {
        Some(ct) => Ok(ct),
        None => Err(CryptoError::AeadEncryptError),
    }
}

/// Decrypts the body: `Ok` with the plaintext exactly when the tag authenticates
/// the ciphertext and the associated data, else `AeadDecryptError`.
pub fn decrypt_body(
    dek: &Dek,
    nonce_body: &[u8; 12],
    ct_body: &[u8],
    aad_body: &[u8],
) -> (r: Result<Vec<u8>, CryptoError>)
    ensures
        match chacha20poly1305_open(dek@, nonce_body@, ct_body@, aad_body@) {
            Some(p) => r matches Ok(b) && b@ == p,
            None => r == Err::<Vec<u8>, CryptoError>(CryptoError::AeadDecryptError),
        },
{
    match aead_open(&dek.0, nonce_body, ct_body, aad_body) {
        Some(plain) => Ok(plain),
        None => Err(CryptoError::AeadDecryptError),
    }
}

} // verus!
