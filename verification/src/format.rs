//! The vault file format v1: the binary header (parsing and serialization) and
//! the records of the body.
//!
//! Header layout (all multi-byte numbers big-endian):
//!
//! | offset | size | field            |
//! |--------|------|------------------|
//! | 0      | 4    | magic `VLT1`     |
//! | 4      | 2    | version          |
//! | 6      | 2    | flags            |
//! | 8      | 1    | kdf_id           |
//! | 9      | 4    | kdf_memory_kib   |
//! | 13     | 4    | kdf_iterations   |
//! | 17     | 1    | kdf_parallelism  |
//! | 18     | 1    | kdf_salt_len     |
//! | 19     | 16   | kdf_salt         |
//! | 35     | 1    | aead_id          |
//! | 36     | 12   | nonce_dek        |
//! | 48     | 4    | wrapped_dek_len  |
//! | 52     | 48   | wrapped_dek      |
//! | 100    | 32   | header_mac       |
//! | 132    | 12   | nonce_body       |
//! | 144    | N    | ct_body          |
use vstd::prelude::*;

pub mod body;

pub use body::{
    format_error_text, parse_body, serialize_body, BodyView, FieldsView, FormatErrorView, RecordFields, RecordView,
    VaultBody, VaultRecord,
};

verus! {

/// The first four bytes of every vault file: ASCII `VLT1`.
pub const MAGIC: [u8; 4] = [0x56u8, 0x4cu8, 0x54u8, 0x31u8];

/// Format version written in the header.
pub const VERSION: u16 = 0x0001;

/// KDF identifier: Argon2id.
pub const KDF_ID_ARGON2ID: u8 = 1;

/// AEAD identifier: ChaCha20-Poly1305.
pub const AEAD_ID_CHACHA20_POLY1305: u8 = 1;

/// Length of the KDF salt in bytes.
pub const KDF_SALT_LEN: usize = 16;

/// Length of the nonce of the wrapped DEK.
pub const NONCE_DEK_LEN: usize = 12;

/// Length of the wrapped DEK: 32 bytes of key and a 16-byte tag.
pub const WRAPPED_DEK_LEN: usize = 48;

/// Length of the HMAC-SHA256 of the header.
pub const HEADER_MAC_LEN: usize = 32;

/// Length of the nonce of the body.
pub const NONCE_BODY_LEN: usize = 12;

/// Length of the canonical header (bytes 0..100, without the header MAC).
pub const CANONICAL_HEADER_LEN: usize = 100;

/// Length of the header with its MAC.
pub const FULL_HEADER_LEN: usize = 132;

/// Shortest accepted file: header with MAC, body nonce and one byte of ciphertext.
pub const MIN_FILE_LEN: usize = FULL_HEADER_LEN + NONCE_BODY_LEN + 1;

/// Errors of parsing and serializing the vault format.
#[derive(Debug)]
pub enum FormatError {
    /// The file is too short to hold a header.
    FileTooShort,
    /// The first four bytes are not `VLT1`.
    InvalidMagic,
    /// A format version other than 1.
    UnsupportedVersion(u16),
    /// The flags field is not zero.
    InvalidFlags,
    /// A KDF identifier other than Argon2id.
    UnsupportedKdfId(u8),
    /// An AEAD identifier other than ChaCha20-Poly1305.
    UnsupportedAeadId(u8),
    /// The wrapped DEK length field is not 48.
    InvalidWrappedDekLen(u32),
    /// The KDF salt length field is not 16.
    InvalidKdfSaltLen(u8),
    /// The body is not CBOR.
    CborError(String),
    /// The body could not be encoded as CBOR.
    CborSerializeError(String),
    /// A required field of the body is missing.
    MissingField(String),
    /// A field of the body has the wrong type.
    InvalidFieldType(String),
    /// A record type that format v1 does not know.
    UnknownRecordType(String),
    /// A key that a v1 record does not have.
    UnknownField(String),
}

/// Argon2id parameters stored in the header.
#[derive(Debug, Clone, Copy, PartialEq, Eq, Structural)]
pub struct KdfParams {
    /// Memory in KiB.
    pub memory_kib: u32,
    /// Number of passes.
    pub iterations: u32,
    /// Degree of parallelism.
    pub parallelism: u8,
}

impl KdfParams {
    /// The default parameters of format v1: 64 MiB, 3 passes, 1 lane.
    pub fn default_v1() -> (p: Self)
        ensures
            p.memory_kib == 65536,
            p.iterations == 3,
            p.parallelism == 1,
    {
        KdfParams { memory_kib: 65536, iterations: 3, parallelism: 1 }
    }
}

/// A parsed vault header.
#[derive(Debug, Clone, Copy)]
pub struct VaultHeader {
    pub version: u16,
    pub flags: u16,
    pub kdf_id: u8,
    pub kdf_params: KdfParams,
    pub kdf_salt: [u8; KDF_SALT_LEN],
    pub aead_id: u8,
    pub nonce_dek: [u8; NONCE_DEK_LEN],
    pub wrapped_dek: [u8; WRAPPED_DEK_LEN],
    pub header_mac: [u8; HEADER_MAC_LEN],
    pub nonce_body: [u8; NONCE_BODY_LEN],
}

/// The mathematical content of a header.
pub struct HeaderView {
    pub version: u16,
    pub flags: u16,
    pub kdf_id: u8,
    pub memory_kib: u32,
    pub iterations: u32,
    pub parallelism: u8,
    pub kdf_salt: Seq<u8>,
    pub aead_id: u8,
    pub nonce_dek: Seq<u8>,
    pub wrapped_dek: Seq<u8>,
    pub header_mac: Seq<u8>,
    pub nonce_body: Seq<u8>,
}

impl View for VaultHeader {
    type V = HeaderView;

    open spec fn view(&self) -> HeaderView {
        HeaderView {
            version: self.version,
            flags: self.flags,
            kdf_id: self.kdf_id,
            memory_kib: self.kdf_params.memory_kib,
            iterations: self.kdf_params.iterations,
            parallelism: self.kdf_params.parallelism,
            kdf_salt: self.kdf_salt@,
            aead_id: self.aead_id,
            nonce_dek: self.nonce_dek@,
            wrapped_dek: self.wrapped_dek@,
            header_mac: self.header_mac@,
            nonce_body: self.nonce_body@,
        }
    }
}

/// The magic bytes `VLT1`.
pub open spec fn magic_seq() -> Seq<u8> {
    seq![0x56u8, 0x4cu8, 0x54u8, 0x31u8]
}

/// Big-endian bytes of a 16-bit number.
pub open spec fn be16(x: u16) -> Seq<u8> {
    seq![(x / 256) as u8, (x % 256) as u8]
}

/// Big-endian bytes of a 32-bit number.
pub open spec fn be32(x: u32) -> Seq<u8> {
    seq![
        (x / 0x1000000) as u8,
        ((x / 0x10000) % 256) as u8,
        ((x / 256) % 256) as u8,
        (x % 256) as u8,
    ]
}

/// The big-endian 16-bit number at `d[i..i+2]`.
pub open spec fn be16_at(d: Seq<u8>, i: int) -> u16 {
    (d[i] * 256 + d[i + 1]) as u16
}

/// The big-endian 32-bit number at `d[i..i+4]`.
pub open spec fn be32_at(d: Seq<u8>, i: int) -> u32 {
    (d[i] * 0x1000000 + d[i + 1] * 0x10000 + d[i + 2] * 256 + d[i + 3]) as u32
}

/// The canonical header bytes 0..100 of a header.
pub open spec fn canonical_header_seq(h: HeaderView) -> Seq<u8> {
    magic_seq() + be16(h.version) + be16(h.flags) + seq![h.kdf_id] + be32(h.memory_kib) + be32(
        h.iterations,
    ) + seq![h.parallelism, 16u8] + h.kdf_salt + seq![h.aead_id] + h.nonce_dek + be32(48)
        + h.wrapped_dek
}

/// The additional authenticated data of the body: canonical header and header MAC.
pub open spec fn body_aad_seq(h: HeaderView) -> Seq<u8> {
    canonical_header_seq(h) + h.header_mac
}

/// The first 144 bytes of a file: canonical header, header MAC and body nonce.
pub open spec fn full_header_seq(h: HeaderView) -> Seq<u8> {
    canonical_header_seq(h) + h.header_mac + h.nonce_body
}

/// The first structural error of a file, in the order in which the fields are checked.
pub open spec fn header_error(d: Seq<u8>) -> Option<FormatError> {
    if d.len() < MIN_FILE_LEN {
        Some(FormatError::FileTooShort)
    } else if d.subrange(0, 4) != magic_seq() {
        Some(FormatError::InvalidMagic)
    } else if be16_at(d, 4) != VERSION {
        Some(FormatError::UnsupportedVersion(be16_at(d, 4)))
    } else if be16_at(d, 6) != 0 {
        Some(FormatError::InvalidFlags)
    } else if d[8] != KDF_ID_ARGON2ID {
        Some(FormatError::UnsupportedKdfId(d[8]))
    } else if d[18] != 16 {
        Some(FormatError::InvalidKdfSaltLen(d[18]))
    } else if d[35] != AEAD_ID_CHACHA20_POLY1305 {
        Some(FormatError::UnsupportedAeadId(d[35]))
    } else if be32_at(d, 48) != 48 {
        Some(FormatError::InvalidWrappedDekLen(be32_at(d, 48)))
    } else {
        None
    }
}

/// The header fields that a file holds at their offsets.
pub open spec fn header_fields(d: Seq<u8>) -> HeaderView {
    HeaderView {
        version: be16_at(d, 4),
        flags: be16_at(d, 6),
        kdf_id: d[8],
        memory_kib: be32_at(d, 9),
        iterations: be32_at(d, 13),
        parallelism: d[17],
        kdf_salt: d.subrange(19, 35),
        aead_id: d[35],
        nonce_dek: d.subrange(36, 48),
        wrapped_dek: d.subrange(52, 100),
        header_mac: d.subrange(100, 132),
        nonce_body: d.subrange(132, 144),
    }
}

/// A header that format v1 accepts: version 1, no flags, Argon2id and ChaCha20-Poly1305,
/// fields of their fixed lengths.
pub open spec fn header_valid(h: HeaderView) -> bool {
    &&& h.version == VERSION
    &&& h.flags == 0
    &&& h.kdf_id == KDF_ID_ARGON2ID
    &&& h.aead_id == AEAD_ID_CHACHA20_POLY1305
    &&& h.kdf_salt.len() == KDF_SALT_LEN
    &&& h.nonce_dek.len() == NONCE_DEK_LEN
    &&& h.wrapped_dek.len() == WRAPPED_DEK_LEN
    &&& h.header_mac.len() == HEADER_MAC_LEN
    &&& h.nonce_body.len() == NONCE_BODY_LEN
}

pub(crate) fn push_all(buf: &mut Vec<u8>, bytes: &[u8])
    ensures
        final(buf)@ == old(buf)@ + bytes@,
{
    let mut i: usize = 0;
    while i < bytes.len()
        invariant
            i <= bytes@.len(),
            buf@ == old(buf)@ + bytes@.subrange(0, i as int),
        decreases bytes@.len() - i,
    {
        buf.push(bytes[i]);
        proof {
            assert(bytes@.subrange(0, i + 1) =~= bytes@.subrange(0, i as int).push(bytes@[i as int]));
        }
        i = i + 1;
    }
    assert(bytes@.subrange(0, bytes@.len() as int) =~= bytes@);
}

fn push_be16(buf: &mut Vec<u8>, x: u16)
    ensures
        final(buf)@ == old(buf)@ + be16(x),
{
    buf.push((x / 256) as u8);
    buf.push((x % 256) as u8);
    assert(final(buf)@ =~= old(buf)@ + be16(x));
}

fn push_be32(buf: &mut Vec<u8>, x: u32)
    ensures
        final(buf)@ == old(buf)@ + be32(x),
{
    buf.push((x / 0x1000000) as u8);
    buf.push(((x / 0x10000) % 256) as u8);
    buf.push(((x / 256) % 256) as u8);
    buf.push((x % 256) as u8);
    assert(final(buf)@ =~= old(buf)@ + be32(x));
}

pub(crate) fn read_array<const N: usize>(data: &[u8], at: usize) -> (r: [u8; N])
    requires
        at + N <= data@.len(),
    ensures
        r@ == data@.subrange(at as int, at + N),
{
    let mut r = [0u8; N];
    let n = data.len();
    let mut i: usize = 0;
    while i < N
        invariant
            n == data@.len(),
            at + N <= n,
            i <= N,
            r@.len() == N,
            forall|j: int| 0 <= j < i ==> r@[j] == data@[at + j],
        decreases N - i,
    {
        r[i] = data[at + i];
        i = i + 1;
    }
    assert(r@ =~= data@.subrange(at as int, at + N));
    r
}

fn be16_from(data: &[u8], i: usize) -> (x: u16)
    requires
        i + 2 <= data@.len(),
    ensures
        x == be16_at(data@, i as int),
{
    (data[i] as u16) * 256 + (data[i + 1] as u16)
}

fn be32_from(data: &[u8], i: usize) -> (x: u32)
    requires
        i + 4 <= data@.len(),
    ensures
        x == be32_at(data@, i as int),
{
    (data[i] as u32) * 0x1000000 + (data[i + 1] as u32) * 0x10000 + (data[i + 2] as u32) * 256
        + (data[i + 3] as u32)
}

impl VaultHeader {
    /// The canonical header, bytes 0..100: the input of the header MAC.
    pub fn serialize_canonical(&self) -> (r: Vec<u8>)
        ensures
            r@ == canonical_header_seq(self@),
            r@.len() == CANONICAL_HEADER_LEN,
    {
        let mut buf: Vec<u8> = Vec::with_capacity(CANONICAL_HEADER_LEN);
        push_all(&mut buf, &MAGIC);
        assert(MAGIC@ =~= magic_seq());
        push_be16(&mut buf, self.version);
        push_be16(&mut buf, self.flags);
        buf.push(self.kdf_id);
        push_be32(&mut buf, self.kdf_params.memory_kib);
        push_be32(&mut buf, self.kdf_params.iterations);
        buf.push(self.kdf_params.parallelism);
        buf.push(16u8);
        push_all(&mut buf, &self.kdf_salt);
        buf.push(self.aead_id);
        push_all(&mut buf, &self.nonce_dek);
        push_be32(&mut buf, 48u32);
        push_all(&mut buf, &self.wrapped_dek);
        assert(buf@ =~= canonical_header_seq(self@));
        buf
    }

    /// The header as it opens the file: canonical header, header MAC and body
    /// nonce (144 bytes).
    pub fn serialize_full(&self) -> (r: Vec<u8>)
        ensures
            r@ == full_header_seq(self@),
            r@.len() == FULL_HEADER_LEN + NONCE_BODY_LEN,
    {
        let mut buf = self.serialize_canonical();
        push_all(&mut buf, &self.header_mac);
        push_all(&mut buf, &self.nonce_body);
        buf
    }

    /// The additional authenticated data of the body: canonical header and header
    /// MAC (132 bytes).
    pub fn aad_for_body(&self) -> (r: Vec<u8>)
        ensures
            r@ == body_aad_seq(self@),
            r@.len() == FULL_HEADER_LEN,
    {
        let mut aad = self.serialize_canonical();
        push_all(&mut aad, &self.header_mac);
        aad
    }
}

/// Parses the header of a vault file. Checks the structure only: neither the
/// header MAC nor the body is looked at.
pub fn parse_header(data: &[u8]) -> (r: Result<VaultHeader, FormatError>)
    ensures
        r is Ok <==> header_error(data@) is None,
        r matches Ok(h) ==> h@ == header_fields(data@),
        r matches Err(e) ==> header_error(data@) == Some(e),
{
    if data.len() < MIN_FILE_LEN {
        return Err(FormatError::FileTooShort);
    }
    if !(data[0] == MAGIC[0] && data[1] == MAGIC[1] && data[2] == MAGIC[2] && data[3]
        == MAGIC[3]) {
        proof {
            if data@.subrange(0, 4) == magic_seq() {
                assert(data@.subrange(0, 4)[0] == data@[0]);
                assert(data@.subrange(0, 4)[1] == data@[1]);
                assert(data@.subrange(0, 4)[2] == data@[2]);
                assert(data@.subrange(0, 4)[3] == data@[3]);
            }
        }
        return Err(FormatError::InvalidMagic);
    }
    assert(data@.subrange(0, 4) =~= magic_seq());
    let version = be16_from(data, 4);
    if version != VERSION {
        return Err(FormatError::UnsupportedVersion(version));
    }
    let flags = be16_from(data, 6);
    if flags != 0 {
        return Err(FormatError::InvalidFlags);
    }
    let kdf_id = data[8];
    if kdf_id != KDF_ID_ARGON2ID {
        return Err(FormatError::UnsupportedKdfId(kdf_id));
    }
    let memory_kib = be32_from(data, 9);
    let iterations = be32_from(data, 13);
    let parallelism = data[17];
    let kdf_salt_len = data[18];
    if kdf_salt_len != 16u8 {
        return Err(FormatError::InvalidKdfSaltLen(kdf_salt_len));
    }
    let kdf_salt: [u8; KDF_SALT_LEN] = read_array(data, 19);
    let aead_id = data[35];
    if aead_id != AEAD_ID_CHACHA20_POLY1305 {
        return Err(FormatError::UnsupportedAeadId(aead_id));
    }
    let nonce_dek: [u8; NONCE_DEK_LEN] = read_array(data, 36);
    let wrapped_dek_len = be32_from(data, 48);
    if wrapped_dek_len != 48u32 {
        return Err(FormatError::InvalidWrappedDekLen(wrapped_dek_len));
    }
    let wrapped_dek: [u8; WRAPPED_DEK_LEN] = read_array(data, 52);
    let header_mac: [u8; HEADER_MAC_LEN] = read_array(data, 100);
    let nonce_body: [u8; NONCE_BODY_LEN] = read_array(data, 132);
    let h = VaultHeader {
        version,
        flags,
        kdf_id,
        kdf_params: KdfParams { memory_kib, iterations, parallelism },
        kdf_salt,
        aead_id,
        nonce_dek,
        wrapped_dek,
        header_mac,
        nonce_body,
    };
    assert(h@ == header_fields(data@));
    Ok(h)
}

proof fn lemma_be16_roundtrip(d: Seq<u8>, i: int, x: u16)
    requires
        0 <= i,
        i + 2 <= d.len(),
        d.subrange(i, i + 2) == be16(x),
    ensures
        be16_at(d, i) == x,
{
    assert(d[i] == d.subrange(i, i + 2)[0]);
    assert(d[i + 1] == d.subrange(i, i + 2)[1]);
    assert((x / 256) * 256 + x % 256 == x);
}

proof fn lemma_be32_roundtrip(d: Seq<u8>, i: int, x: u32)
    requires
        0 <= i,
        i + 4 <= d.len(),
        d.subrange(i, i + 4) == be32(x),
    ensures
        be32_at(d, i) == x,
{
    assert(d[i] == d.subrange(i, i + 4)[0]);
    assert(d[i + 1] == d.subrange(i, i + 4)[1]);
    assert(d[i + 2] == d.subrange(i, i + 4)[2]);
    assert(d[i + 3] == d.subrange(i, i + 4)[3]);
    assert((x / 0x1000000) * 0x1000000 + ((x / 0x10000) % 256) * 0x10000 + ((x / 256) % 256) * 256
        + x % 256 == x) by (nonlinear_arith);
}

proof fn lemma_be16_of_at(d: Seq<u8>, i: int)
    requires
        0 <= i,
        i + 2 <= d.len(),
    ensures
        be16(be16_at(d, i)) == d.subrange(i, i + 2),
{
    let x = be16_at(d, i);
    let b0 = d[i];
    let b1 = d[i + 1];
    assert(x == b0 * 256 + b1);
    assert(x / 256 == b0 && x % 256 == b1) by (nonlinear_arith)
        requires
            x == b0 * 256 + b1,
            0 <= b1 < 256,
    ;
    assert(be16(x) =~= d.subrange(i, i + 2));
}

proof fn lemma_be32_of_at(d: Seq<u8>, i: int)
    requires
        0 <= i,
        i + 4 <= d.len(),
    ensures
        be32(be32_at(d, i)) == d.subrange(i, i + 4),
{
    let x = be32_at(d, i);
    let b0 = d[i];
    let b1 = d[i + 1];
    let b2 = d[i + 2];
    let b3 = d[i + 3];
    assert(x == b0 * 0x1000000 + b1 * 0x10000 + b2 * 256 + b3);
    assert(x / 0x1000000 == b0 && (x / 0x10000) % 256 == b1 && (x / 256) % 256 == b2 && x % 256
        == b3) by (nonlinear_arith)
        requires
            x == b0 * 0x1000000 + b1 * 0x10000 + b2 * 256 + b3,
            0 <= b0 < 256,
            0 <= b1 < 256,
            0 <= b2 < 256,
            0 <= b3 < 256,
    ;
    assert(be32(x) =~= d.subrange(i, i + 4));
}

/// Law: a valid header, serialized and followed by at least one byte of body, parses
/// back to itself.
pub proof fn lemma_header_roundtrip(h: HeaderView, rest: Seq<u8>)
    requires
        header_valid(h),
        rest.len() >= 1,
    ensures
        header_error(full_header_seq(h) + rest) is None,
        header_fields(full_header_seq(h) + rest) == h,
{
    let d = full_header_seq(h) + rest;
    assert(d.subrange(0, 4) =~= magic_seq());
    assert(d.subrange(4, 6) =~= be16(h.version));
    assert(d.subrange(6, 8) =~= be16(h.flags));
    assert(d.subrange(9, 13) =~= be32(h.memory_kib));
    assert(d.subrange(13, 17) =~= be32(h.iterations));
    assert(d.subrange(48, 52) =~= be32(48));
    lemma_be16_roundtrip(d, 4, h.version);
    lemma_be16_roundtrip(d, 6, h.flags);
    lemma_be32_roundtrip(d, 9, h.memory_kib);
    lemma_be32_roundtrip(d, 13, h.iterations);
    lemma_be32_roundtrip(d, 48, 48);
    assert(d[8] == h.kdf_id);
    assert(d[17] == h.parallelism);
    assert(d[18] == 16);
    assert(d[35] == h.aead_id);
    assert(d.subrange(19, 35) =~= h.kdf_salt);
    assert(d.subrange(36, 48) =~= h.nonce_dek);
    assert(d.subrange(52, 100) =~= h.wrapped_dek);
    assert(d.subrange(100, 132) =~= h.header_mac);
    assert(d.subrange(132, 144) =~= h.nonce_body);
}

/// Law: a file whose header parses starts with the serialization of the parsed header,
/// and the parsed header is valid.
pub proof fn lemma_parsed_header_reserializes(d: Seq<u8>)
    requires
        header_error(d) is None,
    ensures
        header_valid(header_fields(d)),
        full_header_seq(header_fields(d)) == d.subrange(0, 144),
{
    let h = header_fields(d);
    lemma_be16_of_at(d, 4);
    lemma_be16_of_at(d, 6);
    lemma_be32_of_at(d, 9);
    lemma_be32_of_at(d, 13);
    lemma_be32_of_at(d, 48);
    let s = full_header_seq(h);
    assert(s =~= d.subrange(0, 4) + d.subrange(4, 6) + d.subrange(6, 8) + seq![d[8]] + d.subrange(
        9,
        13,
    ) + d.subrange(13, 17) + seq![d[17], d[18]] + d.subrange(19, 35) + seq![d[35]]
        + d.subrange(36, 48) + d.subrange(48, 52) + d.subrange(52, 100) + d.subrange(100, 132)
        + d.subrange(132, 144));
    assert(s =~= d.subrange(0, 144));
}

} // verus!
