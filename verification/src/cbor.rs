//! CBOR data items as the body of a vault holds them, and their encoding and
//! decoding by `ciborium`.
use vstd::prelude::*;

verus! {

#[verifier::external_type_specification]
#[verifier::external_body]
pub struct ExCiboriumValue(ciborium::Value);

/// A CBOR data item, variant for variant as `ciborium::Value` holds it. A
/// floating-point number is kept without its value: the body format has none,
/// and the parser only needs to tell that an item is not of the expected kind.
#[derive(Debug)]
pub enum CborValue {
    Integer(i128),
    Bytes(Vec<u8>),
    Float,
    Text(String),
    Bool(bool),
    Null,
    Tag(u64, Box<CborValue>),
    Array(Vec<CborValue>),
    Entries(Vec<(CborValue, CborValue)>),
}

/// The mathematical content of a CBOR data item.
pub enum CborModel {
    Integer(int),
    Bytes(Seq<u8>),
    Float,
    Text(Seq<char>),
    Bool(bool),
    Null,
    Tag(u64, Box<CborModel>),
    Array(Seq<CborModel>),
    Entries(Seq<(CborModel, CborModel)>),
}

/// The content of a data item.
pub open spec fn model_of(v: CborValue) -> CborModel
    decreases v,
{
    match v {
        CborValue::Integer(i) => CborModel::Integer(i as int),
        CborValue::Bytes(b) => CborModel::Bytes(b@),
        CborValue::Float => CborModel::Float,
        CborValue::Text(s) => CborModel::Text(s@),
        CborValue::Bool(b) => CborModel::Bool(b),
        CborValue::Null => CborModel::Null,
        CborValue::Tag(t, x) => CborModel::Tag(t, Box::new(model_of(*x))),
        CborValue::Array(xs) => CborModel::Array(
            Seq::new(
                xs@.len(),
                |i: int|
                    if 0 <= i < xs@.len() {
                        model_of(xs@[i])
                    } else {
                        CborModel::Null
                    },
            ),
        ),
        CborValue::Entries(xs) => CborModel::Entries(
            Seq::new(
                xs@.len(),
                |i: int|
                    if 0 <= i < xs@.len() {
                        (model_of(xs@[i].0), model_of(xs@[i].1))
                    } else {
                        (CborModel::Null, CborModel::Null)
                    },
            ),
        ),
    }
}

impl View for CborValue {
    type V = CborModel;

    open spec fn view(&self) -> CborModel {
        model_of(*self)
    }
}

/// An item that the encoder writes and the decoder reads back unchanged: no
/// floating-point number, no tag, integers in the 64-bit range, nested at most
/// `depth` levels.
pub open spec fn plain_model(m: CborModel, depth: nat) -> bool
    decreases depth,
{
    match m {
        CborModel::Integer(i) => -0x8000_0000_0000_0000 <= i < 0x1_0000_0000_0000_0000,
        CborModel::Bytes(_) => true,
        CborModel::Float => false,
        CborModel::Text(_) => true,
        CborModel::Bool(_) => true,
        CborModel::Null => true,
        CborModel::Tag(_, _) => false,
        CborModel::Array(xs) => depth > 0 && forall|i: int|
            0 <= i < xs.len() ==> plain_model(#[trigger] xs[i], (depth - 1) as nat),
        CborModel::Entries(xs) => depth > 0 && forall|i: int|
            0 <= i < xs.len() ==> plain_model(#[trigger] xs[i].0, (depth - 1) as nat)
                && plain_model(xs[i].1, (depth - 1) as nat),
    }
}

/// The bytes that `ciborium::ser::into_writer` writes for the item that `m` describes.
pub uninterp spec fn cbor_encoding(m: CborModel) -> Seq<u8>;

/// The item that `ciborium::de::from_reader` reads from `data`, if it reads one.
pub uninterp spec fn cbor_decoding(data: Seq<u8>) -> Option<CborModel>;

/// The `ciborium::Value` that `v` describes, variant for variant. Only the
/// encoder below calls it, on items without floating-point numbers.
#[verifier::external_body]
fn to_ciborium(v: &CborValue) -> ciborium::Value {
    match v {
        CborValue::Integer(i) => ciborium::Value::from(*i),
        CborValue::Bytes(b) => ciborium::Value::Bytes(b.clone()),
        CborValue::Text(s) => ciborium::Value::Text(s.clone()),
        CborValue::Bool(b) => ciborium::Value::Bool(*b),
        CborValue::Tag(t, x) => ciborium::Value::Tag(*t, Box::new(to_ciborium(x))),
        CborValue::Array(xs) => ciborium::Value::Array(xs.iter().map(to_ciborium).collect()),
        CborValue::Entries(xs) => ciborium::Value::Map(
            xs.iter().map(|(k, x)| (to_ciborium(k), to_ciborium(x))).collect(),
        ),
        CborValue::Float | CborValue::Null => ciborium::Value::Null,
    }
}

/// The `CborValue` that describes a decoded `ciborium::Value`, variant for
/// variant. Only the decoder below calls it.
#[verifier::external_body]
fn from_ciborium(v: ciborium::Value) -> CborValue {
    match v {
        ciborium::Value::Integer(i) => CborValue::Integer(i.into()),
        ciborium::Value::Bytes(b) => CborValue::Bytes(b),
        ciborium::Value::Float(_) => CborValue::Float,
        ciborium::Value::Text(s) => CborValue::Text(s),
        ciborium::Value::Bool(b) => CborValue::Bool(b),
        ciborium::Value::Tag(t, x) => CborValue::Tag(t, Box::new(from_ciborium(*x))),
        ciborium::Value::Array(xs) => CborValue::Array(xs.into_iter().map(from_ciborium).collect()),
        ciborium::Value::Map(xs) => CborValue::Entries(
            xs.into_iter().map(|(k, x)| (from_ciborium(k), from_ciborium(x))).collect(),
        ),
        _ => CborValue::Null,
    }
}

/// Encodes an item with `ciborium::ser::into_writer` into a `Vec<u8>`.
///
/// Claims: it succeeds (a `Vec<u8>` writer does not fail, and `Value`'s
/// serializer has no error path of its own); the bytes are `cbor_encoding` of the
/// item; for a plain item (see `plain_model`) `ciborium::de::from_reader` reads the
/// same item back from them, since `ciborium`'s `Value` serializer writes each
/// variant as the CBOR major type that its deserializer maps back to that variant.
#[verifier::external_body]
pub(crate) fn encode_cbor(v: &CborValue) -> (r: Result<Vec<u8>, String>)
    requires
        plain_model(v@, 128),
    ensures
        r is Ok,
        r matches Ok(b) ==> b@ == cbor_encoding(v@),
        r matches Ok(b) ==> cbor_decoding(b@) == Some(v@),
{
    let mut buf: Vec<u8> = Vec::new();
    match ciborium::ser::into_writer(&to_ciborium(v), &mut buf) {
        Ok(()) => Ok(buf),
        Err(e) => Err(e.to_string()),
    }
}

/// Decodes one item with `ciborium::de::from_reader`.
///
/// Claims: it succeeds exactly when `cbor_decoding` of the bytes is an item, and
/// then returns that item. The error message is not described.
#[verifier::external_body]
pub(crate) fn decode_cbor(data: &[u8]) -> (r: Result<CborValue, String>)
    ensures
        r is Ok <==> cbor_decoding(data@) is Some,
        r matches Ok(v) ==> cbor_decoding(data@) == Some(v@),
{
    match ciborium::de::from_reader::<ciborium::Value, _>(data) {
        Ok(v) => Ok(from_ciborium(v)),
        Err(e) => Err(e.to_string()),
    }
}

/// The contents of the entries of a map.
pub open spec fn entries_model(xs: Seq<(CborValue, CborValue)>) -> Seq<(CborModel, CborModel)> {
    Seq::new(xs.len(), |i: int| (xs[i].0@, xs[i].1@))
}

/// The contents of the items of an array.
pub open spec fn items_model(xs: Seq<CborValue>) -> Seq<CborModel> {
    Seq::new(xs.len(), |i: int| xs[i]@)
}

/// The content of a map is the content of its entries.
pub proof fn lemma_entries_model(xs: Vec<(CborValue, CborValue)>)
    ensures
        CborValue::Entries(xs)@ == CborModel::Entries(entries_model(xs@)),
{
    assert(CborValue::Entries(xs)@->Entries_0 =~= entries_model(xs@));
}

/// The content of an array is the content of its items.
pub proof fn lemma_items_model(xs: Vec<CborValue>)
    ensures
        CborValue::Array(xs)@ == CborModel::Array(items_model(xs@)),
{
    assert(CborValue::Array(xs)@->Array_0 =~= items_model(xs@));
}

/// A text item.
pub fn text_item(s: &str) -> (v: CborValue)
    ensures
        v@ == CborModel::Text(s@),
{
    CborValue::Text(s.to_owned())
}

/// Appends an entry with a text key.
pub fn push_entry(xs: &mut Vec<(CborValue, CborValue)>, key: &str, value: CborValue)
    ensures
        entries_model(final(xs)@) == entries_model(old(xs)@).push((CborModel::Text(key@), value@)),
{
    let ghost vm = value@;
    xs.push((text_item(key), value));
    assert(entries_model(xs@) =~= entries_model(old(xs)@).push((CborModel::Text(key@), vm)));
}

/// Appends an item.
pub fn push_item(xs: &mut Vec<CborValue>, value: CborValue)
    ensures
        items_model(final(xs)@) == items_model(old(xs)@).push(value@),
{
    let ghost vm = value@;
    xs.push(value);
    assert(items_model(xs@) =~= items_model(old(xs)@).push(vm));
}

} // verus!
