//! JSON values as `serde_json` holds them, and what the library reads and
//! builds of them. A `serde_json::Value` is opaque to the verifier; its
//! contents are named by `json_data` and every `serde_json` call that the
//! library makes says over that name what it reads or builds.
use vstd::prelude::*;
use vstd::string::*;

verus! {

/// A JSON value as plain data: what a `serde_json::Value` holds.
/// Numbers are kept as `serde_json::Number` keeps them: a non-negative
/// integer, a negative integer, or a finite float given by its bits.
pub enum JsonData {
    Null,
    Bool(bool),
    PosInt(u64),
    NegInt(i64),
    Float(u64),
    Str(Seq<char>),
    Array(Seq<JsonData>),
    Object(Map<Seq<char>, JsonData>),
}

#[verifier::external_type_specification]
#[verifier::external_body]
pub struct ExValue(serde_json::Value);

#[verifier::external_type_specification]
#[verifier::external_body]
#[verifier::reject_recursive_types(K)]
#[verifier::reject_recursive_types(V)]
pub struct ExMap<K, V>(serde_json::Map<K, V>);

#[verifier::external_type_specification]
#[verifier::external_body]
pub struct ExError(serde_json::Error);

/// The maps of JSON objects.
pub type JsonMap = serde_json::Map<String, serde_json::Value>;

/// What a `serde_json::Value` holds.
pub uninterp spec fn json_data(value: serde_json::Value) -> JsonData;

/// What a `serde_json::Map` holds: its keys and the values under them.
pub uninterp spec fn json_map_data(map: JsonMap) -> Map<
    Seq<char>,
    JsonData,
>;

/// The JSON value that `serde_json::from_slice` reads from a byte sequence,
/// or `None` where it reports an error.
pub uninterp spec fn json_parse(bytes: Seq<u8>) -> Option<JsonData>;

/// The bytes that `serde_json::to_vec` writes for a JSON value.
pub uninterp spec fn json_text(data: JsonData) -> Seq<u8>;

/// What an optional reference to a value holds.
pub open spec fn opt_json_data(value: Option<&serde_json::Value>) -> Option<JsonData> {
    match value {
        Some(v) => Some(json_data(*v)),
        None => None,
    }
}

/// What an optional value holds.
pub open spec fn opt_value_data(value: Option<serde_json::Value>) -> Option<JsonData> {
    match value {
        Some(v) => Some(json_data(v)),
        None => None,
    }
}

/// The members of an empty object.
pub open spec fn no_members() -> Map<Seq<char>, JsonData> {
    Map::empty()
}

/// The member `key` of an object; `None` for a missing key and for a value
/// that is not an object.
pub open spec fn object_get(data: JsonData, key: Seq<char>) -> Option<JsonData> {
    match data {
        JsonData::Object(members) => if members.dom().contains(key) {
            Some(members[key])
        } else {
            None
        },
        _ => None,
    }
}

/// A JSON pointer token that names an object member and nothing else: no
/// `/`, no `~`, and not an array index (it has a character that is not a
/// decimal digit).
pub open spec fn plain_key(key: Seq<char>) -> bool {
    &&& !key.contains('/')
    &&& !key.contains('~')
    &&& exists|i: int| 0 <= i < key.len() && !('0' <= #[trigger] key[i] <= '9')
}

/// The member `inner` of the member `outer` of an object.
pub open spec fn object_get2(data: JsonData, outer: Seq<char>, inner: Seq<char>) -> Option<
    JsonData,
> {
    match object_get(data, outer) {
        Some(d) => object_get(d, inner),
        None => None,
    }
}

/// `Value::Null`.
#[verifier::external_body]
pub(crate) fn json_null() -> (value: serde_json::Value)
    ensures
        json_data(value) == JsonData::Null,
{
    serde_json::Value::Null
}

/// `Value::Bool`.
#[verifier::external_body]
pub(crate) fn json_bool(b: bool) -> (value: serde_json::Value)
    ensures
        json_data(value) == JsonData::Bool(b),
{
    serde_json::Value::Bool(b)
}

/// `Value::from(u64)`: a non-negative integer number.
#[verifier::external_body]
pub(crate) fn json_u64(n: u64) -> (value: serde_json::Value)
    ensures
        json_data(value) == JsonData::PosInt(n),
{
    serde_json::Value::from(n)
}

/// `Value::from(i64)`: `serde_json::Number` keeps a non-negative `i64` as a
/// non-negative integer and a negative one as a negative integer.
#[verifier::external_body]
pub(crate) fn json_i64(n: i64) -> (value: serde_json::Value)
    ensures
        json_data(value) == (if n < 0 {
            JsonData::NegInt(n)
        } else {
            JsonData::PosInt(n as u64)
        }),
{
    serde_json::Value::from(n)
}

/// `Value::String`.
#[verifier::external_body]
pub(crate) fn json_string(s: String) -> (value: serde_json::Value)
    ensures
        json_data(value) == JsonData::Str(s@),
{
    serde_json::Value::String(s)
}

/// `Value::Array`.
#[verifier::external_body]
pub(crate) fn json_array(items: Vec<serde_json::Value>) -> (value: serde_json::Value)
    ensures
        json_data(value) == JsonData::Array(items@.map_values(|v: serde_json::Value| json_data(v))),
{
    serde_json::Value::Array(items)
}

/// `Value::Object`.
#[verifier::external_body]
pub(crate) fn json_object(members: JsonMap) -> (value: serde_json::Value)
    ensures
        json_data(value) == JsonData::Object(json_map_data(members)),
{
    serde_json::Value::Object(members)
}

/// `Map::new`: an empty map.
#[verifier::external_body]
pub(crate) fn json_map_new() -> (empty: JsonMap)
    ensures
        json_map_data(empty) == no_members(),
{
    serde_json::Map::new()
}

/// `Map::insert`: sets the value under `key`, replacing any earlier one.
#[verifier::external_body]
pub(crate) fn json_map_insert(members: &mut JsonMap, key: String, value: serde_json::Value)
    ensures
        json_map_data(*final(members)) == json_map_data(*old(members)).insert(
            key@,
            json_data(value),
        ),
{
    members.insert(key, value);
}

/// `Value::clone`: an equal value.
#[verifier::external_body]
pub(crate) fn json_clone(value: &serde_json::Value) -> (copy: serde_json::Value)
    ensures
        json_data(copy) == json_data(*value),
{
    value.clone()
}

/// `Value::get` with a string key: the member of an object, `None` for a
/// missing key or a value that is not an object.
#[verifier::external_body]
pub(crate) fn json_get<'a>(value: &'a serde_json::Value, key: &str) -> (member: Option<
    &'a serde_json::Value,
>)
    ensures
        opt_json_data(member) == object_get(json_data(*value), key@),
{
    value.get(key)
}

/// `Value::pointer`. For a pointer `/outer/inner` whose two tokens are plain
/// object keys it is the member `inner` of the member `outer`; what it does
/// with other pointers (escapes, array indices, other depths) is not stated
/// here.
#[verifier::external_body]
pub(crate) fn json_pointer<'a>(value: &'a serde_json::Value, pointer: &str) -> (target: Option<
    &'a serde_json::Value,
>)
    ensures
        forall|outer: Seq<char>, inner: Seq<char>|
            #![trigger plain_key(outer), plain_key(inner)]
            pointer@ == seq!['/'] + outer + seq!['/'] + inner && plain_key(outer) && plain_key(
                inner,
            ) ==> opt_json_data(target) == object_get2(json_data(*value), outer, inner),
{
    value.pointer(pointer)
}

/// `Value::as_str`: the text of a string value.
#[verifier::external_body]
pub(crate) fn json_as_str(value: &serde_json::Value) -> (text: Option<&str>)
    ensures
        match json_data(*value) {
            JsonData::Str(s) => text matches Some(t) && t@ == s,
            _ => text is None,
        },
{
    value.as_str()
}

/// `Value::as_u64`: the value of a non-negative integer number.
#[verifier::external_body]
pub(crate) fn json_as_u64(value: &serde_json::Value) -> (n: Option<u64>)
    ensures
        n == match json_data(*value) {
            JsonData::PosInt(v) => Some(v),
            _ => None::<u64>,
        },
{
    value.as_u64()
}

/// `Value::as_array`: the items of an array value.
#[verifier::external_body]
pub(crate) fn json_as_array(value: &serde_json::Value) -> (items: Option<&Vec<serde_json::Value>>)
    ensures
        match json_data(*value) {
            JsonData::Array(data) => items matches Some(v) && v@.map_values(
                |x: serde_json::Value| json_data(x),
            ) == data,
            _ => items is None,
        },
{
    value.as_array()
}

/// `serde_json::from_slice` into a `Value`.
#[verifier::external_body]
pub(crate) fn json_from_slice(bytes: &[u8]) -> (parsed: Result<serde_json::Value, serde_json::Error>)
    ensures
        match parsed {
            Ok(v) => json_parse(bytes@) == Some(json_data(v)),
            Err(_) => json_parse(bytes@) is None,
        },
{
    serde_json::from_slice(bytes)
}

/// `serde_json::to_vec` of a `Value`: the JSON text of the value. It does not
/// fail on a `Value`: the writer is a `Vec`, every object key is a string,
/// and `Value`'s serialisation reports no error of its own.
#[verifier::external_body]
pub(crate) fn json_to_vec(value: &serde_json::Value) -> (text: Result<Vec<u8>, serde_json::Error>)
    ensures
        text is Ok,
        text matches Ok(bytes) ==> bytes@ == json_text(json_data(*value)),
{
    serde_json::to_vec(value)
}

/// Sets the member `key` of an object's map to `value`.
pub(crate) fn insert_member(members: &mut JsonMap, key: &str, value: serde_json::Value)
    ensures
        json_map_data(*final(members)) == json_map_data(*old(members)).insert(
            key@,
            json_data(value),
        ),
{
    json_map_insert(members, String::from_str(key), value);
}

} // verus!
