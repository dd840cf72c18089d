use vstd::prelude::*;

use crate::lookup::{assoc_first, lemma_assoc_first_found, lemma_assoc_first_none, str_eq};

verus! {

/// A JSON document held as plain values that verified code can inspect.
///
/// Objects are ordered key/value sequences; lookups return the first
/// match. Numbers keep their unsigned-integer reading when they have
/// one; every other number is recorded as `NonUInt`, since the pass
/// schema only ever reads unsigned integers and treats any other shape
/// as a type mismatch.
#[derive(Debug)]
pub enum JsonValue {
    Null,
    Bool(bool),
    UInt(u64),
    NonUInt,
    Str(String),
    Arr(Vec<JsonValue>),
    Obj(Vec<(String, JsonValue)>),
}

/// The key/value pairs of an object, with keys as character sequences.
pub open spec fn obj_pairs(entries: Seq<(String, JsonValue)>) -> Seq<(Seq<char>, JsonValue)> {
    Seq::new(entries.len(), |i: int| (entries[i].0@, entries[i].1))
}

/// The first value stored under `key`, if any.
pub open spec fn spec_obj_get(entries: Seq<(String, JsonValue)>, key: Seq<char>) -> Option<
    JsonValue,
> {
    assoc_first(obj_pairs(entries), key)
}

/// The string stored under `key`; a missing key and a non-string value
/// are both `None`.
pub open spec fn spec_obj_get_str(entries: Seq<(String, JsonValue)>, key: Seq<char>) -> Option<
    Seq<char>,
> {
    match spec_obj_get(entries, key) {
        Some(JsonValue::Str(s)) => Some(s@),
        _ => None,
    }
}

/// The unsigned integer stored under `key`; a missing key and any
/// non-integer value are both `None`.
pub open spec fn spec_obj_get_u64(entries: Seq<(String, JsonValue)>, key: Seq<char>) -> Option<
    u64,
> {
    match spec_obj_get(entries, key) {
        Some(JsonValue::UInt(n)) => Some(n),
        _ => None,
    }
}

/// The array stored under `key`; a missing key and a non-array value
/// are both `None`.
pub open spec fn spec_obj_get_arr(entries: Seq<(String, JsonValue)>, key: Seq<char>) -> Option<
    Seq<JsonValue>,
> {
    match spec_obj_get(entries, key) {
        Some(JsonValue::Arr(a)) => Some(a@),
        _ => None,
    }
}

/// The object stored under `key`; a missing key and a non-object value
/// are both `None`.
pub open spec fn spec_obj_get_obj(entries: Seq<(String, JsonValue)>, key: Seq<char>) -> Option<
    Seq<(String, JsonValue)>,
> {
    match spec_obj_get(entries, key) {
        Some(JsonValue::Obj(o)) => Some(o@),
        _ => None,
    }
}

/// Linear scan of an object for the first value stored under `key`.
pub fn json_obj_get<'a>(entries: &'a Vec<(String, JsonValue)>, key: &str) -> (r: Option<
    &'a JsonValue,
>)
    ensures
        match r {
            Some(v) => spec_obj_get(entries@, key@) == Some(*v),
            None => spec_obj_get(entries@, key@) is None,
        },
{
    let n = entries.len();
    let mut i: usize = 0;
    while i < n
        invariant
            n == entries.len(),
            i <= n,
            forall|j: int| 0 <= j < i ==> entries@[j].0@ != key@,
        decreases n - i,
    {
        if str_eq(entries[i].0.as_str(), key) {
            proof {
                lemma_assoc_first_found(obj_pairs(entries@), key@, i as int);
            }
            return Some(&entries[i].1);
        }
        i += 1;
    }
    proof {
        lemma_assoc_first_none(obj_pairs(entries@), key@);
    }
    None
}

/// The string under `key`, cloned out of the object.
pub fn json_obj_get_str(entries: &Vec<(String, JsonValue)>, key: &str) -> (r: Option<String>)
    ensures
        match r {
            Some(s) => spec_obj_get_str(entries@, key@) == Some(s@),
            None => spec_obj_get_str(entries@, key@) is None,
        },
{
    match json_obj_get(entries, key) {
        Some(JsonValue::Str(s)) => Some(s.clone()),
        _ => None,
    }
}

/// The unsigned integer under `key`.
pub fn json_obj_get_u64(entries: &Vec<(String, JsonValue)>, key: &str) -> (r: Option<u64>)
    ensures
        match r {
            Some(n) => spec_obj_get_u64(entries@, key@) == Some(n),
            None => spec_obj_get_u64(entries@, key@) is None,
        },
{
    match json_obj_get(entries, key) {
        Some(JsonValue::UInt(n)) => Some(*n),
        _ => None,
    }
}

/// A borrowed view of the array under `key`.
pub fn json_obj_get_arr<'a>(entries: &'a Vec<(String, JsonValue)>, key: &str) -> (r: Option<
    &'a Vec<JsonValue>,
>)
    ensures
        match r {
            Some(a) => spec_obj_get_arr(entries@, key@) == Some(a@),
            None => spec_obj_get_arr(entries@, key@) is None,
        },
{
    match json_obj_get(entries, key) {
        Some(JsonValue::Arr(a)) => Some(a),
        _ => None,
    }
}

/// A borrowed view of the object under `key`.
pub fn json_obj_get_obj<'a>(entries: &'a Vec<(String, JsonValue)>, key: &str) -> (r: Option<
    &'a Vec<(String, JsonValue)>,
>)
    ensures
        match r {
            Some(o) => spec_obj_get_obj(entries@, key@) == Some(o@),
            None => spec_obj_get_obj(entries@, key@) is None,
        },
{
    match json_obj_get(entries, key) {
        Some(JsonValue::Obj(o)) => Some(o),
        _ => None,
    }
}

#[verifier::external_type_specification]
#[verifier::external_body]
pub struct ExSerdeValue(serde_json::Value);

/// What `serde_json::from_slice` yields on a byte sequence, carried
/// over into the library's own JSON form: `None` when the bytes are not
/// one valid JSON document. The outcome depends on the bytes alone.
pub uninterp spec fn parsed_json(bytes: Seq<u8>) -> Option<JsonValue>;

/// Relies on serde_json::Value: each variant of the decoded tree is
/// moved, one arm each, into the library's own JSON form.
#[verifier::external_body]
fn json_of_serde(v: &serde_json::Value) -> JsonValue {
    match v {
        serde_json::Value::Null => JsonValue::Null,
        serde_json::Value::Bool(b) => JsonValue::Bool(*b),
        serde_json::Value::Number(n) => match n.as_u64() {
            Some(u) => JsonValue::UInt(u),
            None => JsonValue::NonUInt,
        },
        serde_json::Value::String(s) => JsonValue::Str(s.clone()),
        serde_json::Value::Array(a) => JsonValue::Arr(a.iter().map(json_of_serde).collect()),
        serde_json::Value::Object(m) => JsonValue::Obj(
            m.iter().map(|(k, w)| (k.clone(), json_of_serde(w))).collect(),
        ),
    }
}

/// Relies on serde_json::from_slice: decodes one JSON document from a
/// byte slice; the result depends on the bytes alone.
#[verifier::external_body]
pub(crate) fn parse_json(bytes: &Vec<u8>) -> (r: Option<JsonValue>)
    ensures
        r == parsed_json(bytes@),
{
    match serde_json::from_slice::<serde_json::Value>(bytes.as_slice()) {
        Ok(v) => Some(json_of_serde(&v)),
        Err(_) => None,
    }
}

} // verus!
