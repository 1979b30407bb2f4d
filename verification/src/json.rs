//! JSON values as plain data, and the lookups that webhook handling makes
//! on them.
use vstd::prelude::*;
use crate::text::str_eq;

verus! {

/// A JSON value. Numbers keep their value where it is an integer.
#[derive(Debug)]
pub enum JsonValue {
    Null,
    Bool(bool),
    Number(Option<i128>),
    String(String),
    Array(Vec<JsonValue>),
    /// Members as a list with distinct keys; a parsed document lists them
    /// in the order that serde_json's map keeps (by key).
    Object(Vec<(String, JsonValue)>),
}

/// Index of the first member called `key`.
pub open spec fn member_index(ms: Seq<(String, JsonValue)>, key: Seq<char>) -> Option<int>
    decreases ms.len(),
{
    if ms.len() == 0 {
        None
    } else {
        match member_index(ms.drop_last(), key) {
            Some(i) => Some(i),
            None => if ms.last().0@ == key {
                Some(ms.len() - 1)
            } else {
                None
            },
        }
    }
}

/// The member `key` of an object; nothing for other values.
pub open spec fn get_spec(v: JsonValue, key: Seq<char>) -> Option<JsonValue> {
    match v {
        JsonValue::Object(ms) => match member_index(ms@, key) {
            Some(i) => Some(ms@[i].1),
            None => None,
        },
        _ => None,
    }
}

pub open spec fn as_str_spec(v: JsonValue) -> Option<Seq<char>> {
    match v {
        JsonValue::String(s) => Some(s@),
        _ => None,
    }
}

/// `v.key` as a string.
pub open spec fn str_at(v: JsonValue, key: Seq<char>) -> Option<Seq<char>> {
    match get_spec(v, key) {
        Some(x) => as_str_spec(x),
        None => None,
    }
}

proof fn lemma_member_prefix(ms: Seq<(String, JsonValue)>, k: int, key: Seq<char>)
    requires
        0 < k <= ms.len(),
        member_index(ms.take(k), key) is Some,
    ensures
        member_index(ms, key) == member_index(ms.take(k), key),
    decreases ms.len() - k,
{
    if k < ms.len() {
        assert(ms.take(k + 1).drop_last() =~= ms.take(k));
        lemma_member_prefix(ms, k + 1, key);
    } else {
        assert(ms.take(k) =~= ms);
    }
}

/// The member `key` of an object (`serde_json::Value::get` with a string key).
pub fn json_get<'a>(v: &'a JsonValue, key: &str) -> (r: Option<&'a JsonValue>)
    ensures
        match r {
            Some(x) => get_spec(*v, key@) == Some(*x),
            None => get_spec(*v, key@) is None,
        },
{
    match v {
        JsonValue::Object(ms) => {
            let mut i: usize = 0;
            while i < ms.len()
                invariant
                    i <= ms.len(),
                    *v == JsonValue::Object(*ms),
                    member_index(ms@.take(i as int), key@) is None,
                decreases ms.len() - i,
            {
                assert(ms@.take(i + 1).drop_last() =~= ms@.take(i as int));
                if str_eq(ms[i].0.as_str(), key) {
                    proof {
                        assert(ms@.take(i + 1).last() == ms@[i as int]);
                        lemma_member_prefix(ms@, i as int + 1, key@);
                    }
                    return Some(&ms[i].1);
                }
                i = i + 1;
            }
            assert(ms@.take(i as int) =~= ms@);
            None
        },
        _ => None,
    }
}

/// The position of the member `key` among the members of an object.
pub fn member_position(ms: &Vec<(String, JsonValue)>, key: &str) -> (r: Option<usize>)
    ensures
        match r {
            Some(i) => member_index(ms@, key@) == Some(i as int) && i < ms.len(),
            None => member_index(ms@, key@) is None,
        },
{
    let mut i: usize = 0;
    while i < ms.len()
        invariant
            i <= ms.len(),
            member_index(ms@.take(i as int), key@) is None,
        decreases ms.len() - i,
    {
        assert(ms@.take(i + 1).drop_last() =~= ms@.take(i as int));
        if str_eq(ms[i].0.as_str(), key) {
            proof {
                assert(ms@.take(i + 1).last() == ms@[i as int]);
                lemma_member_prefix(ms@, i as int + 1, key@);
            }
            return Some(i);
        }
        i = i + 1;
    }
    assert(ms@.take(i as int) =~= ms@);
    None
}

/// The text of a string value.
pub fn json_as_str(v: &JsonValue) -> (r: Option<&str>)
    ensures
        match r {
            Some(s) => as_str_spec(*v) == Some(s@),
            None => as_str_spec(*v) is None,
        },
{
    match v {
        JsonValue::String(s) => Some(s.as_str()),
        _ => None,
    }
}

/// The items of an array value.
pub fn json_as_array(v: &JsonValue) -> (r: Option<&Vec<JsonValue>>)
    ensures
        match r {
            Some(a) => *v == JsonValue::Array(*a),
            None => !(*v is Array),
        },
{
    match v {
        JsonValue::Array(a) => Some(a),
        _ => None,
    }
}

/// `v.key` as a string.
pub fn json_str_at<'a>(v: &'a JsonValue, key: &str) -> (r: Option<&'a str>)
    ensures
        match r {
            Some(s) => str_at(*v, key@) == Some(s@),
            None => str_at(*v, key@) is None,
        },
{
    match json_get(v, key) {
        Some(x) => json_as_str(x),
        None => None,
    }
}

/// The JSON value that `serde_json` reads from a byte text, or `None` where
/// it reports an error.
pub uninterp spec fn json_document(bytes: Seq<u8>) -> Option<JsonValue>;

/// Parses bytes with `serde_json::from_slice::<serde_json::Value>` and
/// converts the value into a `JsonValue`. Claimed: the parse succeeds
/// exactly where `json_document` has a value, and then gives that value.
/// The error text is `serde_json`'s own; nothing is claimed of it.
#[verifier::external_body]
pub(crate) fn parse_json(bytes: &[u8]) -> (r: Result<JsonValue, String>)
    ensures
        r is Ok <==> json_document(bytes@) is Some,
        r matches Ok(v) ==> json_document(bytes@) == Some(v),
{
    match serde_json::from_slice::<serde_json::Value>(bytes) {
        Ok(v) => Ok(json_from_serde(&v)),
        Err(e) => Err(e.to_string()),
    }
}

#[verifier::external_type_specification]
#[verifier::external_body]
pub struct ExSerdeJsonValue(serde_json::Value);

/// A `serde_json::Value` copied one for one into a `JsonValue` (numbers
/// keep their integer value, if any).
#[verifier::external_body]
fn json_from_serde(v: &serde_json::Value) -> JsonValue {
    match v {
        serde_json::Value::Null => JsonValue::Null,
        serde_json::Value::Bool(b) => JsonValue::Bool(*b),
        serde_json::Value::Number(n) => JsonValue::Number(
            n.as_i64().map(|x| x as i128).or(n.as_u64().map(|x| x as i128)),
        ),
        serde_json::Value::String(s) => JsonValue::String(s.clone()),
        serde_json::Value::Array(a) => JsonValue::Array(a.iter().map(json_from_serde).collect()),
        serde_json::Value::Object(m) => JsonValue::Object(
            m.iter().map(|(k, x)| (k.clone(), json_from_serde(x))).collect(),
        ),
    }
}

} // verus!
