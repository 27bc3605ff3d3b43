//! A JSON document as plain values, read with `serde_json`, and the lookups
//! that the session and settings logic makes in it.

use vstd::prelude::*;
use crate::text::{chars_equal, chars_of};

verus! {

/// A JSON number, with what `serde_json::Number` reports of it: the value as
/// an unsigned and as a signed 64-bit integer when it is one, and the bits
/// of its nearest `f64`.
#[derive(Clone, Copy, Debug, PartialEq, Eq, Structural)]
pub struct JsonNumber {
    pub as_u64: Option<u64>,
    pub as_i64: Option<i64>,
    /// The IEEE 754 bits of the number as a double.
    pub f64_bits: u64,
}

/// A JSON value.  An object keeps its members in the order in which the
/// parser's map yields them; its keys are distinct.
#[derive(Debug)]
pub enum JsonValue {
    Null,
    Bool(bool),
    Number(JsonNumber),
    Str(String),
    Array(Vec<JsonValue>),
    Object(Vec<(String, JsonValue)>),
}

#[verifier::external_type_specification]
#[verifier::external_body]
pub struct ExSerdeJsonValue(serde_json::Value);

/// The value that `serde_json::from_slice` reads from `bytes`, or `None`
/// when they are not one JSON text.
pub uninterp spec fn json_from_slice(bytes: Seq<u8>) -> Option<JsonValue>;

/// Parses `bytes` with `serde_json::from_slice` into a `serde_json::Value`
/// and turns that value, member by member, into a `JsonValue`.  The contract
/// only names the result: it is whatever the parser reads from these bytes.
#[verifier::external_body]
pub(crate) fn parse_json(bytes: &[u8]) -> (r: Option<JsonValue>)
    ensures
        r == json_from_slice(bytes@),
{
    serde_json::from_slice::<serde_json::Value>(bytes).ok().map(from_serde_value)
}

/// Turns a `serde_json::Value` into a `JsonValue`, one variant for one
/// variant; the parse above is its only caller.
#[verifier::external_body]
fn from_serde_value(value: serde_json::Value) -> JsonValue {
    match value {
        serde_json::Value::Null => JsonValue::Null,
        serde_json::Value::Bool(b) => JsonValue::Bool(b),
        serde_json::Value::Number(n) => JsonValue::Number(
            JsonNumber { as_u64: n.as_u64(), as_i64: n.as_i64(), f64_bits: n.as_f64().map_or(0, |x| x.to_bits()) },
        ),
        serde_json::Value::String(s) => JsonValue::Str(s),
        serde_json::Value::Array(items) => JsonValue::Array(items.into_iter().map(from_serde_value).collect()),
        serde_json::Value::Object(map) => JsonValue::Object(map.into_iter().map(|(k, v)| (k, from_serde_value(v))).collect()),
    }
}

/// The value of the first member named `key`.
pub open spec fn member_lookup(members: Seq<(String, JsonValue)>, key: Seq<char>) -> Option<JsonValue>
    decreases members.len(),
{
    if members.len() == 0 {
        None
    } else if members[0].0@ == key {
        Some(members[0].1)
    } else {
        member_lookup(members.drop_first(), key)
    }
}

/// The member `key` of an object; `None` for anything else.
pub open spec fn json_get(value: JsonValue, key: Seq<char>) -> Option<JsonValue> {
    match value {
        JsonValue::Object(members) => member_lookup(members@, key),
        _ => None,
    }
}

/// The value reached by following the member names of `path` one after the
/// other, as `serde_json::Value::pointer` does for a pointer whose tokens
/// hold no `~` and are not array indexes.
pub open spec fn json_path(value: JsonValue, path: Seq<Seq<char>>) -> Option<JsonValue>
    decreases path.len(),
{
    if path.len() == 0 {
        Some(value)
    } else {
        match json_get(value, path[0]) {
            Some(child) => json_path(child, path.drop_first()),
            None => None,
        }
    }
}

/// The number of a JSON number that is a non-negative 64-bit integer.
pub open spec fn json_as_u64(value: JsonValue) -> Option<u64> {
    match value {
        JsonValue::Number(n) => n.as_u64,
        _ => None,
    }
}

/// The text of a JSON string.
pub open spec fn json_as_str(value: JsonValue) -> Option<Seq<char>> {
    match value {
        JsonValue::Str(s) => Some(s@),
        _ => None,
    }
}

proof fn lemma_member_lookup_skip(members: Seq<(String, JsonValue)>, key: Seq<char>, i: int)
    requires
        0 <= i <= members.len(),
        forall|j: int| 0 <= j < i ==> (#[trigger] members[j]).0@ != key,
    ensures
        member_lookup(members, key) == member_lookup(members.subrange(i, members.len() as int), key),
    decreases i,
{
    if i > 0 {
        assert(members.drop_first().subrange(i - 1, members.drop_first().len() as int)
            =~= members.subrange(i, members.len() as int));
        assert forall|j: int| 0 <= j < i - 1 implies (#[trigger] members.drop_first()[j]).0@ != key by {
            assert(members.drop_first()[j] == members[j + 1]);
        }
        lemma_member_lookup_skip(members.drop_first(), key, i - 1);
    } else {
        assert(members.subrange(0, members.len() as int) =~= members);
    }
}

/// The member named `key` of an object; `None` for anything else.
pub fn get<'a>(value: &'a JsonValue, key: &str) -> (r: Option<&'a JsonValue>)
    ensures
        r matches Some(child) ==> json_get(*value, key@) == Some(*child),
        r is None ==> json_get(*value, key@) is None,
{
    match value {
        JsonValue::Object(members) => {
            let wanted = chars_of(key);
            let mut i: usize = 0;
            while i < members.len()
                invariant
                    i <= members.len(),
                    wanted@ == key@,
                    json_get(*value, key@) == member_lookup(members@, key@),
                    forall|j: int| 0 <= j < i ==> (#[trigger] members@[j]).0@ != key@,
                decreases members.len() - i,
            {
                let name = chars_of(members[i].0.as_str());
                if chars_equal(&name, &wanted) {
                    proof {
                        lemma_member_lookup_skip(members@, key@, i as int);
                        let rest = members@.subrange(i as int, members@.len() as int);
                        assert(rest[0] == members@[i as int]);
                        assert(name@ == members@[i as int].0@);
                        assert(rest[0].0@ == key@);
                        assert(member_lookup(rest, key@) == Some(members@[i as int].1));
                    }
                    return Some(&members[i].1);
                }
                i = i + 1;
            }
            proof {
                lemma_member_lookup_skip(members@, key@, i as int);
            }
            None
        },
        _ => None,
    }
}

/// The value reached by following the member names in `path`.
pub fn get_path<'a>(value: &'a JsonValue, path: &[&str]) -> (r: Option<&'a JsonValue>)
    ensures
        r matches Some(found) ==> json_path(*value, path@.map_values(|k: &str| k@)) == Some(*found),
        r is None ==> json_path(*value, path@.map_values(|k: &str| k@)) is None,
{
    let ghost keys = path@.map_values(|k: &str| k@);
    let mut current: &JsonValue = value;
    let mut i: usize = 0;
    assert(keys.subrange(0, keys.len() as int) =~= keys);
    while i < path.len()
        invariant
            i <= path.len(),
            keys == path@.map_values(|k: &str| k@),
            json_path(*value, keys) == json_path(*current, keys.subrange(i as int, keys.len() as int)),
        decreases path.len() - i,
    {
        let ghost rest = keys.subrange(i as int, keys.len() as int);
        assert(rest[0] == path@[i as int]@);
        match get(current, path[i]) {
            Some(child) => {
                assert(rest.drop_first() =~= keys.subrange(i + 1, keys.len() as int));
                current = child;
            },
            None => {
                return None;
            },
        }
        i = i + 1;
    }
    assert(keys.subrange(i as int, keys.len() as int) =~= Seq::<Seq<char>>::empty());
    Some(current)
}

/// The number of a JSON number that is a non-negative 64-bit integer.
pub fn as_u64(value: &JsonValue) -> (r: Option<u64>)
    ensures
        r == json_as_u64(*value),
{
    match value {
        JsonValue::Number(n) => n.as_u64,
        _ => None,
    }
}

/// The text of a JSON string.
pub fn as_str(value: &JsonValue) -> (r: Option<&str>)
    ensures
        r matches Some(s) ==> json_as_str(*value) == Some(s@),
        r is None ==> json_as_str(*value) is None,
{
    match value {
        JsonValue::Str(s) => Some(s.as_str()),
        _ => None,
    }
}

} // verus!
