//! JSON documents as plain values, and the readers the decoders share.

use vstd::prelude::*;
use crate::text::str_eq;

verus! {

/// A JSON document. A number is kept as the text that `serde_json` prints
/// it with.
#[derive(Debug)]
pub enum JsonValue {
    Null,
    Bool(bool),
    Number(String),
    Text(String),
    Array(Vec<JsonValue>),
    Object(Vec<(String, JsonValue)>),
}

/// `serde_json::Value`, carried through as it is: nothing is known of what
/// it holds until `json_value_of` has read it.
#[verifier::external_type_specification]
#[verifier::external_body]
pub struct ExJsonValue(serde_json::Value);

/// What `serde_json::from_slice` makes of `raw`: the document, or the text
/// of the error it reports.
pub uninterp spec fn json_document(raw: Seq<u8>) -> Result<JsonValue, Seq<char>>;

/// Turns a `serde_json::Value` into a `JsonValue`, variant by variant. An
/// object's members come in the order in which `serde_json` walks its map.
#[verifier::external_body]
fn json_value_of(value: serde_json::Value) -> JsonValue {
    match value {
        serde_json::Value::Null => JsonValue::Null,
        serde_json::Value::Bool(b) => JsonValue::Bool(b),
        serde_json::Value::Number(n) => JsonValue::Number(n.to_string()),
        serde_json::Value::String(s) => JsonValue::Text(s),
        serde_json::Value::Array(a) => JsonValue::Array(a.into_iter().map(json_value_of).collect()),
        serde_json::Value::Object(m) => JsonValue::Object(
            m.into_iter().map(|(k, v)| (k, json_value_of(v))).collect(),
        ),
    }
}

/// Calls `serde_json::from_slice` for a `serde_json::Value`. The result is
/// a function of the bytes alone, named `json_document`.
#[verifier::external_body]
fn parse_json_document(raw: &[u8]) -> (r: Result<JsonValue, String>)
    ensures
        match r {
            Ok(v) => json_document(raw@) == Ok::<JsonValue, Seq<char>>(v),
            Err(e) => json_document(raw@) == Err::<JsonValue, Seq<char>>(e@),
        },
{
    serde_json::from_slice::<serde_json::Value>(raw).map(json_value_of).map_err(|e| e.to_string())
}

/// Parses `raw` as one JSON document.
pub fn parse_json(raw: &[u8]) -> (r: Result<JsonValue, String>)
    ensures
        match r {
            Ok(v) => json_document(raw@) == Ok::<JsonValue, Seq<char>>(v),
            Err(e) => json_document(raw@) == Err::<JsonValue, Seq<char>>(e@),
        },
{
    parse_json_document(raw)
}

/// The value of the first member of `members` named `key`.
pub open spec fn member(members: Seq<(String, JsonValue)>, key: Seq<char>) -> Option<JsonValue>
    decreases members.len(),
{
    if members.len() == 0 {
        None
    } else if members[0].0@ == key {
        Some(members[0].1)
    } else {
        member(members.drop_first(), key)
    }
}

/// Looks a member up by name.
pub fn find_member<'a>(members: &'a Vec<(String, JsonValue)>, key: &str) -> (r: Option<
    &'a JsonValue,
>)
    ensures
        match r {
            Some(v) => member(members@, key@) == Some(*v),
            None => member(members@, key@) is None,
        },
{
    let mut i: usize = 0;
    assert(members@.skip(0) =~= members@);
    while i < members.len()
        invariant
            i <= members.len(),
            member(members@, key@) == member(members@.skip(i as int), key@),
        decreases members.len() - i,
    {
        if str_eq(members[i].0.as_str(), key) {
            assert(members@.skip(i as int)[0] == members@[i as int]);
            return Some(&members[i].1);
        }
        assert(members@.skip(i as int)[0] == members@[i as int]);
        assert(members@.skip(i as int).drop_first() =~= members@.skip(i + 1));
        i += 1;
    }
    None
}

/// What an optional string field holds: nothing where the member is
/// missing or `null`, the text where it is a string, `Err` for any other
/// value.
pub open spec fn optional_text(v: Option<JsonValue>) -> Result<Option<Seq<char>>, ()> {
    match v {
        None => Ok(None),
        Some(JsonValue::Null) => Ok(None),
        Some(JsonValue::Text(s)) => Ok(Some(s@)),
        Some(_) => Err(()),
    }
}

/// Reads the optional string field `key` of an object.
pub fn read_optional_text(members: &Vec<(String, JsonValue)>, key: &str) -> (r: Result<
    Option<String>,
    (),
>)
    ensures
        match r {
            Ok(Some(s)) => optional_text(member(members@, key@)) == Ok::<Option<Seq<char>>, ()>(
                Some(s@),
            ),
            Ok(None) => optional_text(member(members@, key@)) == Ok::<Option<Seq<char>>, ()>(None),
            Err(_) => optional_text(member(members@, key@)) is Err,
        },
{
    match find_member(members, key) {
        None => Ok(None),
        Some(JsonValue::Null) => Ok(None),
        Some(JsonValue::Text(s)) => Ok(Some(s.clone())),
        Some(_) => Err(()),
    }
}

/// The value of a field of a record. A record is written as an object,
/// where the field is the member of that name and may be missing, or as an
/// array of exactly `arity` values in the order of the fields, where the
/// field is the value at `position`. Anything else is no record.
pub open spec fn record_field(value: JsonValue, name: Seq<char>, position: int, arity: int) -> Result<
    Option<JsonValue>,
    (),
> {
    match value {
        JsonValue::Object(m) => Ok(member(m@, name)),
        JsonValue::Array(a) => if a@.len() == arity && 0 <= position < arity {
            Ok(Some(a@[position]))
        } else {
            Err(())
        },
        _ => Err(()),
    }
}

/// What an optional string field of a record holds.
pub open spec fn record_text(value: JsonValue, name: Seq<char>, position: int, arity: int) -> Result<
    Option<Seq<char>>,
    (),
> {
    match record_field(value, name, position, arity) {
        Ok(field) => optional_text(field),
        Err(_) => Err(()),
    }
}

/// Reads a field of a record.
pub fn read_record_field<'a>(value: &'a JsonValue, name: &str, position: usize, arity: usize) -> (r:
    Result<Option<&'a JsonValue>, ()>)
    ensures
        match r {
            Ok(Some(v)) => record_field(*value, name@, position as int, arity as int) == Ok::<
                Option<JsonValue>,
                (),
            >(Some(*v)),
            Ok(None) => record_field(*value, name@, position as int, arity as int) == Ok::<
                Option<JsonValue>,
                (),
            >(None),
            Err(_) => record_field(*value, name@, position as int, arity as int) is Err,
        },
{
    match value {
        JsonValue::Object(m) => Ok(find_member(m, name)),
        JsonValue::Array(a) => if a.len() == arity && position < arity {
            Ok(Some(&a[position]))
        } else {
            Err(())
        },
        _ => Err(()),
    }
}

/// Reads an optional string field of a record.
pub fn read_record_text(value: &JsonValue, name: &str, position: usize, arity: usize) -> (r: Result<
    Option<String>,
    (),
>)
    ensures
        match r {
            Ok(Some(s)) => record_text(*value, name@, position as int, arity as int) == Ok::<
                Option<Seq<char>>,
                (),
            >(Some(s@)),
            Ok(None) => record_text(*value, name@, position as int, arity as int) == Ok::<
                Option<Seq<char>>,
                (),
            >(None),
            Err(_) => record_text(*value, name@, position as int, arity as int) is Err,
        },
{
    match read_record_field(value, name, position, arity)? {
        None => Ok(None),
        Some(JsonValue::Null) => Ok(None),
        Some(JsonValue::Text(s)) => Ok(Some(s.clone())),
        Some(_) => Err(()),
    }
}

} // verus!
