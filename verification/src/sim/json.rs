//! JSON documents as plain values, and the parse of a text into one.
use vstd::prelude::*;
use crate::sim::players::str_eq;

verus! {

/// A JSON value. A number keeps its value only when it is an unsigned
/// integer that fits in `u64`; an object keeps its members in order.
pub enum Json {
    Null,
    Bool(bool),
    Number(Option<u64>),
    Text(String),
    Array(Vec<Json>),
    Object(Vec<(String, Json)>),
}

#[verifier::external_type_specification]
#[verifier::external_body]
pub struct ExJsonValue(serde_json::Value);

/// What `serde_json` parses a text into, `None` when the text is not JSON.
pub uninterp spec fn parsed_json(text: Seq<char>) -> Option<Json>;

/// The plain form of a parsed value, member by member.
#[verifier::external_body]
fn json_of_value(v: &serde_json::Value) -> Json {
    match v {
        serde_json::Value::Null => Json::Null,
        serde_json::Value::Bool(b) => Json::Bool(*b),
        serde_json::Value::Number(n) => Json::Number(n.as_u64()),
        serde_json::Value::String(s) => Json::Text(s.clone()),
        serde_json::Value::Array(a) => Json::Array(a.iter().map(json_of_value).collect()),
        serde_json::Value::Object(o) => Json::Object(o.iter().map(|(k, x)| (k.clone(), json_of_value(x))).collect()),
    }
}

/// `serde_json::from_str::<serde_json::Value>` (serde_json): the value the
/// text holds, `None` when it is not JSON. The result is a function of the
/// text alone and is named, not spelled out.
#[verifier::external_body]
pub(crate) fn parse_json(text: &str) -> (r: Option<Json>)
    ensures
        r == parsed_json(text@),
{
    match serde_json::from_str::<serde_json::Value>(text) {
        Ok(v) => Some(json_of_value(&v)),
        Err(_) => None,
    }
}

/// The first member of an object's members with that key.
pub open spec fn first_field(members: Seq<(String, Json)>, key: Seq<char>) -> Option<Json>
    decreases members.len(),
{
    if members.len() == 0 {
        None
    } else if members[0].0@ == key {
        Some(members[0].1)
    } else {
        first_field(members.drop_first(), key)
    }
}

/// The member of an object with that key; nothing for other values.
pub open spec fn field(j: Json, key: Seq<char>) -> Option<Json> {
    match j {
        Json::Object(members) => first_field(members@, key),
        _ => None,
    }
}

/// The member of an object with that key.
pub fn get_field<'a>(j: &'a Json, key: &str) -> (r: Option<&'a Json>)
    ensures
        r is None <==> field(*j, key@) is None,
        r matches Some(x) ==> field(*j, key@) == Some(*x),
{
    match j {
        Json::Object(members) => {
            let mut k: usize = 0;
            assert(members@.skip(0) =~= members@);
            while k < members.len()
                invariant
                    k <= members@.len(),
                    field(*j, key@) == first_field(members@, key@),
                    first_field(members@, key@) == first_field(members@.skip(k as int), key@),
                decreases members@.len() - k,
            {
                assert(members@.skip(k as int).drop_first() =~= members@.skip(k + 1));
                assert(members@.skip(k as int)[0] == members@[k as int]);
                if str_eq(members[k].0.as_str(), key) {
                    return Some(&members[k].1);
                }
                k = k + 1;
            }
            None
        },
        _ => None,
    }
}

/// A text value, when the value is one.
pub open spec fn json_text(j: Option<Json>) -> Option<String> {
    match j {
        Some(Json::Text(s)) => Some(s),
        _ => None,
    }
}

/// An unsigned integer, when the value is one.
pub open spec fn json_count(j: Option<Json>) -> Option<u64> {
    match j {
        Some(Json::Number(n)) => n,
        _ => None,
    }
}

/// The items of an array; nothing for other values.
pub open spec fn json_items(j: Option<Json>) -> Seq<Json> {
    match j {
        Some(Json::Array(items)) => items@,
        _ => Seq::empty(),
    }
}

pub fn text_of(j: Option<&Json>) -> (r: Option<String>)
    ensures
        r == json_text(match j { Some(x) => Some(*x), None => None }),
{
    match j {
        Some(Json::Text(s)) => Some(s.clone()),
        _ => None,
    }
}

pub fn count_of(j: Option<&Json>) -> (r: Option<u64>)
    ensures
        r == json_count(match j { Some(x) => Some(*x), None => None }),
{
    match j {
        Some(Json::Number(n)) => *n,
        _ => None,
    }
}

} // verus!
