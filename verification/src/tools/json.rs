//! JSON values as the collectors read them, and the JSON5 parse of page data.
use vstd::prelude::*;

use crate::tools::text::string_from;

verus! {

#[verifier::external_type_specification]
#[verifier::external_body]
pub struct ExJsonValue(serde_json::Value);

/// A JSON value. A number is held as the unsigned integer it is, where it is
/// one; other numbers (negative or fractional) are not read by the library.
pub enum Json {
    Null,
    Bool(bool),
    Number(Option<u64>),
    Str(String),
    Array(Vec<Json>),
    Object(Vec<(String, Json)>),
}

/// The mathematical form of a JSON value.
pub enum JsonValue {
    Null,
    Bool(bool),
    Number(Option<u64>),
    Str(Seq<char>),
    Array(Seq<JsonValue>),
    Object(Seq<(Seq<char>, JsonValue)>),
}

/// The mathematical form of a JSON value.
pub open spec fn json_value(j: Json) -> JsonValue
    decreases j,
{
    match j {
        Json::Null => JsonValue::Null,
        Json::Bool(b) => JsonValue::Bool(b),
        Json::Number(n) => JsonValue::Number(n),
        Json::Str(s) => JsonValue::Str(s@),
        Json::Array(v) => JsonValue::Array(
            Seq::new(v@.len(), |i: int| if 0 <= i < v@.len() { json_value(v@[i]) } else { JsonValue::Null }),
        ),
        Json::Object(v) => JsonValue::Object(
            Seq::new(
                v@.len(),
                |i: int| if 0 <= i < v@.len() { (v@[i].0@, json_value(v@[i].1)) } else { (Seq::empty(), JsonValue::Null) },
            ),
        ),
    }
}

impl View for Json {
    type V = JsonValue;

    open spec fn view(&self) -> JsonValue {
        json_value(*self)
    }
}

/// The values of a list of JSON values.
pub open spec fn json_views(s: Seq<Json>) -> Seq<JsonValue> {
    Seq::new(s.len(), |i: int| s[i]@)
}

/// The value under the first entry named `key` of an object's entries.
pub open spec fn field_of(fields: Seq<(Seq<char>, JsonValue)>, key: Seq<char>) -> Option<JsonValue>
    decreases fields.len(),
{
    if fields.len() == 0 {
        None
    } else if fields[0].0 == key {
        Some(fields[0].1)
    } else {
        field_of(fields.drop_first(), key)
    }
}

/// A value as an unsigned integer, where it is one.
pub open spec fn json_u64(j: JsonValue) -> Option<u64> {
    match j {
        JsonValue::Number(n) => n,
        _ => None,
    }
}

/// The entries of an object, by their views.
pub open spec fn entry_views(v: Seq<(String, Json)>) -> Seq<(Seq<char>, JsonValue)> {
    Seq::new(v.len(), |i: int| (v[i].0@, v[i].1@))
}

/// The view of an array is the views of its values; that of an object, the
/// views of its entries.
pub proof fn lemma_json_view(j: Json)
    ensures
        j matches Json::Array(v) ==> j@ == JsonValue::Array(json_views(v@)),
        j matches Json::Object(f) ==> j@ == JsonValue::Object(entry_views(f@)),
{
    match j {
        Json::Array(v) => {
            assert(j@->Array_0 =~= json_views(v@));
        },
        Json::Object(f) => {
            assert(j@->Object_0 =~= entry_views(f@));
        },
        _ => {},
    }
}

/// The value under `key` in an object's entries.
pub fn get_field<'a>(fields: &'a Vec<(String, Json)>, key: &str) -> (res: Option<&'a Json>)
    ensures
        match res {
            Some(j) => field_of(entry_views(fields@), key@) == Some(j@),
            None => field_of(entry_views(fields@), key@) is None,
        },
{
    let ghost ev = entry_views(fields@);
    let name = string_from(key);
    let mut i: usize = 0;
    assert(ev.skip(0) =~= ev);
    while i < fields.len()
        invariant
            ev == entry_views(fields@),
            name@ == key@,
            i <= fields@.len(),
            field_of(ev, key@) == field_of(ev.skip(i as int), key@),
        decreases fields@.len() - i,
    {
        let ghost rest = ev.skip(i as int);
        assert(rest[0] == ev[i as int]);
        assert(rest.drop_first() =~= ev.skip(i + 1));
        if fields[i].0 == name {
            return Some(&fields[i].1);
        }
        i = i + 1;
    }
    assert(ev.skip(i as int) =~= Seq::<(Seq<char>, JsonValue)>::empty());
    None
}

/// A value as an unsigned integer, where it is one.
pub fn as_u64(j: &Json) -> (res: Option<u64>)
    ensures
        res == json_u64(j@),
{
    match j {
        Json::Number(n) => *n,
        _ => None,
    }
}

/// What `serde_json5::from_str` makes of a text, read as a JSON value.
pub uninterp spec fn json5_value(text: Seq<char>) -> Option<JsonValue>;

/// `serde_json5::from_str` into a `serde_json::Value`, carried over variant for
/// variant: the value of a JSON5 text, none where the text is no JSON5.
/// Named by `json5_value`.
#[verifier::external_body]
pub(crate) fn parse_json5(text: &str) -> (res: Option<Json>)
    ensures
        match res {
            Some(j) => json5_value(text@) == Some(j@),
            None => json5_value(text@) is None,
        },
{
    match serde_json5::from_str::<serde_json::Value>(text) {
        Ok(value) => Some(json_from_value(value)),
        Err(_) => None,
    }
}

/// A `serde_json::Value` as a `Json`, variant for variant; a number by
/// `Number::as_u64`. Used only inside `parse_json5`.
#[verifier::external_body]
fn json_from_value(value: serde_json::Value) -> Json {
    match value {
        serde_json::Value::Null => Json::Null,
        serde_json::Value::Bool(b) => Json::Bool(b),
        serde_json::Value::Number(n) => Json::Number(n.as_u64()),
        serde_json::Value::String(s) => Json::Str(s),
        serde_json::Value::Array(a) => Json::Array(a.into_iter().map(json_from_value).collect()),
        serde_json::Value::Object(o) => Json::Object(o.into_iter().map(|(k, v)| (k, json_from_value(v))).collect()),
    }
}

} // verus!
