//! A plain JSON value, and the two calls into `serde_json` that the library
//! makes: parsing text into a value and writing a value as compact text.
use vstd::prelude::*;

use crate::text::{chars_eq, chars_of};

verus! {

/// A JSON number as `serde_json` keeps it: a non-negative integer, a
/// negative integer, or a floating-point number (kept as the text that
/// `serde_json` writes for it).
#[derive(Debug, PartialEq)]
pub enum JsonNumber {
    PosInt(u64),
    NegInt(i64),
    Float(String),
}

/// A JSON value. Object members keep the order in which the parser hands
/// them out; keys are unique.
#[derive(Debug, PartialEq)]
pub enum Json {
    Null,
    Bool(bool),
    Number(JsonNumber),
    Str(String),
    Array(Vec<Json>),
    Object(Vec<(String, Json)>),
}

// ─── Outside calls ───────────────────────────────────────────────────────────

#[verifier::external_type_specification]
#[verifier::external_body]
pub struct ExSerdeJsonValue(serde_json::Value);

#[verifier::external_type_specification]
#[verifier::external_body]
pub struct ExSerdeJsonNumber(serde_json::Number);

/// What `serde_json::from_str::<serde_json::Value>` yields for a text,
/// converted to a `Json` (`None` when the text is not valid JSON).
pub uninterp spec fn json_parse(text: Seq<char>) -> Option<Json>;

/// What `serde_json::Value::to_string` writes for a value converted from
/// `Json`.
pub uninterp spec fn json_text(value: Json) -> Seq<char>;

/// Converts a `serde_json::Value` into a `Json`, variant by variant (the
/// conversion that `parse_json` applies to what `serde_json` parsed).
#[verifier::external_body]
fn from_serde(v: &serde_json::Value) -> Json {
    match v {
        serde_json::Value::Null => Json::Null,
        serde_json::Value::Bool(b) => Json::Bool(*b),
        serde_json::Value::Number(n) => Json::Number(number_from_serde(n)),
        serde_json::Value::String(s) => Json::Str(s.clone()),
        serde_json::Value::Array(a) => Json::Array(a.iter().map(from_serde).collect()),
        serde_json::Value::Object(o) => Json::Object(
            o.iter().map(|(k, x)| (k.clone(), from_serde(x))).collect(),
        ),
    }
}

/// Converts a `serde_json::Number` into a `JsonNumber`: an integer as
/// itself, any other number as the text that `serde_json` writes for it.
#[verifier::external_body]
fn number_from_serde(n: &serde_json::Number) -> JsonNumber {
    match (n.as_u64(), n.as_i64()) {
        (Some(u), _) => JsonNumber::PosInt(u),
        (None, Some(i)) => JsonNumber::NegInt(i),
        (None, None) => JsonNumber::Float(n.to_string()),
    }
}

/// Converts a `JsonNumber` into a `serde_json::Value` number, reading a
/// non-integer back from its text.
#[verifier::external_body]
fn number_to_serde(n: &JsonNumber) -> serde_json::Value {
    match n {
        JsonNumber::PosInt(u) => serde_json::Value::from(*u),
        JsonNumber::NegInt(i) => serde_json::Value::from(*i),
        JsonNumber::Float(t) => t.parse::<serde_json::Number>().map(serde_json::Value::Number).unwrap_or(serde_json::Value::Null),
    }
}

/// Converts a `Json` into a `serde_json::Value`, variant by variant (the
/// conversion that `json_to_string` applies before `serde_json` writes).
#[verifier::external_body]
fn to_serde(j: &Json) -> serde_json::Value {
    match j {
        Json::Null => serde_json::Value::Null,
        Json::Bool(b) => serde_json::Value::Bool(*b),
        Json::Number(n) => number_to_serde(n),
        Json::Str(s) => serde_json::Value::String(s.clone()),
        Json::Array(a) => serde_json::Value::Array(a.iter().map(to_serde).collect()),
        Json::Object(o) => serde_json::Value::Object(
            o.iter().map(|(k, x)| (k.clone(), to_serde(x))).collect(),
        ),
    }
}

/// `serde_json::from_str::<serde_json::Value>`: parses JSON text. The
/// result is named `json_parse`: which texts are valid JSON and what they
/// denote is the JSON grammar that `serde_json` implements, which this
/// contract does not restate.
#[verifier::external_body]
pub(crate) fn parse_json(text: &str) -> (r: Option<Json>)
    ensures
        r == json_parse(text@),
{
    serde_json::from_str::<serde_json::Value>(text).ok().map(|v| from_serde(&v))
}

/// `serde_json::Value::to_string`: compact JSON text for a value. The
/// result is named `json_text`; the escaping rules and the key order that
/// `serde_json` uses are not restated.
#[verifier::external_body]
pub(crate) fn json_to_string(value: &Json) -> (r: String)
    ensures
        r@ == json_text(*value),
{
    to_serde(value).to_string()
}

// ─── Access ──────────────────────────────────────────────────────────────────

/// The value stored under `key` in the first object member with that key.
pub open spec fn members_get(m: Seq<(String, Json)>, key: Seq<char>) -> Option<Json>
    decreases m.len(),
{
    if m.len() == 0 {
        None
    } else if m[0].0@ == key {
        Some(m[0].1)
    } else {
        members_get(m.drop_first(), key)
    }
}

/// `Value::get` with a string key: the member of an object, `None` for
/// every other kind of value.
pub open spec fn json_get(j: Json, key: Seq<char>) -> Option<Json> {
    match j {
        Json::Object(m) => members_get(m@, key),
        _ => None,
    }
}

/// `Value::as_str`.
pub open spec fn json_str(j: Json) -> Option<Seq<char>> {
    match j {
        Json::Str(s) => Some(s@),
        _ => None,
    }
}

/// `Value::as_bool`.
pub open spec fn json_bool(j: Json) -> Option<bool> {
    match j {
        Json::Bool(b) => Some(b),
        _ => None,
    }
}

/// `Value::as_u64`.
pub open spec fn json_u64(j: Json) -> Option<u64> {
    match j {
        Json::Number(JsonNumber::PosInt(n)) => Some(n),
        _ => None,
    }
}

/// `Value::as_array`.
pub open spec fn json_array(j: Json) -> Option<Seq<Json>> {
    match j {
        Json::Array(a) => Some(a@),
        _ => None,
    }
}

/// `get` lifted over an optional value.
pub open spec fn opt_get(j: Option<Json>, key: Seq<char>) -> Option<Json> {
    match j {
        Some(v) => json_get(v, key),
        None => None,
    }
}

/// `as_str` lifted over an optional value.
pub open spec fn opt_str(j: Option<Json>) -> Option<Seq<char>> {
    match j {
        Some(v) => json_str(v),
        None => None,
    }
}

/// `as_bool` lifted over an optional value.
pub open spec fn opt_bool(j: Option<Json>) -> Option<bool> {
    match j {
        Some(v) => json_bool(v),
        None => None,
    }
}

/// `as_u64` lifted over an optional value.
pub open spec fn opt_u64(j: Option<Json>) -> Option<u64> {
    match j {
        Some(v) => json_u64(v),
        None => None,
    }
}

/// `as_array` lifted over an optional value.
pub open spec fn opt_array(j: Option<Json>) -> Option<Seq<Json>> {
    match j {
        Some(v) => json_array(v),
        None => None,
    }
}

impl Json {
    /// The member stored under `key` when this is an object.
    pub fn get(&self, key: &str) -> (r: Option<&Json>)
        ensures
            r matches Some(v) ==> json_get(*self, key@) == Some(*v),
            r is None ==> json_get(*self, key@) is None,
    {
        match self {
            Json::Object(m) => {
                assert(json_get(*self, key@) == members_get(m@, key@));
                let k = chars_of(key);
                let mut i: usize = 0;
                assert(m@.skip(0) == m@);
                while i < m.len()
                    invariant
                        i <= m.len(),
                        k@ == key@,
                        json_get(*self, key@) == members_get(m@, key@),
                        members_get(m@, key@) == members_get(m@.skip(i as int), key@),
                    decreases m.len() - i,
                {
                    let name = chars_of(m[i].0.as_str());
                    assert(m@.skip(i as int)[0] == m@[i as int]);
                    assert(m@.skip(i as int).drop_first() == m@.skip(i + 1));
                    if chars_eq(&name, &k) {
                        assert(m@.skip(i as int)[0].0@ == key@);
                        assert(members_get(m@.skip(i as int), key@) == Some(m@[i as int].1));
                        return Some(&m[i].1);
                    }
                    i = i + 1;
                }
                None
            },
            _ => None,
        }
    }

    /// The member stored under `key` when this is an object, taken out of it.
    #[verifier::loop_isolation(false)]
    pub fn into_member(self, key: &str) -> (r: Option<Json>)
        ensures
            r == json_get(self, key@),
    {
        let ghost whole = self;
        match self {
            Json::Object(mut m) => {
                let ghost m0 = m@;
                assert(json_get(whole, key@) == members_get(m0, key@));
                let k = chars_of(key);
                let mut i: usize = 0;
                assert(m@.skip(0) == m@);
                while i < m.len()
                    invariant
                        m@ == m0,
                        i <= m.len(),
                        k@ == key@,
                        json_get(whole, key@) == members_get(m0, key@),
                        members_get(m0, key@) == members_get(m0.skip(i as int), key@),
                    decreases m.len() - i,
                {
                    let name = chars_of(m[i].0.as_str());
                    assert(m@.skip(i as int)[0] == m@[i as int]);
                    assert(m@.skip(i as int).drop_first() == m@.skip(i + 1));
                    if chars_eq(&name, &k) {
                        assert(m@.skip(i as int)[0].0@ == key@);
                        assert(members_get(m@.skip(i as int), key@) == Some(m@[i as int].1));
                        let pair = m.remove(i);
                        assert(pair == m0[i as int]);
                        assert(Some(pair.1) == members_get(m0, key@));
                        return Some(pair.1);
                    }
                    i = i + 1;
                }
                None
            },
            _ => None,
        }
    }

    /// The elements when this is an array, taken out of it.
    pub fn into_array(self) -> (r: Option<Vec<Json>>)
        ensures
            r matches Some(a) ==> json_array(self) == Some(a@),
            r is None ==> json_array(self) is None,
    {
        match self {
            Json::Array(a) => Some(a),
            _ => None,
        }
    }

    /// The text when this is a string.
    pub fn as_str(&self) -> (r: Option<&String>)
        ensures
            r matches Some(s) ==> json_str(*self) == Some(s@),
            r is None ==> json_str(*self) is None,
    {
        match self {
            Json::Str(s) => Some(s),
            _ => None,
        }
    }

    /// The flag when this is a boolean.
    pub fn as_bool(&self) -> (r: Option<bool>)
        ensures
            r == json_bool(*self),
    {
        match self {
            Json::Bool(b) => Some(*b),
            _ => None,
        }
    }

    /// The number when this is a non-negative integer that fits in `u64`.
    pub fn as_u64(&self) -> (r: Option<u64>)
        ensures
            r == json_u64(*self),
    {
        match self {
            Json::Number(JsonNumber::PosInt(n)) => Some(*n),
            _ => None,
        }
    }

    /// The elements when this is an array.
    pub fn as_array(&self) -> (r: Option<&Vec<Json>>)
        ensures
            r matches Some(a) ==> json_array(*self) == Some(a@),
            r is None ==> json_array(*self) is None,
    {
        match self {
            Json::Array(a) => Some(a),
            _ => None,
        }
    }
}

/// The value behind an optional reference.
pub open spec fn unref(j: Option<&Json>) -> Option<Json> {
    match j {
        Some(v) => Some(*v),
        None => None,
    }
}

/// `get` on an optional value.
pub fn get_opt<'a>(j: Option<&'a Json>, key: &str) -> (r: Option<&'a Json>)
    ensures
        r matches Some(v) ==> opt_get(unref(j), key@) == Some(*v),
        r is None ==> opt_get(unref(j), key@) is None,
{
    match j {
        Some(v) => v.get(key),
        None => None,
    }
}

/// `as_str` on an optional value.
pub fn str_opt(j: Option<&Json>) -> (r: Option<&String>)
    ensures
        r matches Some(s) ==> opt_str(unref(j)) == Some(s@),
        r is None ==> opt_str(unref(j)) is None,
{
    match j {
        Some(v) => v.as_str(),
        None => None,
    }
}

} // verus!
