//! A plain model of the JSON values that travel in Varlink messages, and the
//! accessors that the reply decoders read them with.
use vstd::prelude::*;

use crate::text::str_equal;

verus! {

/// A JSON number as the wire decoder classifies it: a non-negative integer,
/// a negative integer, or any other number, kept as the bits of its IEEE-754
/// double.
#[derive(Debug, Clone, Copy, PartialEq)]
pub enum JsonNumber {
    PosInt(u64),
    NegInt(i64),
    Float(u64),
}

/// A JSON value.
#[derive(Debug)]
pub enum Json {
    Null,
    Bool(bool),
    Number(JsonNumber),
    Str(String),
    Array(Vec<Json>),
    Object(Vec<(String, Json)>),
}

// ---------------------------------------------------------------------------
// Specifications
// ---------------------------------------------------------------------------

/// The value of the first field named `key`.
pub open spec fn field_of(fields: Seq<(String, Json)>, key: Seq<char>) -> Option<Json>
    decreases fields.len(),
{
    if fields.len() == 0 {
        None
    } else if fields[0].0@ == key {
        Some(fields[0].1)
    } else {
        field_of(fields.drop_first(), key)
    }
}

/// `v.get(key)`: the field `key` of an object; nothing for other values.
pub open spec fn get(v: Json, key: Seq<char>) -> Option<Json> {
    match v {
        Json::Object(fields) => field_of(fields@, key),
        _ => None,
    }
}

/// `as_str` on an optional value.
pub open spec fn as_text(v: Option<Json>) -> Option<Seq<char>> {
    match v {
        Some(Json::Str(s)) => Some(s@),
        _ => None,
    }
}

/// `as_u64` on an optional value: only non-negative integers have one.
pub open spec fn as_unsigned(v: Option<Json>) -> Option<u64> {
    match v {
        Some(Json::Number(JsonNumber::PosInt(u))) => Some(u),
        _ => None,
    }
}

/// `as_i64` on an optional value: integers that fit in an `i64`.
pub open spec fn as_signed(v: Option<Json>) -> Option<i64> {
    match v {
        Some(Json::Number(JsonNumber::PosInt(u))) => if u <= i64::MAX {
            Some(u as i64)
        } else {
            None
        },
        Some(Json::Number(JsonNumber::NegInt(i))) => Some(i),
        _ => None,
    }
}

/// `as_f64` on an optional value: every number has one.
pub open spec fn as_numeric(v: Option<Json>) -> Option<JsonNumber> {
    match v {
        Some(Json::Number(n)) => Some(n),
        _ => None,
    }
}

/// `as_array` on an optional value.
pub open spec fn as_list(v: Option<Json>) -> Option<Seq<Json>> {
    match v {
        Some(Json::Array(items)) => Some(items@),
        _ => None,
    }
}

/// The text of the string field `key` of `v`, or `default` when there is
/// none (`v.get(key).and_then(as_str).unwrap_or(default)`).
pub open spec fn text_or(v: Json, key: Seq<char>, default: Seq<char>) -> Seq<char> {
    match as_text(get(v, key)) {
        Some(s) => s,
        None => default,
    }
}

/// The unsigned field `key` of `v`, or `default`.
pub open spec fn unsigned_or(v: Json, key: Seq<char>, default: u64) -> u64 {
    match as_unsigned(get(v, key)) {
        Some(u) => u,
        None => default,
    }
}

/// The numeric field `key` of `v`, or the integer zero.
pub open spec fn number_or_zero(v: Json, key: Seq<char>) -> JsonNumber {
    match as_numeric(get(v, key)) {
        Some(n) => n,
        None => JsonNumber::PosInt(0),
    }
}

/// The text of an optional string value.
pub open spec fn opt_text(v: Option<String>) -> Option<Seq<char>> {
    match v {
        Some(s) => Some(s@),
        None => None,
    }
}

/// The value an optional reference points to.
pub open spec fn deref_value(r: Option<&Json>) -> Option<Json> {
    match r {
        Some(x) => Some(*x),
        None => None,
    }
}

/// The fields of an optional object value.
pub open spec fn object_fields(v: Option<Json>) -> Option<Seq<(String, Json)>> {
    match v {
        Some(Json::Object(fields)) => Some(fields@),
        _ => None,
    }
}

/// Whether the object field `e` is named `key` and holds the text `value`.
pub open spec fn text_field(e: (String, Json), key: Seq<char>, value: Seq<char>) -> bool {
    e.0@ == key && as_text(Some(e.1)) == Some(value)
}

/// Whether the object field `e` is named `key` and holds `value`.
pub open spec fn value_field(e: (String, Json), key: Seq<char>, value: Json) -> bool {
    e.0@ == key && e.1 == value
}

// ---------------------------------------------------------------------------
// Accessors
// ---------------------------------------------------------------------------

impl Json {
    /// The field `key` of an object (`serde_json::Value::get` with a string
    /// index).
    pub fn get<'a>(&'a self, key: &str) -> (r: Option<&'a Json>)
        ensures
            match r {
                Some(x) => get(*self, key@) == Some(*x),
                None => get(*self, key@) is None,
            },
    {
        match self {
            Json::Object(fields) => {
                let mut i: usize = 0;
                assert(fields@.subrange(0, fields.len() as int) == fields@);
                while i < fields.len()
                    invariant
                        i <= fields.len(),
                        get(*self, key@) == field_of(fields@, key@),
                        field_of(fields@, key@) == field_of(
                            fields@.subrange(i as int, fields.len() as int),
                            key@,
                        ),
                    decreases fields.len() - i,
                {
                    let ghost rest = fields@.subrange(i as int, fields.len() as int);
                    assert(rest[0] == fields@[i as int]);
                    assert(rest.drop_first() == fields@.subrange(i + 1, fields.len() as int));
                    if str_equal(fields[i].0.as_str(), key) {
                        assert(field_of(rest, key@) == Some(fields@[i as int].1));
                        return Some(&fields[i].1);
                    }
                    i = i + 1;
                }
                None
            },
            _ => None,
        }
    }

    /// The text of a string value.
    pub fn as_str(&self) -> (r: Option<&String>)
        ensures
            match r {
                Some(s) => as_text(Some(*self)) == Some(s@),
                None => as_text(Some(*self)) is None,
            },
    {
        match self {
            Json::Str(s) => Some(s),
            _ => None,
        }
    }

    /// The value of a non-negative integer.
    pub fn as_u64(&self) -> (r: Option<u64>)
        ensures
            r == as_unsigned(Some(*self)),
    {
        match self {
            Json::Number(JsonNumber::PosInt(u)) => Some(*u),
            _ => None,
        }
    }

    /// The value of an integer that fits in an `i64`.
    pub fn as_i64(&self) -> (r: Option<i64>)
        ensures
            r == as_signed(Some(*self)),
    {
        match self {
            Json::Number(JsonNumber::PosInt(u)) => {
                if *u <= 9223372036854775807u64 {
                    Some(*u as i64)
                } else {
                    None
                }
            },
            Json::Number(JsonNumber::NegInt(i)) => Some(*i),
            _ => None,
        }
    }

    /// The number a numeric value holds.
    pub fn as_number(&self) -> (r: Option<JsonNumber>)
        ensures
            r == as_numeric(Some(*self)),
    {
        match self {
            Json::Number(n) => Some(*n),
            _ => None,
        }
    }

    /// The items of an array.
    pub fn as_array(&self) -> (r: Option<&Vec<Json>>)
        ensures
            match r {
                Some(items) => as_list(Some(*self)) == Some(items@),
                None => as_list(Some(*self)) is None,
            },
    {
        match self {
            Json::Array(items) => Some(items),
            _ => None,
        }
    }
}

/// The text of the string field `key` of `v`, or `default`.
pub fn field_text_or(v: &Json, key: &str, default: &str) -> (r: String)
    ensures
        r@ == text_or(*v, key@, default@),
{
    match v.get(key) {
        Some(x) => match x.as_str() {
            Some(s) => s.clone(),
            None => String::from_str(default),
        },
        None => String::from_str(default),
    }
}

/// The text of the string field `key` of `v`, if it has one.
pub fn field_text(v: &Json, key: &str) -> (r: Option<String>)
    ensures
        opt_text(r) == as_text(get(*v, key@)),
{
    match v.get(key) {
        Some(x) => match x.as_str() {
            Some(s) => Some(s.clone()),
            None => None,
        },
        None => None,
    }
}

/// The unsigned field `key` of `v`, or `default`.
pub fn field_u64_or(v: &Json, key: &str, default: u64) -> (r: u64)
    ensures
        r == unsigned_or(*v, key@, default),
{
    match v.get(key) {
        Some(x) => match x.as_u64() {
            Some(u) => u,
            None => default,
        },
        None => default,
    }
}

/// The unsigned field `key` of `v`, if it has one.
pub fn field_u64(v: &Json, key: &str) -> (r: Option<u64>)
    ensures
        r == as_unsigned(get(*v, key@)),
{
    match v.get(key) {
        Some(x) => x.as_u64(),
        None => None,
    }
}

/// The numeric field `key` of `v`, if it has one.
pub fn field_number(v: &Json, key: &str) -> (r: Option<JsonNumber>)
    ensures
        r == as_numeric(get(*v, key@)),
{
    match v.get(key) {
        Some(x) => x.as_number(),
        None => None,
    }
}

/// The items of the array field `key` of `v`, if it has one.
pub fn field_array<'a>(v: &'a Json, key: &str) -> (r: Option<&'a Vec<Json>>)
    ensures
        match r {
            Some(items) => as_list(get(*v, key@)) == Some(items@),
            None => as_list(get(*v, key@)) is None,
        },
{
    match v.get(key) {
        Some(x) => x.as_array(),
        None => None,
    }
}

/// A string value holding the text of `s`.
pub fn text_value(s: &str) -> (r: Json)
    ensures
        r matches Json::Str(t) && t@ == s@,
{
    Json::Str(String::from_str(s))
}

/// An object field `key: value`.
pub fn entry(key: &str, value: Json) -> (r: (String, Json))
    ensures
        r.0@ == key@,
        r.1 == value,
{
    (String::from_str(key), value)
}

// ---------------------------------------------------------------------------
// Laws
// ---------------------------------------------------------------------------

/// Reading field `key` of an object finds the first field of that name:
/// the value read is that field's value and no earlier field bears the
/// name; nothing is found exactly when no field bears it.
pub proof fn lemma_field_lookup(fields: Seq<(String, Json)>, key: Seq<char>)
    ensures
        field_of(fields, key) is None <==> forall|i: int|
            0 <= i < fields.len() ==> (#[trigger] fields[i]).0@ != key,
        field_of(fields, key) is Some ==> exists|i: int|
            0 <= i < fields.len() && (#[trigger] fields[i]).0@ == key && field_of(fields, key)
                == Some(fields[i].1) && forall|j: int| 0 <= j < i ==> (#[trigger] fields[j]).0@ != key,
    decreases fields.len(),
{
    if fields.len() > 0 {
        let rest = fields.drop_first();
        lemma_field_lookup(rest, key);
        if fields[0].0@ != key {
            assert forall|i: int| 0 < i < fields.len() implies fields[i] == rest[i - 1] by {}
            if field_of(rest, key) is Some {
                let i = choose|i: int|
                    0 <= i < rest.len() && (#[trigger] rest[i]).0@ == key && field_of(rest, key)
                        == Some(rest[i].1) && forall|j: int| 0 <= j < i ==> (#[trigger] rest[j]).0@
                        != key;
                assert(fields[i + 1] == rest[i]);
                assert forall|j: int| 0 <= j < i + 1 implies (#[trigger] fields[j]).0@ != key by {
                    if j > 0 {
                        assert(fields[j] == rest[j - 1]);
                    }
                }
            } else {
                assert forall|i: int| 0 <= i < fields.len() implies (#[trigger] fields[i]).0@
                    != key by {
                    if i > 0 {
                        assert(fields[i] == rest[i - 1]);
                    }
                }
            }
        }
    }
}

} // verus!
