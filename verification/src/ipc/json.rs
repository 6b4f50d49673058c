//! JSON values as the protocol reads them: requests' parameters and event
//! lines. Numbers are kept as the reader classifies them; a non-integer
//! number is kept as the text the reader prints for it.

use vstd::prelude::*;

use crate::text::{concat_str, debug_quoted, debug_str, decimal, decimal_chars, signed_decimal, signed_decimal_string, str_eq, string_from_chars};

verus! {

/// A JSON number: a non-negative integer, a negative integer, or any other
/// number, held as the text the reader prints for it.
#[derive(Debug, Clone)]
pub enum JsonNumber {
    PosInt(u64),
    NegInt(i64),
    Float(String),
}

/// A JSON value. An object holds its members in order, each key once.
pub enum JsonValue {
    Null,
    Bool(bool),
    Number(JsonNumber),
    String(String),
    Array(Vec<JsonValue>),
    Object(Vec<(String, JsonValue)>),
}

/// The value under `key` among `entries`, looking from position `i` on.
pub open spec fn lookup_from(entries: Seq<(String, JsonValue)>, key: Seq<char>, i: int) -> Option<JsonValue>
    decreases entries.len() - i,
{
    if i < 0 || i >= entries.len() {
        None
    } else if entries[i].0@ == key {
        Some(entries[i].1)
    } else {
        lookup_from(entries, key, i + 1)
    }
}

/// The member `key` of an object; nothing for a missing key or a
/// non-object (`Value::get`).
pub open spec fn json_get(v: JsonValue, key: Seq<char>) -> Option<JsonValue> {
    match v {
        JsonValue::Object(entries) => lookup_from(entries@, key, 0),
        _ => None,
    }
}

/// The text of a JSON string.
pub open spec fn json_str(v: JsonValue) -> Option<Seq<char>> {
    match v {
        JsonValue::String(s) => Some(s@),
        _ => None,
    }
}

/// A non-negative integer that fits in 64 bits.
pub open spec fn json_u64(v: JsonValue) -> Option<u64> {
    match v {
        JsonValue::Number(JsonNumber::PosInt(n)) => Some(n),
        _ => None,
    }
}

/// An integer that fits in a signed 64-bit value.
pub open spec fn json_i64(v: JsonValue) -> Option<i64> {
    match v {
        JsonValue::Number(JsonNumber::PosInt(n)) => if n <= i64::MAX {
            Some(n as i64)
        } else {
            None
        },
        JsonValue::Number(JsonNumber::NegInt(n)) => Some(n),
        _ => None,
    }
}

pub open spec fn json_bool(v: JsonValue) -> Option<bool> {
    match v {
        JsonValue::Bool(b) => Some(b),
        _ => None,
    }
}

impl JsonValue {
    pub fn get(&self, key: &str) -> (r: Option<&JsonValue>)
        ensures
            r matches Some(v) ==> json_get(*self, key@) == Some(*v),
            r is None ==> json_get(*self, key@) is None,
    {
        match self {
            JsonValue::Object(entries) => {
                let mut i: usize = 0;
                while i < entries.len()
                    invariant
                        i <= entries@.len(),
                        json_get(*self, key@) == lookup_from(entries@, key@, i as int),
                    decreases entries@.len() - i,
                {
                    if str_eq(entries[i].0.as_str(), key) {
                        assert(lookup_from(entries@, key@, i as int) == Some(entries@[i as int].1));
                        return Some(&entries[i].1);
                    }
                    assert(lookup_from(entries@, key@, i as int) == lookup_from(entries@, key@, i + 1));
                    i += 1;
                }
                assert(lookup_from(entries@, key@, i as int) is None);
                None
            },
            _ => None,
        }
    }

    pub fn as_str(&self) -> (r: Option<&str>)
        ensures
            r matches Some(s) ==> json_str(*self) == Some(s@),
            r is None ==> json_str(*self) is None,
    {
        match self {
            JsonValue::String(s) => Some(s.as_str()),
            _ => None,
        }
    }

    pub fn as_u64(&self) -> (r: Option<u64>)
        ensures
            r == json_u64(*self),
    {
        match self {
            JsonValue::Number(JsonNumber::PosInt(n)) => Some(*n),
            _ => None,
        }
    }

    pub fn as_i64(&self) -> (r: Option<i64>)
        ensures
            r == json_i64(*self),
    {
        match self {
            JsonValue::Number(JsonNumber::PosInt(n)) => if *n <= 9223372036854775807u64 {
                Some(*n as i64)
            } else {
                None
            },
            JsonValue::Number(JsonNumber::NegInt(n)) => Some(*n),
            _ => None,
        }
    }

    pub fn as_bool(&self) -> (r: Option<bool>)
        ensures
            r == json_bool(*self),
    {
        match self {
            JsonValue::Bool(b) => Some(*b),
            _ => None,
        }
    }

    pub fn is_null(&self) -> (r: bool)
        ensures
            r == (*self is Null),
    {
        match self {
            JsonValue::Null => true,
            _ => false,
        }
    }
}

/// How the reader names a value it cannot take, given the quoted text of a
/// string value.
pub open spec fn unexpected_given(v: JsonValue, quoted: Seq<char>) -> Seq<char> {
    match v {
        JsonValue::Null => "null"@,
        JsonValue::Bool(b) => if b {
            "boolean `true`"@
        } else {
            "boolean `false`"@
        },
        JsonValue::Number(JsonNumber::PosInt(n)) => "integer `"@ + decimal(n as nat) + "`"@,
        JsonValue::Number(JsonNumber::NegInt(n)) => "integer `"@ + signed_decimal(n as int) + "`"@,
        JsonValue::Number(JsonNumber::Float(text)) => "floating point `"@ + text@ + "`"@,
        JsonValue::String(_) => "string "@ + quoted,
        JsonValue::Array(_) => "sequence"@,
        JsonValue::Object(_) => "map"@,
    }
}

/// How the reader names a value it cannot take: a string is shown as `{:?}`
/// prints it.
pub open spec fn json_unexpected(v: JsonValue) -> Seq<char> {
    match v {
        JsonValue::String(s) => unexpected_given(v, debug_quoted(s@)),
        _ => unexpected_given(v, Seq::empty()),
    }
}

/// The name of `v` in a refusal, with `quoted` standing for the quoted
/// text of a string value.
pub fn unexpected_with(v: &JsonValue, quoted: &str) -> (s: String)
    ensures
        s@ == unexpected_given(*v, quoted@),
{
    match v {
        JsonValue::Null => String::from_str("null"),
        JsonValue::Bool(b) => if *b {
            String::from_str("boolean `true`")
        } else {
            String::from_str("boolean `false`")
        },
        JsonValue::Number(JsonNumber::PosInt(n)) => {
            let digits = string_from_chars(&decimal_chars(*n));
            let a = concat_str("integer `", digits.as_str());
            concat_str(a.as_str(), "`")
        },
        JsonValue::Number(JsonNumber::NegInt(n)) => {
            let digits = signed_decimal_string(*n);
            let a = concat_str("integer `", digits.as_str());
            concat_str(a.as_str(), "`")
        },
        JsonValue::Number(JsonNumber::Float(text)) => {
            let a = concat_str("floating point `", text.as_str());
            concat_str(a.as_str(), "`")
        },
        JsonValue::String(_) => concat_str("string ", quoted),
        JsonValue::Array(_) => String::from_str("sequence"),
        JsonValue::Object(_) => String::from_str("map"),
    }
}

/// The name of `v` in a refusal.
pub fn describe(v: &JsonValue) -> (s: String)
    ensures
        s@ == json_unexpected(*v),
{
    match v {
        JsonValue::String(text) => {
            let quoted = debug_str(text.as_str());
            unexpected_with(v, quoted.as_str())
        },
        _ => unexpected_with(v, ""),
    }
}

} // verus!
