//! Parameter values as the library holds them: the scalar shapes of JSON,
//! with arrays and objects carried as their compact JSON text.

use vstd::prelude::*;
use crate::text::{dec, dec_int, i64_to_string, u64_to_string, copy_string, is_blank, is_blank_str};

verus! {

/// A JSON number. `Float` carries the text that JSON printing gives the
/// floating value and, when the value is finite and has no fractional part,
/// the integer it equals.
#[derive(Debug, Clone, PartialEq)]
pub enum JsonNumber {
    PosInt(u64),
    NegInt(i64),
    Float { text: String, exact_integer: Option<i128> },
}

/// A JSON value.
#[derive(Debug, Clone, PartialEq, Default)]
pub enum JsonValue {
    #[default]
    Null,
    Bool(bool),
    Number(JsonNumber),
    Str(String),
    /// An array or an object, as compact JSON text.
    Composite(String),
}

/// Text that `Value::to_string` gives a number.
pub open spec fn number_text(n: JsonNumber) -> Seq<char> {
    match n {
        JsonNumber::PosInt(u) => dec(u as nat),
        JsonNumber::NegInt(i) => dec_int(i as int),
        JsonNumber::Float { text, .. } => text@,
    }
}

/// Text that `Value::to_string` gives a value that is not a string.
pub open spec fn json_text(v: JsonValue) -> Seq<char> {
    match v {
        JsonValue::Null => "null"@,
        JsonValue::Bool(b) => if b { "true"@ } else { "false"@ },
        JsonValue::Number(n) => number_text(n),
        JsonValue::Str(s) => s@,
        JsonValue::Composite(t) => t@,
    }
}

/// How a placeholder renders a value: a string as itself, anything else as JSON text.
pub open spec fn rendered(v: JsonValue) -> Seq<char> {
    json_text(v)
}

/// `null`, or a string of white space only.
pub open spec fn value_is_empty(v: JsonValue) -> bool {
    match v {
        JsonValue::Null => true,
        JsonValue::Str(s) => is_blank(s@),
        _ => false,
    }
}

impl JsonNumber {
    pub fn dup(&self) -> (r: JsonNumber)
        ensures
            r == *self,
    {
        match self {
            JsonNumber::PosInt(u) => JsonNumber::PosInt(*u),
            JsonNumber::NegInt(i) => JsonNumber::NegInt(*i),
            JsonNumber::Float { text, exact_integer } => JsonNumber::Float {
                text: text.clone(),
                exact_integer: *exact_integer,
            },
        }
    }
}

impl JsonValue {
    pub fn dup(&self) -> (r: JsonValue)
        ensures
            r == *self,
    {
        match self {
            JsonValue::Null => JsonValue::Null,
            JsonValue::Bool(b) => JsonValue::Bool(*b),
            JsonValue::Number(n) => JsonValue::Number(n.dup()),
            JsonValue::Str(s) => JsonValue::Str(s.clone()),
            JsonValue::Composite(t) => JsonValue::Composite(t.clone()),
        }
    }

    pub fn is_string(&self) -> (r: bool)
        ensures
            r == (*self is Str),
    {
        matches!(self, JsonValue::Str(_))
    }

    pub fn is_number(&self) -> (r: bool)
        ensures
            r == (*self is Number),
    {
        matches!(self, JsonValue::Number(_))
    }

    pub fn is_boolean(&self) -> (r: bool)
        ensures
            r == (*self is Bool),
    {
        matches!(self, JsonValue::Bool(_))
    }

    pub fn as_str(&self) -> (r: Option<&str>)
        ensures
            r is Some <==> *self is Str,
            r matches Some(s) ==> (*self matches JsonValue::Str(t) && s@ == t@),
    {
        match self {
            JsonValue::Str(s) => Some(s.as_str()),
            _ => None,
        }
    }

    pub fn as_bool(&self) -> (r: Option<bool>)
        ensures
            r is Some <==> *self is Bool,
            r matches Some(b) ==> *self == JsonValue::Bool(b),
    {
        match self {
            JsonValue::Bool(b) => Some(*b),
            _ => None,
        }
    }

    /// `Value::as_u64`: only non-negative integers.
    pub fn as_u64(&self) -> (r: Option<u64>)
        ensures
            r is Some <==> (*self matches JsonValue::Number(JsonNumber::PosInt(_))),
            r matches Some(u) ==> *self == JsonValue::Number(JsonNumber::PosInt(u)),
    {
        match self {
            JsonValue::Number(JsonNumber::PosInt(u)) => Some(*u),
            _ => None,
        }
    }

    /// `Value::to_string` for a value that is not a string; a string renders as itself.
    pub fn render(&self) -> (r: String)
        ensures
            r@ == rendered(*self),
    {
        match self {
            JsonValue::Null => "null".to_string(),
            JsonValue::Bool(b) => if *b { "true".to_string() } else { "false".to_string() },
            JsonValue::Number(JsonNumber::PosInt(u)) => u64_to_string(*u),
            JsonValue::Number(JsonNumber::NegInt(i)) => i64_to_string(*i),
            JsonValue::Number(JsonNumber::Float { text, .. }) => copy_string(text.as_str()),
            JsonValue::Str(s) => copy_string(s.as_str()),
            JsonValue::Composite(t) => copy_string(t.as_str()),
        }
    }

    pub fn is_empty_value(&self) -> (r: bool)
        ensures
            r == value_is_empty(*self),
    {
        match self {
            JsonValue::Null => true,
            JsonValue::Str(s) => is_blank_str(s.as_str()),
            _ => false,
        }
    }
}

/// The integer that an integral floating number becomes, when it fits `i64`
/// or `u64`.
pub open spec fn integral_replacement(v: JsonValue) -> Option<JsonValue> {
    match v {
        JsonValue::Number(JsonNumber::Float { exact_integer: Some(k), .. }) => {
            if k < 0 && k >= i64::MIN {
                Some(JsonValue::Number(JsonNumber::NegInt(k as i64)))
            } else if 0 <= k && k <= u64::MAX {
                Some(JsonValue::Number(JsonNumber::PosInt(k as u64)))
            } else {
                None
            }
        },
        _ => None,
    }
}

/// A floating number with no fractional part becomes the integer it equals,
/// when that integer fits `i64` or `u64`; everything else is left as it is.
/// Returns whether the value changed.
pub fn normalize_integral_number(value: &mut JsonValue) -> (changed: bool)
    ensures
        changed == (integral_replacement(*old(value)) is Some),
        changed ==> *final(value) == integral_replacement(*old(value))->0,
        !changed ==> *final(value) == *old(value),
{
    let replacement = match value {
        JsonValue::Number(JsonNumber::Float { exact_integer: Some(k), .. }) => {
            let k = *k;
            if k < 0 && k >= i64::MIN as i128 {
                Some(JsonValue::Number(JsonNumber::NegInt(k as i64)))
            } else if 0 <= k && k <= u64::MAX as i128 {
                Some(JsonValue::Number(JsonNumber::PosInt(k as u64)))
            } else {
                None
            }
        },
        _ => None,
    };
    match replacement {
        Some(r) => {
            *value = r;
            true
        },
        None => false,
    }
}

/// What `serde_json` reports for a text that is not JSON (the error's
/// message), or `None` for one that is: a function of the text alone.
pub uninterp spec fn spec_json_error(text: Seq<char>) -> Option<Seq<char>>;

/// Parses `text` with `serde_json::from_str::<serde_json::Value>` and gives
/// the error's message when that fails. The contract says only that the
/// outcome is `spec_json_error` of the text; which texts parse is `serde_json`'s
/// grammar and is not stated here.
#[verifier::external_body]
pub(crate) fn json_error(text: &str) -> (r: Option<String>)
    ensures
        match spec_json_error(text@) {
            Some(m) => r matches Some(x) && x@ == m,
            None => r is None,
        },
{
    match serde_json::from_str::<serde_json::Value>(text) {
        Ok(_) => None,
        Err(e) => Some(e.to_string()),
    }
}

} // verus!
