//! A JSON value as the configuration and the document model read it.
//!
//! Numbers carry the readings that the logic uses: as a signed and an unsigned
//! integer where the number is one, and in thousandths (rounded) where it fits.

use vstd::prelude::*;

verus! {

#[derive(Clone, Copy, Debug, PartialEq, Eq, Structural)]
pub struct JsonNumber {
    pub as_i64: Option<i64>,
    pub as_u64: Option<u64>,
    /// The number rounded to the nearest integer.
    pub rounded: Option<i64>,
    /// The number times 1000, rounded.
    pub milli: Option<i64>,
}

#[derive(Debug)]
pub enum JsonValue {
    Null,
    Bool(bool),
    Number(JsonNumber),
    Str(String),
    Array(Vec<JsonValue>),
    /// The members of an object, in order; a key occurs once.
    Object(Vec<(String, JsonValue)>),
}

/// The value of the first member named `key`.
pub open spec fn member(entries: Seq<(String, JsonValue)>, key: Seq<char>) -> Option<JsonValue>
    decreases entries.len(),
{
    if entries.len() == 0 {
        None
    } else if entries[0].0@ == key {
        Some(entries[0].1)
    } else {
        member(entries.drop_first(), key)
    }
}

/// `v[key]`: the member `key` of an object, nothing for any other value.
pub open spec fn json_get(v: JsonValue, key: Seq<char>) -> Option<JsonValue> {
    match v {
        JsonValue::Object(entries) => member(entries@, key),
        _ => None,
    }
}

/// `r` refers to the value `v` holds, and is empty where `v` is.
pub open spec fn refers_to(r: Option<&JsonValue>, v: Option<JsonValue>) -> bool {
    match v {
        Some(x) => r.is_some() && *r.unwrap() == x,
        None => r.is_none(),
    }
}

pub open spec fn json_bool(v: Option<JsonValue>) -> Option<bool> {
    match v {
        Some(JsonValue::Bool(b)) => Some(b),
        _ => None,
    }
}

pub open spec fn json_str(v: Option<JsonValue>) -> Option<Seq<char>> {
    match v {
        Some(JsonValue::Str(s)) => Some(s@),
        _ => None,
    }
}

pub open spec fn json_u64(v: Option<JsonValue>) -> Option<u64> {
    match v {
        Some(JsonValue::Number(n)) => n.as_u64,
        _ => None,
    }
}

pub open spec fn json_rounded(v: Option<JsonValue>) -> Option<i64> {
    match v {
        Some(JsonValue::Number(n)) => n.rounded,
        _ => None,
    }
}

pub open spec fn json_milli(v: Option<JsonValue>) -> Option<i64> {
    match v {
        Some(JsonValue::Number(n)) => n.milli,
        _ => None,
    }
}

/// The boolean at `v[key]`, or `default` where there is none.
pub open spec fn bool_or(v: JsonValue, key: Seq<char>, default: bool) -> bool {
    match json_bool(json_get(v, key)) {
        Some(b) => b,
        None => default,
    }
}

/// The string at `v[key]`, or `default` where there is none.
pub open spec fn str_or(v: JsonValue, key: Seq<char>, default: Seq<char>) -> Seq<char> {
    match json_str(json_get(v, key)) {
        Some(s) => s,
        None => default,
    }
}

/// The unsigned integer at `v[key]`, or `default` where there is none.
pub open spec fn u64_or(v: JsonValue, key: Seq<char>, default: u64) -> u64 {
    match json_u64(json_get(v, key)) {
        Some(n) => n,
        None => default,
    }
}

pub(crate) fn str_eq(a: &String, b: &str) -> (r: bool)
    ensures
        r == (a@ == b@),
{
    let s: &str = a.as_str();
    let av = crate::text::chars_of(s);
    crate::classifier::chars_eq(av.as_slice(), b)
}

impl JsonValue {
    /// The member `key` of an object.
    pub fn get(&self, key: &str) -> (r: Option<&JsonValue>)
        ensures
            refers_to(r, json_get(*self, key@)),
    {
        match self {
            JsonValue::Object(entries) => {
                let mut i: usize = 0;
                assert(entries@.skip(0) =~= entries@);
                while i < entries.len()
                    invariant
                        i <= entries@.len(),
                        member(entries@, key@) == member(entries@.skip(i as int), key@),
                        json_get(*self, key@) == member(entries@, key@),
                    decreases entries@.len() - i,
                {
                    assert(entries@.skip(i as int).drop_first() =~= entries@.skip(i + 1));
                    assert(entries@.skip(i as int)[0] == entries@[i as int]);
                    if str_eq(&entries[i].0, key) {
                        assert(member(entries@.skip(i as int), key@) == Some(entries@[i as int].1));
                        return Some(&entries[i].1);
                    }
                    i = i + 1;
                }
                None
            },
            _ => None,
        }
    }

    pub fn as_bool(&self) -> (r: Option<bool>)
        ensures
            r == json_bool(Some(*self)),
    {
        match self {
            JsonValue::Bool(b) => Some(*b),
            _ => None,
        }
    }

    pub fn as_str(&self) -> (r: Option<&str>)
        ensures
            match json_str(Some(*self)) {
                Some(s) => r.is_some() && r.unwrap()@ == s,
                None => r.is_none(),
            },
    {
        match self {
            JsonValue::Str(s) => Some(s.as_str()),
            _ => None,
        }
    }

    pub fn as_u64(&self) -> (r: Option<u64>)
        ensures
            r == json_u64(Some(*self)),
    {
        match self {
            JsonValue::Number(n) => n.as_u64,
            _ => None,
        }
    }

    pub fn as_rounded(&self) -> (r: Option<i64>)
        ensures
            r == json_rounded(Some(*self)),
    {
        match self {
            JsonValue::Number(n) => n.rounded,
            _ => None,
        }
    }

    /// The elements of an array.
    pub fn as_array(&self) -> (r: Option<&Vec<JsonValue>>)
        ensures
            match *self {
                JsonValue::Array(items) => r.is_some() && *r.unwrap() == items,
                _ => r.is_none(),
            },
    {
        match self {
            JsonValue::Array(items) => Some(items),
            _ => None,
        }
    }

    pub fn as_milli(&self) -> (r: Option<i64>)
        ensures
            r == json_milli(Some(*self)),
    {
        match self {
            JsonValue::Number(n) => n.milli,
            _ => None,
        }
    }
}

/// The boolean at `v[key]`, or `default`.
pub fn read_bool(v: &JsonValue, key: &str, default: bool) -> (r: bool)
    ensures
        r == bool_or(*v, key@, default),
{
    match v.get(key) {
        Some(x) => match x.as_bool() {
            Some(b) => b,
            None => default,
        },
        None => default,
    }
}

/// The string at `v[key]`, or `default`.
pub fn read_str(v: &JsonValue, key: &str, default: &str) -> (r: String)
    ensures
        r@ == str_or(*v, key@, default@),
{
    match v.get(key) {
        Some(x) => match x.as_str() {
            Some(s) => crate::text::to_owned_string(s),
            None => crate::text::to_owned_string(default),
        },
        None => crate::text::to_owned_string(default),
    }
}

/// The unsigned integer at `v[key]`, or `default`.
pub fn read_u64(v: &JsonValue, key: &str, default: u64) -> (r: u64)
    ensures
        r == u64_or(*v, key@, default),
{
    match v.get(key) {
        Some(x) => match x.as_u64() {
            Some(n) => n,
            None => default,
        },
        None => default,
    }
}

} // verus!
