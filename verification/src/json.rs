//! JSON documents as the compositors' IPC replies carry them, and the
//! lookups the state collectors make in them.
use vstd::prelude::*;

use crate::text::str_eq;

verus! {

/// A JSON value. A number keeps the value it has as a 64-bit signed integer,
/// when it has one; that is the only reading the collectors make of numbers.
#[derive(Debug)]
pub enum JsonValue {
    Null,
    Bool(bool),
    Number(Option<i64>),
    Str(String),
    Array(Vec<JsonValue>),
    Object(Vec<(String, JsonValue)>),
}

/// The value of `key` in an object (the first field of that name); nothing
/// for other values.
pub open spec fn field(v: JsonValue, key: Seq<char>) -> Option<JsonValue> {
    match v {
        JsonValue::Object(fs) => if exists|i: int| 0 <= i < fs.len() && #[trigger] fs@[i].0@ == key {
            let i = choose|i: int|
                0 <= i < fs.len() && #[trigger] fs@[i].0@ == key && forall|j: int|
                    0 <= j < i ==> #[trigger] fs@[j].0@ != key;
            Some(fs@[i].1)
        } else {
            None
        },
        _ => None,
    }
}

pub open spec fn as_str(v: Option<JsonValue>) -> Option<Seq<char>> {
    match v {
        Some(JsonValue::Str(s)) => Some(s@),
        _ => None,
    }
}

pub open spec fn as_i64(v: Option<JsonValue>) -> Option<i64> {
    match v {
        Some(JsonValue::Number(n)) => n,
        _ => None,
    }
}

pub open spec fn as_bool(v: Option<JsonValue>) -> Option<bool> {
    match v {
        Some(JsonValue::Bool(b)) => Some(b),
        _ => None,
    }
}

pub open spec fn as_array(v: Option<JsonValue>) -> Option<Seq<JsonValue>> {
    match v {
        Some(JsonValue::Array(items)) => Some(items@),
        _ => None,
    }
}

/// `field` one level down: `v[key1][key2]`.
pub open spec fn field2(v: JsonValue, key1: Seq<char>, key2: Seq<char>) -> Option<JsonValue> {
    match field(v, key1) {
        Some(inner) => field(inner, key2),
        None => None,
    }
}

/// The first field of a name is the least index that carries it.
proof fn lemma_first_field(fs: Seq<(String, JsonValue)>, key: Seq<char>, k: int)
    requires
        0 <= k < fs.len(),
        fs[k].0@ == key,
    ensures
        exists|i: int|
            0 <= i < fs.len() && #[trigger] fs[i].0@ == key && forall|j: int|
                0 <= j < i ==> #[trigger] fs[j].0@ != key,
    decreases k,
{
    if exists|j: int| 0 <= j < k && #[trigger] fs[j].0@ == key {
        let j = choose|j: int| 0 <= j < k && #[trigger] fs[j].0@ == key;
        lemma_first_field(fs, key, j);
    } else {
        assert(forall|j: int| 0 <= j < k ==> #[trigger] fs[j].0@ != key);
    }
}

/// A field's value lies strictly inside the object that holds it.
pub proof fn lemma_field_inside(v: JsonValue, key: Seq<char>)
    ensures
        field(v, key) matches Some(x) ==> decreases_to!(v => x),
{
    match v {
        JsonValue::Object(fs) => {
            if exists|i: int| 0 <= i < fs.len() && #[trigger] fs@[i].0@ == key {
                let k = choose|i: int| 0 <= i < fs.len() && #[trigger] fs@[i].0@ == key;
                lemma_first_field(fs@, key, k);
                let i = choose|i: int|
                    0 <= i < fs.len() && #[trigger] fs@[i].0@ == key && forall|j: int|
                        0 <= j < i ==> #[trigger] fs@[j].0@ != key;
                assert(field(v, key) == Some(fs@[i].1));
                assert(decreases_to!(v => fs));
                assert(decreases_to!(fs => fs@));
                assert(decreases_to!(fs@ => fs@[i]));
                assert(decreases_to!(fs@[i] => fs@[i].1));
            }
        },
        _ => {},
    }
}

impl JsonValue {
    /// The value of `key`, when this is an object that has it.
    pub fn get(&self, key: &str) -> (r: Option<&JsonValue>)
        ensures
            r matches Some(x) ==> field(*self, key@) == Some(*x),
            r is None ==> field(*self, key@) is None,
    {
        match self {
            JsonValue::Object(fields) => {
                let mut i: usize = 0;
                while i < fields.len()
                    invariant
                        i <= fields.len(),
                        *self == JsonValue::Object(*fields),
                        forall|j: int| 0 <= j < i ==> #[trigger] fields@[j].0@ != key@,
                    decreases fields.len() - i,
                {
                    if str_eq(fields[i].0.as_str(), key) {
                        proof {
                            assert(0 <= i < fields.len() && #[trigger] fields@[i as int].0@ == key@
                                && forall|j: int| 0 <= j < i ==> #[trigger] fields@[j].0@ != key@);
                            let k = choose|k: int|
                                0 <= k < fields.len() && #[trigger] fields@[k].0@ == key@ && forall|j: int|
                                    0 <= j < k ==> #[trigger] fields@[j].0@ != key@;
                            assert(fields@[i as int].0@ == key@);
                            if k < i {
                                assert(fields@[k].0@ != key@);
                            }
                            if i < k {
                                assert(fields@[i as int].0@ != key@);
                            }
                            assert(k == i);
                            assert(exists|j: int| 0 <= j < fields.len() && #[trigger] fields@[j].0@ == key@);
                            let ghost v = *self;
                            match v {
                                JsonValue::Object(fs) => {
                                    assert(fs == *fields);
                                    assert(exists|j: int| 0 <= j < fs.len() && #[trigger] fs@[j].0@ == key@);
                                },
                                _ => {},
                            }
                            assert(field(*self, key@) == Some(fields@[i as int].1));
                        }
                        return Some(&fields[i].1);
                    }
                    i += 1;
                }
                None
            },
            _ => None,
        }
    }

    /// The text, when this is a string.
    pub fn as_str(&self) -> (r: Option<&str>)
        ensures
            r matches Some(s) ==> as_str(Some(*self)) == Some(s@),
            r is None ==> as_str(Some(*self)) is None,
    {
        match self {
            JsonValue::Str(s) => Some(s.as_str()),
            _ => None,
        }
    }

    /// The integer, when this is a number that fits in `i64`.
    pub fn as_i64(&self) -> (r: Option<i64>)
        ensures
            r == as_i64(Some(*self)),
    {
        match self {
            JsonValue::Number(n) => *n,
            _ => None,
        }
    }

    /// The truth value, when this is a boolean.
    pub fn as_bool(&self) -> (r: Option<bool>)
        ensures
            r == as_bool(Some(*self)),
    {
        match self {
            JsonValue::Bool(b) => Some(*b),
            _ => None,
        }
    }

    /// The items, when this is an array.
    pub fn as_array(&self) -> (r: Option<&Vec<JsonValue>>)
        ensures
            r matches Some(items) ==> as_array(Some(*self)) == Some(items@),
            r is None ==> as_array(Some(*self)) is None,
    {
        match self {
            JsonValue::Array(items) => Some(items),
            _ => None,
        }
    }
}

/// Lifts an optional reference to an optional plain value.
pub open spec fn opt_json(v: Option<&JsonValue>) -> Option<JsonValue> {
    match v {
        Some(x) => Some(*x),
        None => None,
    }
}

/// `v[key]` of an optional value.
pub fn get_opt<'a>(v: Option<&'a JsonValue>, key: &str) -> (r: Option<&'a JsonValue>)
    ensures
        opt_json(r) == match opt_json(v) {
            Some(x) => field(x, key@),
            None => None,
        },
{
    match v {
        Some(x) => x.get(key),
        None => None,
    }
}

/// `v[key]` read as a string.
pub fn get_str<'a>(v: &'a JsonValue, key: &str) -> (r: Option<&'a str>)
    ensures
        r matches Some(s) ==> as_str(field(*v, key@)) == Some(s@),
        r is None ==> as_str(field(*v, key@)) is None,
{
    match v.get(key) {
        Some(x) => x.as_str(),
        None => None,
    }
}

/// `v[key]` read as an integer.
pub fn get_i64(v: &JsonValue, key: &str) -> (r: Option<i64>)
    ensures
        r == as_i64(field(*v, key@)),
{
    match v.get(key) {
        Some(x) => x.as_i64(),
        None => None,
    }
}

/// `v[key]` read as a truth value.
pub fn get_bool(v: &JsonValue, key: &str) -> (r: Option<bool>)
    ensures
        r == as_bool(field(*v, key@)),
{
    match v.get(key) {
        Some(x) => x.as_bool(),
        None => None,
    }
}

/// `v[key1][key2]` read as an integer.
pub fn get2_i64(v: &JsonValue, key1: &str, key2: &str) -> (r: Option<i64>)
    ensures
        r == as_i64(field2(*v, key1@, key2@)),
{
    match v.get(key1) {
        Some(x) => get_i64(x, key2),
        None => None,
    }
}

/// `v[key1][key2]` read as a string.
pub fn get2_str<'a>(v: &'a JsonValue, key1: &str, key2: &str) -> (r: Option<&'a str>)
    ensures
        r matches Some(s) ==> as_str(field2(*v, key1@, key2@)) == Some(s@),
        r is None ==> as_str(field2(*v, key1@, key2@)) is None,
{
    match v.get(key1) {
        Some(x) => get_str(x, key2),
        None => None,
    }
}

} // verus!
