//! The configuration's Lua values as plain data, and the readings the
//! configuration rules make of them.
//!
//! A value holds what the Lua state that evaluated the configuration knows of
//! it beyond its bare type: for a float, the text Lua writes for it, the text
//! Rust writes for it, and its whole and truncated values; for a string,
//! whether its bytes are UTF-8 and the number Lua reads in it. The readings
//! here follow the conversions of the Lua binding: a field read as text takes
//! strings and numbers, a field read as an integer takes numbers and numeric
//! strings within range, a flag takes Lua truthiness.
use vstd::prelude::*;

use crate::seqs::{first_match, lemma_first_match_none, lemma_first_match_some};
use crate::text::{i64_to_string, signed_decimal, str_eq};
use crate::widget::LuaNumber;

verus! {

/// A Lua float.
#[derive(Debug)]
pub struct LuaFloat {
    /// The float's bits.
    pub bits: u64,
    /// The text Lua writes for it (`tostring`).
    pub lua_text: String,
    /// The text Rust's `Display` writes for it.
    pub display: String,
    /// Its value as a `u64` (saturating) when it is a non-negative integer.
    pub whole: Option<u64>,
    /// Its value with the fraction dropped, when it is finite and fits.
    pub truncated: Option<i128>,
}

/// The number a Lua string reads as.
#[derive(Debug)]
pub enum LuaNumeric {
    Int(i64),
    Float(LuaFloat),
}

/// A Lua string.
#[derive(Debug)]
pub struct LuaStr {
    /// Its text, or the description of the UTF-8 error in its bytes.
    pub text: Result<String, String>,
    /// The number Lua reads in it, if any.
    pub numeric: Option<LuaNumeric>,
}

/// A Lua value.
#[derive(Debug)]
pub enum LuaValue {
    Nil,
    Boolean(bool),
    Integer(i64),
    Number(LuaFloat),
    String(LuaStr),
    Table(LuaTable),
    /// A function, by the number under which the caller keeps it.
    Function(u64),
    /// A value of another type (userdata, thread, ...), by its type name.
    Other(String),
}

/// A Lua table: its pairs in the order in which `pairs` walks them, and its
/// sequence `t[1], t[2], ...` up to the first missing index.
#[derive(Debug)]
pub struct LuaTable {
    pub pairs: Vec<(LuaValue, LuaValue)>,
    pub sequence: Vec<LuaValue>,
}

/// The text of a string value, when its bytes are UTF-8.
pub open spec fn str_text(s: LuaStr) -> Option<Seq<char>> {
    match s.text {
        Ok(t) => Some(t@),
        Err(_) => None,
    }
}

/// The view of an optional string.
pub open spec fn opt_text(o: Option<String>) -> Option<Seq<char>> {
    match o {
        Some(s) => Some(s@),
        None => None,
    }
}

/// A key that is the string `name`.
pub open spec fn key_named(k: LuaValue, name: Seq<char>) -> bool {
    match k {
        LuaValue::String(s) => str_text(s) == Some(name),
        _ => false,
    }
}

/// The value stored under the string key `name`; nil when there is none.
pub open spec fn lookup(t: LuaTable, name: Seq<char>) -> LuaValue {
    match first_match(t.pairs@, |e: (LuaValue, LuaValue)| key_named(e.0, name)) {
        Some(i) => t.pairs@[i].1,
        None => LuaValue::Nil,
    }
}

/// A value read as text: strings that are UTF-8, and numbers as Lua writes
/// them.
pub open spec fn as_text(v: LuaValue) -> Option<Seq<char>> {
    match v {
        LuaValue::String(s) => str_text(s),
        LuaValue::Integer(i) => Some(signed_decimal(i as int)),
        LuaValue::Number(f) => Some(f.lua_text@),
        _ => None,
    }
}

/// `x` when it lies in `[lo, hi]`.
pub open spec fn within(x: int, lo: int, hi: int) -> Option<int> {
    if lo <= x && x <= hi {
        Some(x)
    } else {
        None
    }
}

/// A float read as an integer in `[lo, hi]`: its value with the fraction
/// dropped, when that lies in range.
pub open spec fn float_int(f: LuaFloat, lo: int, hi: int) -> Option<int> {
    match f.truncated {
        Some(x) => within(x as int, lo, hi),
        None => None,
    }
}

/// A value read as an integer in `[lo, hi]`.
pub open spec fn as_int(v: LuaValue, lo: int, hi: int) -> Option<int> {
    match v {
        LuaValue::Integer(i) => within(i as int, lo, hi),
        LuaValue::Number(f) => float_int(f, lo, hi),
        LuaValue::String(s) => match s.numeric {
            Some(LuaNumeric::Int(i)) => within(i as int, lo, hi),
            Some(LuaNumeric::Float(f)) => float_int(f, lo, hi),
            None => None,
        },
        _ => None,
    }
}

/// A value read as an `i32`.
pub open spec fn as_i32(v: LuaValue) -> Option<i32> {
    match as_int(v, i32::MIN as int, i32::MAX as int) {
        Some(x) => Some(x as i32),
        None => None,
    }
}

/// A value read as a `u32`.
pub open spec fn as_u32(v: LuaValue) -> Option<u32> {
    match as_int(v, 0, u32::MAX as int) {
        Some(x) => Some(x as u32),
        None => None,
    }
}

/// A value read as a `u64`.
pub open spec fn as_u64(v: LuaValue) -> Option<u64> {
    match as_int(v, 0, u64::MAX as int) {
        Some(x) => Some(x as u64),
        None => None,
    }
}

/// A value read as a number: integers and floats, and strings that read as
/// one.
pub open spec fn as_number(v: LuaValue) -> Option<LuaNumber> {
    match v {
        LuaValue::Integer(i) => Some(LuaNumber::Int(i)),
        LuaValue::Number(f) => Some(LuaNumber::Float(f.bits)),
        LuaValue::String(s) => match s.numeric {
            Some(LuaNumeric::Int(i)) => Some(LuaNumber::Int(i)),
            Some(LuaNumeric::Float(f)) => Some(LuaNumber::Float(f.bits)),
            None => None,
        },
        _ => None,
    }
}

/// Lua truthiness: everything but nil and false.
pub open spec fn truthy(v: LuaValue) -> bool {
    match v {
        LuaValue::Nil => false,
        LuaValue::Boolean(b) => b,
        _ => true,
    }
}

/// A value read as an optional flag: nil is unset, anything else is its
/// truthiness.
pub open spec fn as_opt_bool(v: LuaValue) -> Option<bool> {
    match v {
        LuaValue::Nil => None,
        _ => Some(truthy(v)),
    }
}

/// The Lua type name of a value.
pub open spec fn lua_type(v: LuaValue) -> Seq<char> {
    match v {
        LuaValue::Nil => "nil"@,
        LuaValue::Boolean(_) => "boolean"@,
        LuaValue::Integer(_) => "integer"@,
        LuaValue::Number(_) => "number"@,
        LuaValue::String(_) => "string"@,
        LuaValue::Table(_) => "table"@,
        LuaValue::Function(_) => "function"@,
        LuaValue::Other(n) => n@,
    }
}

/// The line a configuration table was written on, as it recorded it.
pub open spec fn line_of(t: LuaTable) -> Option<i32> {
    as_i32(lookup(t, "__line"@))
}

/// Whether a key is the string `name`.
pub fn key_is(k: &LuaValue, name: &str) -> (r: bool)
    ensures
        r == key_named(*k, name@),
{
    match k {
        LuaValue::String(s) => match &s.text {
            Ok(t) => str_eq(t.as_str(), name),
            Err(_) => false,
        },
        _ => false,
    }
}

/// The value stored under the string key `name`, if there is one.
pub fn field<'a>(t: &'a LuaTable, name: &str) -> (r: Option<&'a LuaValue>)
    ensures
        r matches Some(v) ==> lookup(*t, name@) == *v,
        r is None ==> lookup(*t, name@) is Nil,
{
    let ghost p = |e: (LuaValue, LuaValue)| key_named(e.0, name@);
    let mut i: usize = 0;
    while i < t.pairs.len()
        invariant
            i <= t.pairs.len(),
            p == (|e: (LuaValue, LuaValue)| key_named(e.0, name@)),
            forall|j: int| 0 <= j < i ==> !p(#[trigger] t.pairs@[j]),
        decreases t.pairs.len() - i,
    {
        if key_is(&t.pairs[i].0, name) {
            proof {
                lemma_first_match_some(t.pairs@, p, i as int);
            }
            return Some(&t.pairs[i].1);
        }
        i += 1;
    }
    proof {
        lemma_first_match_none(t.pairs@, p);
    }
    None
}

/// A value read as text.
pub fn text_of(v: &LuaValue) -> (r: Option<String>)
    ensures
        opt_text(r) == as_text(*v),
{
    match v {
        LuaValue::String(s) => match &s.text {
            Ok(t) => Some(t.clone()),
            Err(_) => None,
        },
        LuaValue::Integer(i) => Some(i64_to_string(*i)),
        LuaValue::Number(f) => Some(f.lua_text.clone()),
        _ => None,
    }
}

fn within_exec(x: i128, lo: i128, hi: i128) -> (r: Option<i128>)
    ensures
        match r {
            Some(y) => within(x as int, lo as int, hi as int) == Some(y as int),
            None => within(x as int, lo as int, hi as int) is None,
        },
{
    if lo <= x && x <= hi {
        Some(x)
    } else {
        None
    }
}

fn float_int_exec(f: &LuaFloat, lo: i128, hi: i128) -> (r: Option<i128>)
    ensures
        match r {
            Some(y) => float_int(*f, lo as int, hi as int) == Some(y as int),
            None => float_int(*f, lo as int, hi as int) is None,
        },
{
    match f.truncated {
        Some(x) => within_exec(x, lo, hi),
        None => None,
    }
}

/// A value read as an integer in `[lo, hi]`.
pub fn int_of(v: &LuaValue, lo: i128, hi: i128) -> (r: Option<i128>)
    ensures
        match r {
            Some(y) => as_int(*v, lo as int, hi as int) == Some(y as int),
            None => as_int(*v, lo as int, hi as int) is None,
        },
{
    match v {
        LuaValue::Integer(i) => within_exec(*i as i128, lo, hi),
        LuaValue::Number(f) => float_int_exec(f, lo, hi),
        LuaValue::String(s) => match &s.numeric {
            Some(LuaNumeric::Int(i)) => within_exec(*i as i128, lo, hi),
            Some(LuaNumeric::Float(f)) => float_int_exec(f, lo, hi),
            None => None,
        },
        _ => None,
    }
}

/// A value read as an `i32`.
pub fn i32_of(v: &LuaValue) -> (r: Option<i32>)
    ensures
        r == as_i32(*v),
{
    match int_of(v, -2147483648, 2147483647) {
        Some(x) => Some(x as i32),
        None => None,
    }
}

/// A value read as a `u32`.
pub fn u32_of(v: &LuaValue) -> (r: Option<u32>)
    ensures
        r == as_u32(*v),
{
    match int_of(v, 0, 4294967295) {
        Some(x) => Some(x as u32),
        None => None,
    }
}

/// A value read as a `u64`.
pub fn u64_of(v: &LuaValue) -> (r: Option<u64>)
    ensures
        r == as_u64(*v),
{
    match int_of(v, 0, 18446744073709551615) {
        Some(x) => Some(x as u64),
        None => None,
    }
}

/// A value read as a number.
pub fn number_of(v: &LuaValue) -> (r: Option<LuaNumber>)
    ensures
        r == as_number(*v),
{
    match v {
        LuaValue::Integer(i) => Some(LuaNumber::Int(*i)),
        LuaValue::Number(f) => Some(LuaNumber::Float(f.bits)),
        LuaValue::String(s) => match &s.numeric {
            Some(LuaNumeric::Int(i)) => Some(LuaNumber::Int(*i)),
            Some(LuaNumeric::Float(f)) => Some(LuaNumber::Float(f.bits)),
            None => None,
        },
        _ => None,
    }
}

/// Lua truthiness of a value.
pub fn is_truthy(v: &LuaValue) -> (r: bool)
    ensures
        r == truthy(*v),
{
    match v {
        LuaValue::Nil => false,
        LuaValue::Boolean(b) => *b,
        _ => true,
    }
}

/// A value read as an optional flag.
pub fn opt_bool_of(v: &LuaValue) -> (r: Option<bool>)
    ensures
        r == as_opt_bool(*v),
{
    match v {
        LuaValue::Nil => None,
        _ => Some(is_truthy(v)),
    }
}

/// The Lua type name of a value.
pub fn lua_type_of(v: &LuaValue) -> (r: String)
    ensures
        r@ == lua_type(*v),
{
    match v {
        LuaValue::Nil => String::from_str("nil"),
        LuaValue::Boolean(_) => String::from_str("boolean"),
        LuaValue::Integer(_) => String::from_str("integer"),
        LuaValue::Number(_) => String::from_str("number"),
        LuaValue::String(_) => String::from_str("string"),
        LuaValue::Table(_) => String::from_str("table"),
        LuaValue::Function(_) => String::from_str("function"),
        LuaValue::Other(n) => n.clone(),
    }
}

/// The field `name` read as text.
pub fn get_text(t: &LuaTable, name: &str) -> (r: Option<String>)
    ensures
        opt_text(r) == as_text(lookup(*t, name@)),
{
    match field(t, name) {
        Some(v) => text_of(v),
        None => None,
    }
}

/// The field `name` read as an `i32`.
pub fn get_i32(t: &LuaTable, name: &str) -> (r: Option<i32>)
    ensures
        r == as_i32(lookup(*t, name@)),
{
    match field(t, name) {
        Some(v) => i32_of(v),
        None => None,
    }
}

/// The field `name` read as a `u32`.
pub fn get_u32(t: &LuaTable, name: &str) -> (r: Option<u32>)
    ensures
        r == as_u32(lookup(*t, name@)),
{
    match field(t, name) {
        Some(v) => u32_of(v),
        None => None,
    }
}

/// The field `name` read as a `u64`.
pub fn get_u64(t: &LuaTable, name: &str) -> (r: Option<u64>)
    ensures
        r == as_u64(lookup(*t, name@)),
{
    match field(t, name) {
        Some(v) => u64_of(v),
        None => None,
    }
}

/// The field `name` read as a number.
pub fn get_number(t: &LuaTable, name: &str) -> (r: Option<LuaNumber>)
    ensures
        r == as_number(lookup(*t, name@)),
{
    match field(t, name) {
        Some(v) => number_of(v),
        None => None,
    }
}

/// The field `name` read as an optional flag.
pub fn get_opt_bool(t: &LuaTable, name: &str) -> (r: Option<bool>)
    ensures
        r == as_opt_bool(lookup(*t, name@)),
{
    match field(t, name) {
        Some(v) => opt_bool_of(v),
        None => None,
    }
}

/// The field `name` read as a flag (unset is false).
pub fn get_truthy(t: &LuaTable, name: &str) -> (r: bool)
    ensures
        r == truthy(lookup(*t, name@)),
{
    match field(t, name) {
        Some(v) => is_truthy(v),
        None => false,
    }
}

/// The line a configuration table was written on.
pub fn widget_line(t: &LuaTable) -> (r: Option<i32>)
    ensures
        r == line_of(*t),
{
    get_i32(t, "__line")
}

} // verus!
