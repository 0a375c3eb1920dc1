//! Output selectors: the text a configuration gives to pick a monitor
//! ("focused", an index, a global number or a name).
use vstd::prelude::*;

use crate::text::{
    contains, contains_str, eq_fold, eq_ignore_ascii_case, is_blank, lower_seq, parse_u32,
    parse_unsigned, parse_usize, str_eq, to_ascii_lowercase, trim, trim_str,
};

verus! {

/// The selector trimmed, or empty when absent.
pub open spec fn normalized_selector(sel: Option<Seq<char>>) -> Seq<char> {
    match sel {
        Some(s) => trim(s),
        None => seq![],
    }
}

pub open spec fn opt_view(sel: Option<&str>) -> Option<Seq<char>> {
    match sel {
        Some(s) => Some(s@),
        None => None,
    }
}

/// The trimmed selector, or the empty string when there is none.
pub fn normalize_selector(output_selector: Option<&str>) -> (r: String)
    ensures
        r@ == normalized_selector(opt_view(output_selector)),
{
    match output_selector {
        Some(s) => trim_str(s),
        None => String::new(),
    }
}

/// Whether the selector means the focused output: blank or "focused" in
/// any ASCII case.
pub fn selector_is_focused_or_empty(selector: &str) -> (r: bool)
    ensures
        r == (trim(selector@).len() == 0 || eq_fold(trim(selector@), "focused"@)),
{
    let t = trim_str(selector);
    t.as_str().is_empty() || eq_ignore_ascii_case(t.as_str(), "focused")
}

/// The selector read as an output index.
pub fn selector_index(selector: &str) -> (r: Option<usize>)
    ensures
        r matches Some(v) ==> parse_unsigned(trim(selector@), usize::MAX as nat) == Some(
            v as nat,
        ),
        r is None ==> parse_unsigned(trim(selector@), usize::MAX as nat) is None,
{
    let t = trim_str(selector);
    parse_usize(t.as_str())
}

/// The selector read as a global output number.
pub fn selector_global(selector: &str) -> (r: Option<u32>)
    ensures
        r matches Some(v) ==> parse_unsigned(trim(selector@), u32::MAX as nat) == Some(v as nat),
        r is None ==> parse_unsigned(trim(selector@), u32::MAX as nat) is None,
{
    let t = trim_str(selector);
    parse_u32(t.as_str())
}

/// The trimmed selector in lower case, unless it is blank.
pub fn selector_target_lower(selector: &str) -> (r: Option<String>)
    ensures
        r matches Some(v) ==> trim(selector@).len() > 0 && v@ == lower_seq(trim(selector@)),
        r is None ==> trim(selector@).len() == 0,
{
    let t = trim_str(selector);
    if t.as_str().is_empty() {
        return None;
    }
    Some(to_ascii_lowercase(t.as_str()))
}

/// Whether the lower-cased name is exactly the (lower-cased) target.
pub fn selector_name_eq(name: &str, target_lower: &str) -> (r: bool)
    ensures
        r == (lower_seq(name@) == target_lower@),
{
    let lowered = to_ascii_lowercase(name);
    str_eq(lowered.as_str(), target_lower)
}

/// Whether the lower-cased name contains the (lower-cased) target.
pub fn selector_name_contains(name: &str, target_lower: &str) -> (r: bool)
    ensures
        r == contains(lower_seq(name@), target_lower@),
{
    let lowered = to_ascii_lowercase(name);
    contains_str(lowered.as_str(), target_lower)
}

/// The key under which a selector's state service is kept (the trimmed
/// selector), and the filter handed to it (the key, unless it is empty).
pub fn selector_key_and_filter(output_selector: Option<&str>) -> (r: (String, Option<String>))
    ensures
        r.0@ == normalized_selector(opt_view(output_selector)),
        r.0@.len() == 0 ==> r.1 is None,
        r.0@.len() > 0 ==> (r.1 matches Some(f) && f@ == r.0@),
{
    let key = normalize_selector(output_selector);
    if key.as_str().is_empty() {
        (key, None)
    } else {
        let filter = key.clone();
        (key, Some(filter))
    }
}

} // verus!
