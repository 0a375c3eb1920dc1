//! Values received over D-Bus (properties, hints), by the types this crate
//! reads, and lookups by name in lists of named values.
use vstd::prelude::*;

use crate::text::str_eq;

verus! {

/// A D-Bus property value, by the types the provider reads.
#[derive(Debug)]
pub enum PropValue {
    Bool(bool),
    U8(u8),
    U32(u32),
    I32(i32),
    Str(String),
    Other,
}

/// The properties of one interface.
pub type Props = Vec<(String, PropValue)>;

/// The interfaces of one object, with their properties.
pub type Interfaces = Vec<(String, Props)>;

/// The first entry with the name.
pub open spec fn named<V>(s: Seq<(String, V)>, name: Seq<char>) -> Option<V> {
    match crate::seqs::first_match(s, |e: (String, V)| e.0@ == name) {
        Some(i) => Some(s[i].1),
        None => None,
    }
}

pub fn find_named<'a, V>(s: &'a Vec<(String, V)>, name: &str) -> (r: Option<&'a V>)
    ensures
        r matches Some(v) ==> named(s@, name@) == Some(*v),
        r is None ==> named(s@, name@) is None,
{
    let ghost p = |e: (String, V)| e.0@ == name@;
    let mut i: usize = 0;
    while i < s.len()
        invariant
            i <= s.len(),
            p == (|e: (String, V)| e.0@ == name@),
            forall|j: int| 0 <= j < i ==> !p(#[trigger] s@[j]),
        decreases s.len() - i,
    {
        if str_eq(s[i].0.as_str(), name) {
            proof {
                crate::seqs::lemma_first_match_some(s@, p, i as int);
            }
            return Some(&s[i].1);
        }
        i += 1;
    }
    proof {
        crate::seqs::lemma_first_match_none(s@, p);
    }
    None
}

} // verus!
