//! Reading the configuration: the windows, widgets and properties that the
//! configuration's tables describe, with the errors the configuration
//! language defines for malformed ones.
use vstd::prelude::*;

use crate::order::texts;
use crate::lua::{
    as_i32, as_number, as_opt_bool, as_text, as_u32, as_u64, field, get_i32, get_number,
    get_opt_bool, get_text, get_truthy, get_u32, get_u64, key_named, line_of, lookup, lua_type,
    lua_type_of, opt_text, truthy, widget_line, LuaStr, LuaTable, LuaValue,
};
use crate::seqs::{
    first_match, lemma_first_match_exists, lemma_first_match_none, lemma_first_match_some,
};
use crate::validator::{tree_warnings, validate_widget_tree};
use crate::text::{
    decimal, i64_to_string, lower_seq, signed_decimal, str_eq, to_ascii_lowercase, trim,
    u64_to_string,
};
use crate::widget::{
    bad_dock_action_message, dock_action_named, format_line_prefix, line_prefix,
    parse_dock_click_action, BoxProps, ButtonProps, ClickAction, ClickBindings, ClockProps,
    DockClickAction, DockProps, IconifyRule, ImageProps, LabelProps, ListProps, OverlayProps,
    PopoverProps, ProgressProps, RevealerProps, RichFormatRule, RichTextStyle, ScrollProps,
    SliderProps, TrayProps, WidgetBase, WidgetConfig, WidgetKind, WidgetProps, WindowConfig,
    WorkspacesProps, kind_from_name,
};

verus! {

/// Why a configuration was refused.
#[derive(Debug)]
pub enum ConfigError {
    /// A rule of the configuration language was broken; the message says
    /// which, and where.
    Runtime(String),
    /// A value could not be read as the type asked for.
    Conversion { from: String, to: String, message: Option<String> },
}

/// The contents of a [`ConfigError`].
pub enum ErrView {
    Runtime(Seq<char>),
    Conversion(Seq<char>, Seq<char>, Option<Seq<char>>),
}

impl View for ConfigError {
    type V = ErrView;

    open spec fn view(&self) -> ErrView {
        match self {
            ConfigError::Runtime(m) => ErrView::Runtime(m@),
            ConfigError::Conversion { from, to, message } => ErrView::Conversion(
                from@,
                to@,
                opt_text(*message),
            ),
        }
    }
}

/// The error for string bytes that are not UTF-8, read as `to`.
pub open spec fn utf8_error(to: Seq<char>, e: Seq<char>) -> ErrView {
    ErrView::Conversion("string"@, to, Some(e))
}

/// A string's text, or the error for bytes that are not UTF-8.
pub open spec fn str_result(s: LuaStr) -> Result<Seq<char>, ErrView> {
    match s.text {
        Ok(t) => Ok(t@),
        Err(e) => Err(utf8_error("&str"@, e@)),
    }
}

/// The view of a text result.
pub open spec fn text_res(r: Result<String, ConfigError>) -> Result<Seq<char>, ErrView> {
    match r {
        Ok(t) => Ok(t@),
        Err(e) => Err(e@),
    }
}

/// The view of a list result.
pub open spec fn list_res(r: Result<Vec<String>, ConfigError>) -> Result<Seq<Seq<char>>, ErrView> {
    match r {
        Ok(v) => Ok(texts(v@)),
        Err(e) => Err(e@),
    }
}

fn conversion(from: String, to: &str, message: String) -> (r: ConfigError)
    ensures
        r@ == ErrView::Conversion(from@, to@, Some(message@)),
{
    ConfigError::Conversion { from, to: String::from_str(to), message: Some(message) }
}

/// A string's text, or the error for bytes that are not UTF-8.
pub fn read_str(s: &LuaStr) -> (r: Result<String, ConfigError>)
    ensures
        text_res(r) == str_result(*s),
{
    match &s.text {
        Ok(t) => Ok(t.clone()),
        Err(e) => Err(conversion(String::from_str("string"), "&str", e.clone())),
    }
}

/// An item of a string list: strings and numbers, as text.
pub open spec fn list_item(v: LuaValue) -> Result<Seq<char>, ErrView> {
    match v {
        LuaValue::String(s) => match s.text {
            Ok(t) => Ok(t@),
            Err(e) => Err(utf8_error("String"@, e@)),
        },
        LuaValue::Integer(i) => Ok(signed_decimal(i as int)),
        LuaValue::Number(f) => Ok(f.lua_text@),
        _ => Err(ErrView::Conversion(lua_type(v), "String"@, Some("expected string or number"@))),
    }
}

/// The items of a string list after `acc`; the first item that is not text
/// fails it.
pub open spec fn list_fold(s: Seq<LuaValue>, acc: Seq<Seq<char>>) -> Result<
    Seq<Seq<char>>,
    ErrView,
>
    decreases s.len(),
{
    if s.len() == 0 {
        Ok(acc)
    } else {
        match list_item(s[0]) {
            Err(e) => Err(e),
            Ok(x) => list_fold(s.drop_first(), acc.push(x)),
        }
    }
}

/// A value read as a list of strings: one string, or a sequence of them;
/// anything else is an empty list.
pub open spec fn string_list(v: LuaValue) -> Result<Seq<Seq<char>>, ErrView> {
    match v {
        LuaValue::String(s) => match str_result(s) {
            Ok(t) => Ok(seq![t]),
            Err(e) => Err(e),
        },
        LuaValue::Table(t) => list_fold(t.sequence@, seq![]),
        _ => Ok(seq![]),
    }
}

fn read_list_item(v: &LuaValue) -> (r: Result<String, ConfigError>)
    ensures
        text_res(r) == list_item(*v),
{
    match v {
        LuaValue::String(s) => match &s.text {
            Ok(t) => Ok(t.clone()),
            Err(e) => Err(conversion(String::from_str("string"), "String", e.clone())),
        },
        LuaValue::Integer(i) => Ok(i64_to_string(*i)),
        LuaValue::Number(f) => Ok(f.lua_text.clone()),
        _ => Err(conversion(lua_type_of(v), "String", String::from_str("expected string or number"))),
    }
}

/// A value read as a list of strings.
pub fn parse_string_list(v: &LuaValue) -> (r: Result<Vec<String>, ConfigError>)
    ensures
        list_res(r) == string_list(*v),
{
    match v {
        LuaValue::String(s) => {
            let t = read_str(s)?;
            let out = vec![t];
            assert(texts(out@) =~= seq![out@[0]@]);
            Ok(out)
        },
        LuaValue::Table(t) => {
            let items = &t.sequence;
            let mut out: Vec<String> = Vec::new();
            let mut i: usize = 0;
            assert(items@.skip(0) =~= items@);
            assert(texts(out@) =~= seq![]);
            while i < items.len()
                invariant
                    i <= items.len(),
                    string_list(*v) == list_fold(items@, seq![]),
                    list_fold(items@, seq![]) == list_fold(items@.skip(i as int), texts(out@)),
                decreases items.len() - i,
            {
                let ghost rest = items@.skip(i as int);
                assert(rest[0] == items@[i as int]);
                assert(rest.drop_first() =~= items@.skip(i + 1));
                match read_list_item(&items[i]) {
                    Ok(x) => {
                        let ghost before = texts(out@);
                        out.push(x);
                        assert(texts(out@) =~= before.push(x@));
                    },
                    Err(e) => {
                        return Err(e);
                    },
                }
                i += 1;
            }
            assert(items@.skip(i as int) =~= seq![]);
            Ok(out)
        },
        _ => {
            let out: Vec<String> = Vec::new();
            assert(texts(out@) =~= seq![]);
            Ok(out)
        },
    }
}

/// An entry whose key is `k`.
pub open spec fn keyed_by<V>(k: Seq<char>) -> spec_fn((Seq<char>, V)) -> bool {
    |e: (Seq<char>, V)| e.0 == k
}

/// `s` with `k` set to `v`: in place where `k` is already a key, at the end
/// otherwise.
pub open spec fn assoc_put<V>(s: Seq<(Seq<char>, V)>, k: Seq<char>, v: V) -> Seq<(Seq<char>, V)> {
    match first_match(s, keyed_by::<V>(k)) {
        Some(i) => s.update(i, (k, v)),
        None => s.push((k, v)),
    }
}

/// The value of `k` in `s`: that of its first entry with key `k`.
pub open spec fn assoc_get<V>(s: Seq<(Seq<char>, V)>, k: Seq<char>) -> Option<V> {
    match first_match(s, keyed_by::<V>(k)) {
        Some(i) => Some(s[i].1),
        None => None,
    }
}

/// No key occurs twice.
pub open spec fn keys_distinct<V>(s: Seq<(Seq<char>, V)>) -> bool {
    forall|i: int, j: int| 0 <= i < j < s.len() ==> #[trigger] s[i].0 != #[trigger] s[j].0
}

/// Setting a key keeps the keys distinct.
pub proof fn lemma_assoc_put_distinct<V>(s: Seq<(Seq<char>, V)>, k: Seq<char>, v: V)
    requires
        keys_distinct(s),
    ensures
        keys_distinct(assoc_put(s, k, v)),
{
    let p = keyed_by::<V>(k);
    match first_match(s, p) {
        Some(i) => {
            crate::seqs::lemma_first_match_is_first(s, p);
            let t = assoc_put(s, k, v);
            assert forall|a: int, b: int| 0 <= a < b < t.len() implies #[trigger] t[a].0 != #[trigger] t[b].0 by {
                if a == i {
                    assert(s[i].0 == k);
                    assert(s[b].0 != s[i].0);
                } else if b == i {
                    assert(s[i].0 == k);
                    assert(s[a].0 != s[i].0);
                } else {
                    assert(s[a].0 != s[b].0);
                }
            }
        },
        None => {
            lemma_first_match_none(s, p);
            let t = assoc_put(s, k, v);
            assert forall|a: int, b: int| 0 <= a < b < t.len() implies #[trigger] t[a].0 != #[trigger] t[b].0 by {
                if b == s.len() {
                    assert(!p(s[a]));
                } else {
                    assert(s[a].0 != s[b].0);
                }
            }
        },
    }
}

/// After `k` is set to `v`, `k` reads `v`, and every other key reads what it
/// read before.
pub proof fn lemma_assoc_get_put<V>(s: Seq<(Seq<char>, V)>, k: Seq<char>, v: V, other: Seq<char>)
    ensures
        assoc_get(assoc_put(s, k, v), k) == Some(v),
        other != k ==> assoc_get(assoc_put(s, k, v), other) == assoc_get(s, other),
{
    let t = assoc_put(s, k, v);
    let p = keyed_by::<V>(k);
    let q = keyed_by::<V>(other);
    match first_match(s, p) {
        Some(i) => {
            crate::seqs::lemma_first_match_is_first(s, p);
            assert(t == s.update(i, (k, v)));
            assert(crate::seqs::is_first(t, p, i));
            lemma_first_match_some(t, p, i);
            if other != k {
                match first_match(s, q) {
                    Some(j) => {
                        crate::seqs::lemma_first_match_is_first(s, q);
                        assert(s[j].0 == other);
                        assert(j != i);
                        assert(crate::seqs::is_first(t, q, j));
                        lemma_first_match_some(t, q, j);
                    },
                    None => {
                        assert forall|m: int| 0 <= m < t.len() implies !q(#[trigger] t[m]) by {
                            if m != i {
                                if q(t[m]) {
                                    lemma_first_match_exists(s, q, m);
                                }
                            }
                        }
                        lemma_first_match_none(t, q);
                    },
                }
            }
        },
        None => {
            assert(t == s.push((k, v)));
            assert forall|m: int| 0 <= m < s.len() implies !p(#[trigger] t[m]) by {
                assert(t[m] == s[m]);
                if p(s[m]) {
                    lemma_first_match_exists(s, p, m);
                }
            }
            assert(crate::seqs::is_first(t, p, s.len() as int));
            lemma_first_match_some(t, p, s.len() as int);
            if other != k {
                match first_match(s, q) {
                    Some(j) => {
                        crate::seqs::lemma_first_match_is_first(s, q);
                        assert(crate::seqs::is_first(t, q, j));
                        lemma_first_match_some(t, q, j);
                    },
                    None => {
                        assert forall|m: int| 0 <= m < t.len() implies !q(#[trigger] t[m]) by {
                            if m < s.len() {
                                assert(t[m] == s[m]);
                                if q(s[m]) {
                                    lemma_first_match_exists(s, q, m);
                                }
                            }
                        }
                        lemma_first_match_none(t, q);
                    },
                }
            }
        },
    }
}

/// The value of `k` in a list of text pairs.
pub fn get_text_pair(s: &Vec<(String, String)>, k: &str) -> (r: Option<String>)
    ensures
        opt_text(r) == assoc_get(text_pairs_view(s@), k@),
{
    let ghost v = text_pairs_view(s@);
    let ghost p = keyed_by::<Seq<char>>(k@);
    let mut i: usize = 0;
    while i < s.len()
        invariant
            i <= s.len(),
            v == text_pairs_view(s@),
            p == keyed_by::<Seq<char>>(k@),
            forall|j: int| 0 <= j < i ==> !p(#[trigger] v[j]),
        decreases s.len() - i,
    {
        if str_eq(s[i].0.as_str(), k) {
            proof {
                lemma_first_match_some(v, p, i as int);
            }
            return Some(s[i].1.clone());
        }
        i += 1;
    }
    proof {
        lemma_first_match_none(v, p);
    }
    None
}

/// The views of a list of text pairs.
pub open spec fn text_pairs_view(s: Seq<(String, String)>) -> Seq<(Seq<char>, Seq<char>)> {
    s.map_values(|e: (String, String)| (e.0@, e.1@))
}

/// The views of a list of text-to-list pairs.
pub open spec fn list_pairs_view(s: Seq<(String, Vec<String>)>) -> Seq<
    (Seq<char>, Seq<Seq<char>>),
> {
    s.map_values(|e: (String, Vec<String>)| (e.0@, texts(e.1@)))
}

/// Sets `k` to `v` in a list of text pairs.
pub fn put_text(out: &mut Vec<(String, String)>, k: String, v: String)
    ensures
        text_pairs_view(final(out)@) == assoc_put(text_pairs_view(old(out)@), k@, v@),
{
    let ghost s = text_pairs_view(out@);
    let ghost p = keyed_by::<Seq<char>>(k@);
    let mut i: usize = 0;
    while i < out.len()
        invariant
            i <= out.len(),
            s == text_pairs_view(out@),
            s == text_pairs_view(old(out)@),
            p == keyed_by::<Seq<char>>(k@),
            forall|j: int| 0 <= j < i ==> !p(#[trigger] s[j]),
        decreases out.len() - i,
    {
        if str_eq(out[i].0.as_str(), k.as_str()) {
            proof {
                lemma_first_match_some(s, p, i as int);
            }
            let ghost kv = k@;
            let ghost vv = v@;
            out.set(i, (k, v));
            assert(text_pairs_view(out@) =~= s.update(i as int, (kv, vv)));
            return ;
        }
        i += 1;
    }
    proof {
        lemma_first_match_none(s, p);
    }
    let ghost kv = k@;
    let ghost vv = v@;
    out.push((k, v));
    assert(text_pairs_view(out@) =~= s.push((kv, vv)));
}

fn put_list(out: &mut Vec<(String, Vec<String>)>, k: String, v: Vec<String>)
    ensures
        list_pairs_view(final(out)@) == assoc_put(list_pairs_view(old(out)@), k@, texts(v@)),
{
    let ghost s = list_pairs_view(out@);
    let ghost p = keyed_by::<Seq<Seq<char>>>(k@);
    let mut i: usize = 0;
    while i < out.len()
        invariant
            i <= out.len(),
            s == list_pairs_view(out@),
            s == list_pairs_view(old(out)@),
            p == keyed_by::<Seq<Seq<char>>>(k@),
            forall|j: int| 0 <= j < i ==> !p(#[trigger] s[j]),
        decreases out.len() - i,
    {
        if str_eq(out[i].0.as_str(), k.as_str()) {
            proof {
                lemma_first_match_some(s, p, i as int);
            }
            let ghost kv = k@;
            let ghost vv = texts(v@);
            out.set(i, (k, v));
            assert(list_pairs_view(out@) =~= s.update(i as int, (kv, vv)));
            return ;
        }
        i += 1;
    }
    proof {
        lemma_first_match_none(s, p);
    }
    let ghost kv = k@;
    let ghost vv = texts(v@);
    out.push((k, v));
    assert(list_pairs_view(out@) =~= s.push((kv, vv)));
}

/// The text a map key stands for: strings, and non-negative whole numbers in
/// decimal; other keys are skipped (`None`).
pub open spec fn map_key(k: LuaValue) -> Option<Result<Seq<char>, ErrView>> {
    match k {
        LuaValue::String(s) => Some(str_result(s)),
        LuaValue::Integer(i) => if i >= 0 {
            Some(Ok(decimal(i as nat)))
        } else {
            None
        },
        LuaValue::Number(f) => match f.whole {
            Some(w) => Some(Ok(decimal(w as nat))),
            None => None,
        },
        _ => None,
    }
}

/// The text a map value stands for: strings, numbers, and flags as `1` or
/// `0`; other values are skipped (`None`).
pub open spec fn map_value(v: LuaValue) -> Option<Result<Seq<char>, ErrView>> {
    match v {
        LuaValue::String(s) => Some(str_result(s)),
        LuaValue::Integer(i) => Some(Ok(signed_decimal(i as int))),
        LuaValue::Number(f) => Some(Ok(f.display@)),
        LuaValue::Boolean(b) => Some(
            Ok(
                if b {
                    "1"@
                } else {
                    "0"@
                },
            ),
        ),
        _ => None,
    }
}

/// The entries of a string map after `acc`, in the order the pairs come.
pub open spec fn map_fold(s: Seq<(LuaValue, LuaValue)>, acc: Seq<(Seq<char>, Seq<char>)>) -> Result<
    Seq<(Seq<char>, Seq<char>)>,
    ErrView,
>
    decreases s.len(),
{
    if s.len() == 0 {
        Ok(acc)
    } else {
        match map_key(s[0].0) {
            None => map_fold(s.drop_first(), acc),
            Some(Err(e)) => Err(e),
            Some(Ok(k)) => match map_value(s[0].1) {
                None => map_fold(s.drop_first(), acc),
                Some(Err(e)) => Err(e),
                Some(Ok(v)) => map_fold(s.drop_first(), assoc_put(acc, k, v)),
            },
        }
    }
}

/// A map read from a table has each key once.
pub proof fn lemma_map_fold_distinct(s: Seq<(LuaValue, LuaValue)>, acc: Seq<(Seq<char>, Seq<char>)>)
    requires
        keys_distinct(acc),
    ensures
        map_fold(s, acc) matches Ok(m) ==> keys_distinct(m),
    decreases s.len(),
{
    if s.len() > 0 {
        match map_key(s[0].0) {
            Some(Ok(k)) => match map_value(s[0].1) {
                Some(Ok(v)) => {
                    lemma_assoc_put_distinct(acc, k, v);
                    lemma_map_fold_distinct(s.drop_first(), assoc_put(acc, k, v));
                },
                _ => lemma_map_fold_distinct(s.drop_first(), acc),
            },
            _ => lemma_map_fold_distinct(s.drop_first(), acc),
        }
    }
}

/// A value read as a map from text to text; anything but a table is empty.
pub open spec fn string_map(v: LuaValue) -> Result<Seq<(Seq<char>, Seq<char>)>, ErrView> {
    match v {
        LuaValue::Table(t) => map_fold(t.pairs@, seq![]),
        _ => Ok(seq![]),
    }
}

/// The view of a map result.
pub open spec fn map_res(r: Result<Vec<(String, String)>, ConfigError>) -> Result<
    Seq<(Seq<char>, Seq<char>)>,
    ErrView,
> {
    match r {
        Ok(v) => Ok(text_pairs_view(v@)),
        Err(e) => Err(e@),
    }
}

fn read_map_key(k: &LuaValue) -> (r: Option<Result<String, ConfigError>>)
    ensures
        match r {
            None => map_key(*k) is None,
            Some(x) => map_key(*k) == Some(text_res(x)),
        },
{
    match k {
        LuaValue::String(s) => Some(read_str(s)),
        LuaValue::Integer(i) => if *i >= 0 {
            Some(Ok(u64_to_string(*i as u64)))
        } else {
            None
        },
        LuaValue::Number(f) => match f.whole {
            Some(w) => Some(Ok(u64_to_string(w))),
            None => None,
        },
        _ => None,
    }
}

fn read_map_value(v: &LuaValue) -> (r: Option<Result<String, ConfigError>>)
    ensures
        match r {
            None => map_value(*v) is None,
            Some(x) => map_value(*v) == Some(text_res(x)),
        },
{
    match v {
        LuaValue::String(s) => Some(read_str(s)),
        LuaValue::Integer(i) => Some(Ok(i64_to_string(*i))),
        LuaValue::Number(f) => Some(Ok(f.display.clone())),
        LuaValue::Boolean(b) => Some(
            Ok(
                if *b {
                    String::from_str("1")
                } else {
                    String::from_str("0")
                },
            ),
        ),
        _ => None,
    }
}

/// A value read as a map from text to text.
pub fn parse_string_map(v: &LuaValue) -> (r: Result<Vec<(String, String)>, ConfigError>)
    ensures
        map_res(r) == string_map(*v),
        r matches Ok(m) ==> keys_distinct(text_pairs_view(m@)),
{
    proof {
        if let LuaValue::Table(t) = v {
            lemma_map_fold_distinct(t.pairs@, seq![]);
        }
    }
    let mut out: Vec<(String, String)> = Vec::new();
    assert(text_pairs_view(out@) =~= seq![]);
    match v {
        LuaValue::Table(t) => {
            let items = &t.pairs;
            let mut i: usize = 0;
            assert(items@.skip(0) =~= items@);
            while i < items.len()
                invariant
                    i <= items.len(),
                    string_map(*v) == map_fold(items@, seq![]),
                    map_fold(items@, seq![]) == map_fold(
                        items@.skip(i as int),
                        text_pairs_view(out@),
                    ),
                decreases items.len() - i,
            {
                let ghost rest = items@.skip(i as int);
                assert(rest[0] == items@[i as int]);
                assert(rest.drop_first() =~= items@.skip(i + 1));
                match read_map_key(&items[i].0) {
                    None => {},
                    Some(Err(e)) => {
                        return Err(e);
                    },
                    Some(Ok(k)) => match read_map_value(&items[i].1) {
                        None => {},
                        Some(Err(e)) => {
                            return Err(e);
                        },
                        Some(Ok(x)) => {
                            put_text(&mut out, k, x);
                        },
                    },
                }
                i += 1;
            }
            assert(items@.skip(i as int) =~= seq![]);
            Ok(out)
        },
        _ => Ok(out),
    }
}

/// The entries of a map of string lists after `acc`; empty lists are left
/// out.
pub open spec fn list_map_fold(
    s: Seq<(LuaValue, LuaValue)>,
    acc: Seq<(Seq<char>, Seq<Seq<char>>)>,
) -> Result<Seq<(Seq<char>, Seq<Seq<char>>)>, ErrView>
    decreases s.len(),
{
    if s.len() == 0 {
        Ok(acc)
    } else {
        match map_key(s[0].0) {
            None => list_map_fold(s.drop_first(), acc),
            Some(Err(e)) => Err(e),
            Some(Ok(k)) => match string_list(s[0].1) {
                Err(e) => Err(e),
                Ok(l) => if l.len() > 0 {
                    list_map_fold(s.drop_first(), assoc_put(acc, k, l))
                } else {
                    list_map_fold(s.drop_first(), acc)
                },
            },
        }
    }
}

/// A value read as a map from text to lists of text.
pub open spec fn string_list_map(v: LuaValue) -> Result<Seq<(Seq<char>, Seq<Seq<char>>)>, ErrView> {
    match v {
        LuaValue::Table(t) => list_map_fold(t.pairs@, seq![]),
        _ => Ok(seq![]),
    }
}

/// A list map read from a table has each key once.
pub proof fn lemma_list_map_fold_distinct(
    s: Seq<(LuaValue, LuaValue)>,
    acc: Seq<(Seq<char>, Seq<Seq<char>>)>,
)
    requires
        keys_distinct(acc),
    ensures
        list_map_fold(s, acc) matches Ok(m) ==> keys_distinct(m),
    decreases s.len(),
{
    if s.len() > 0 {
        match map_key(s[0].0) {
            Some(Ok(k)) => match string_list(s[0].1) {
                Ok(l) => if l.len() > 0 {
                    lemma_assoc_put_distinct(acc, k, l);
                    lemma_list_map_fold_distinct(s.drop_first(), assoc_put(acc, k, l));
                } else {
                    lemma_list_map_fold_distinct(s.drop_first(), acc);
                },
                _ => {},
            },
            _ => lemma_list_map_fold_distinct(s.drop_first(), acc),
        }
    }
}

/// Every map a configuration value is read as (the text maps and the
/// text-to-list maps of widget properties) has each key once.
pub proof fn law_read_maps_distinct(v: LuaValue)
    ensures
        string_map(v) matches Ok(m) ==> keys_distinct(m),
        string_list_map(v) matches Ok(m) ==> keys_distinct(m),
{
    if let LuaValue::Table(t) = v {
        lemma_map_fold_distinct(t.pairs@, seq![]);
        lemma_list_map_fold_distinct(t.pairs@, seq![]);
    }
}

/// The view of a list-map result.
pub open spec fn list_map_res(r: Result<Vec<(String, Vec<String>)>, ConfigError>) -> Result<
    Seq<(Seq<char>, Seq<Seq<char>>)>,
    ErrView,
> {
    match r {
        Ok(v) => Ok(list_pairs_view(v@)),
        Err(e) => Err(e@),
    }
}

/// A value read as a map from text to lists of text.
pub fn parse_string_list_map(v: &LuaValue) -> (r: Result<Vec<(String, Vec<String>)>, ConfigError>)
    ensures
        list_map_res(r) == string_list_map(*v),
        r matches Ok(m) ==> keys_distinct(list_pairs_view(m@)),
{
    proof {
        if let LuaValue::Table(t) = v {
            lemma_list_map_fold_distinct(t.pairs@, seq![]);
        }
    }
    let mut out: Vec<(String, Vec<String>)> = Vec::new();
    assert(list_pairs_view(out@) =~= seq![]);
    match v {
        LuaValue::Table(t) => {
            let items = &t.pairs;
            let mut i: usize = 0;
            assert(items@.skip(0) =~= items@);
            while i < items.len()
                invariant
                    i <= items.len(),
                    string_list_map(*v) == list_map_fold(items@, seq![]),
                    list_map_fold(items@, seq![]) == list_map_fold(
                        items@.skip(i as int),
                        list_pairs_view(out@),
                    ),
                decreases items.len() - i,
            {
                let ghost rest = items@.skip(i as int);
                assert(rest[0] == items@[i as int]);
                assert(rest.drop_first() =~= items@.skip(i + 1));
                match read_map_key(&items[i].0) {
                    None => {},
                    Some(Err(e)) => {
                        return Err(e);
                    },
                    Some(Ok(k)) => {
                        let l = parse_string_list(&items[i].1)?;
                        if l.len() > 0 {
                            put_list(&mut out, k, l);
                        }
                    },
                }
                i += 1;
            }
            assert(items@.skip(i as int) =~= seq![]);
            Ok(out)
        },
        _ => Ok(out),
    }
}

/// The field `name` read as a list of strings.
pub open spec fn list_field(t: LuaTable, name: Seq<char>) -> Result<Seq<Seq<char>>, ErrView> {
    string_list(lookup(t, name))
}

/// The field `name` read as a map from text to text.
pub open spec fn map_field(t: LuaTable, name: Seq<char>) -> Result<
    Seq<(Seq<char>, Seq<char>)>,
    ErrView,
> {
    string_map(lookup(t, name))
}

/// The field `name` read as a list of strings.
pub fn parse_list_field(t: &LuaTable, name: &str) -> (r: Result<Vec<String>, ConfigError>)
    ensures
        list_res(r) == list_field(*t, name@),
{
    match field(t, name) {
        Some(v) => parse_string_list(v),
        None => parse_string_list(&LuaValue::Nil),
    }
}

/// The field `name` read as a map from text to text.
pub fn parse_map_field(t: &LuaTable, name: &str) -> (r: Result<Vec<(String, String)>, ConfigError>)
    ensures
        map_res(r) == map_field(*t, name@),
        r matches Ok(m) ==> keys_distinct(text_pairs_view(m@)),
{
    match field(t, name) {
        Some(v) => parse_string_map(v),
        None => parse_string_map(&LuaValue::Nil),
    }
}

/// The field `name` read as a map from text to lists of text.
pub fn parse_list_map_field(t: &LuaTable, name: &str) -> (r: Result<
    Vec<(String, Vec<String>)>,
    ConfigError,
>)
    ensures
        list_map_res(r) == string_list_map(lookup(*t, name@)),
        r matches Ok(m) ==> keys_distinct(list_pairs_view(m@)),
{
    match field(t, name) {
        Some(v) => parse_string_list_map(v),
        None => parse_string_list_map(&LuaValue::Nil),
    }
}

/// The anchors a window gets by default, and for a top position.
pub open spec fn default_anchors() -> Seq<Seq<char>> {
    seq!["top"@, "left"@, "right"@]
}

/// The anchors for a window position; any position but bottom, left and right
/// is the top one.
pub open spec fn position_anchors(pos: Seq<char>) -> Seq<Seq<char>> {
    if pos == "bottom"@ {
        seq!["bottom"@, "left"@, "right"@]
    } else if pos == "left"@ {
        seq!["left"@, "top"@, "bottom"@]
    } else if pos == "right"@ {
        seq!["right"@, "top"@, "bottom"@]
    } else {
        default_anchors()
    }
}

/// A window positioned at the bottom, left or right edge is anchored to that
/// edge first, and to two other edges besides; any other position anchors it
/// to the top edge first.
pub proof fn law_anchored_at_position(pos: Seq<char>)
    ensures
        position_anchors(pos).len() == 3,
        (pos == "bottom"@ || pos == "left"@ || pos == "right"@) ==> {
            &&& position_anchors(pos)[0] == pos
            &&& position_anchors(pos).contains(pos)
            &&& position_anchors(pos)[1] != pos
            &&& position_anchors(pos)[2] != pos
        },
        !(pos == "bottom"@ || pos == "left"@ || pos == "right"@) ==> position_anchors(pos)[0] == "top"@,
{
    reveal_strlit("bottom");
    reveal_strlit("left");
    reveal_strlit("right");
    reveal_strlit("top");
    assert("bottom"@.len() == 6 && "left"@.len() == 4 && "right"@.len() == 5 && "top"@.len() == 3);
    if pos == "bottom"@ || pos == "left"@ || pos == "right"@ {
        assert(position_anchors(pos)[0] == pos);
    }
}

fn strs_to_strings(a: &str, b: &str, c: &str) -> (r: Vec<String>)
    ensures
        texts(r@) == seq![a@, b@, c@],
{
    let r = vec![String::from_str(a), String::from_str(b), String::from_str(c)];
    assert(texts(r@) =~= seq![a@, b@, c@]);
    r
}

/// The anchors for a window position.
pub fn anchors_from_position(pos: &str) -> (r: Vec<String>)
    ensures
        texts(r@) == position_anchors(pos@),
{
    if str_eq(pos, "bottom") {
        strs_to_strings("bottom", "left", "right")
    } else if str_eq(pos, "left") {
        strs_to_strings("left", "top", "bottom")
    } else if str_eq(pos, "right") {
        strs_to_strings("right", "top", "bottom")
    } else {
        strs_to_strings("top", "left", "right")
    }
}

/// The anchors of a sequence after `acc`: each must be a string.
pub open spec fn anchor_fold(s: Seq<LuaValue>, p: Seq<char>, acc: Seq<Seq<char>>) -> Result<
    Seq<Seq<char>>,
    ErrView,
>
    decreases s.len(),
{
    if s.len() == 0 {
        Ok(acc)
    } else {
        match s[0] {
            LuaValue::String(x) => match str_result(x) {
                Err(e) => Err(e),
                Ok(t) => anchor_fold(s.drop_first(), p, acc.push(t)),
            },
            _ => Err(ErrView::Runtime(p + "window.anchor table must contain only strings"@)),
        }
    }
}

/// A window's `anchor` value read as a list of edges, with `p` the location
/// prefix of its messages.
pub open spec fn anchor_list(v: LuaValue, p: Seq<char>) -> Result<Seq<Seq<char>>, ErrView> {
    match v {
        LuaValue::String(x) => match str_result(x) {
            Ok(t) => Ok(seq![t]),
            Err(e) => Err(e),
        },
        LuaValue::Table(t) => anchor_fold(t.sequence@, p, seq![]),
        _ => Err(
            ErrView::Runtime(p + "window.anchor must be a string or an array of strings"@),
        ),
    }
}

fn runtime_at(line: Option<i32>, msg: &str) -> (r: ConfigError)
    ensures
        r@ == ErrView::Runtime(line_prefix(line) + msg@),
{
    let mut m = format_line_prefix(line);
    m.append(msg);
    ConfigError::Runtime(m)
}

/// A window's `anchor` value read as a list of edges.
pub fn parse_anchor(v: &LuaValue, line: Option<i32>) -> (r: Result<Vec<String>, ConfigError>)
    ensures
        list_res(r) == anchor_list(*v, line_prefix(line)),
{
    let ghost p = line_prefix(line);
    match v {
        LuaValue::String(x) => {
            let t = read_str(x)?;
            let out = vec![t];
            assert(texts(out@) =~= seq![out@[0]@]);
            Ok(out)
        },
        LuaValue::Table(t) => {
            let items = &t.sequence;
            let mut out: Vec<String> = Vec::new();
            let mut i: usize = 0;
            assert(items@.skip(0) =~= items@);
            assert(texts(out@) =~= seq![]);
            while i < items.len()
                invariant
                    i <= items.len(),
                    p == line_prefix(line),
                    anchor_list(*v, p) == anchor_fold(items@, p, seq![]),
                    anchor_fold(items@, p, seq![]) == anchor_fold(
                        items@.skip(i as int),
                        p,
                        texts(out@),
                    ),
                decreases items.len() - i,
            {
                let ghost rest = items@.skip(i as int);
                assert(rest[0] == items@[i as int]);
                assert(rest.drop_first() =~= items@.skip(i + 1));
                match &items[i] {
                    LuaValue::String(x) => {
                        let a = read_str(x)?;
                        let ghost before = texts(out@);
                        out.push(a);
                        assert(texts(out@) =~= before.push(out@[out@.len() - 1]@));
                    },
                    _ => {
                        return Err(runtime_at(line, "window.anchor table must contain only strings"));
                    },
                }
                i += 1;
            }
            assert(items@.skip(i as int) =~= seq![]);
            Ok(out)
        },
        _ => Err(runtime_at(line, "window.anchor must be a string or an array of strings")),
    }
}

/// The output a window or widget is pinned to: a non-negative whole number
/// (as decimal text) or a name; nil is none.
pub open spec fn output_selector(t: LuaTable) -> Result<Option<Seq<char>>, ErrView> {
    let bad = ErrView::Runtime(
        line_prefix(line_of(t)) + "window.output must be a non-negative integer or string"@,
    );
    match lookup(t, "output"@) {
        LuaValue::Nil => Ok(None),
        LuaValue::Integer(i) => if i >= 0 {
            Ok(Some(decimal(i as nat)))
        } else {
            Err(bad)
        },
        LuaValue::Number(f) => match f.whole {
            Some(w) => Ok(Some(decimal(w as nat))),
            None => Err(bad),
        },
        LuaValue::String(x) => match str_result(x) {
            Ok(s) => Ok(Some(s)),
            Err(e) => Err(e),
        },
        _ => Err(bad),
    }
}

/// The view of an optional-text result.
pub open spec fn opt_text_res(r: Result<Option<String>, ConfigError>) -> Result<
    Option<Seq<char>>,
    ErrView,
> {
    match r {
        Ok(o) => Ok(opt_text(o)),
        Err(e) => Err(e@),
    }
}

/// The output a window or widget is pinned to.
pub fn parse_output_selector(t: &LuaTable) -> (r: Result<Option<String>, ConfigError>)
    ensures
        opt_text_res(r) == output_selector(*t),
{
    let line = widget_line(t);
    match field(t, "output") {
        None => Ok(None),
        Some(LuaValue::Nil) => Ok(None),
        Some(LuaValue::Integer(i)) => if *i >= 0 {
            Ok(Some(u64_to_string(*i as u64)))
        } else {
            Err(runtime_at(line, "window.output must be a non-negative integer or string"))
        },
        Some(LuaValue::Number(f)) => match f.whole {
            Some(w) => Ok(Some(u64_to_string(w))),
            None => Err(runtime_at(line, "window.output must be a non-negative integer or string")),
        },
        Some(LuaValue::String(x)) => {
            let s = read_str(x)?;
            Ok(Some(s))
        },
        Some(_) => Err(runtime_at(line, "window.output must be a non-negative integer or string")),
    }
}

/// What a click runs, as the contracts see it.
pub enum ActionView {
    Shell(Seq<char>),
    Callback(u64),
}

/// The view of a click action.
pub open spec fn action_view(a: ClickAction) -> ActionView {
    match a {
        ClickAction::Shell(s) => ActionView::Shell(s@),
        ClickAction::LuaCallback(id) => ActionView::Callback(id),
    }
}

/// The view of an optional click action.
pub open spec fn opt_action_view(a: Option<ClickAction>) -> Option<ActionView> {
    match a {
        Some(x) => Some(action_view(x)),
        None => None,
    }
}

/// The view of click bindings.
pub open spec fn click_view(b: ClickBindings<ClickAction>) -> ClickBindings<ActionView> {
    ClickBindings {
        left: opt_action_view(b.left),
        middle: opt_action_view(b.middle),
        right: opt_action_view(b.right),
        wheel_up: opt_action_view(b.wheel_up),
        wheel_down: opt_action_view(b.wheel_down),
    }
}

/// Bindings with nothing bound.
pub open spec fn unbound<T>() -> ClickBindings<T> {
    ClickBindings { left: None, middle: None, right: None, wheel_up: None, wheel_down: None }
}

/// Bindings with only the left button bound.
pub open spec fn left_only<T>(a: T) -> ClickBindings<T> {
    ClickBindings { left: Some(a), middle: None, right: None, wheel_up: None, wheel_down: None }
}

/// The names of the buttons and wheel directions a binding can name.
pub open spec fn button_named(key: Seq<char>) -> bool {
    key == "left"@ || key == "middle"@ || key == "right"@ || key == "wheel_up"@ || key
        == "wheel_down"@
}

/// Bindings with the button `key` set to `a`.
pub open spec fn with_button<T>(b: ClickBindings<T>, key: Seq<char>, a: Option<T>) -> ClickBindings<
    T,
> {
    if key == "left"@ {
        ClickBindings { left: a, ..b }
    } else if key == "middle"@ {
        ClickBindings { middle: a, ..b }
    } else if key == "right"@ {
        ClickBindings { right: a, ..b }
    } else if key == "wheel_up"@ {
        ClickBindings { wheel_up: a, ..b }
    } else if key == "wheel_down"@ {
        ClickBindings { wheel_down: a, ..b }
    } else {
        b
    }
}

/// Sets the button `key`, when it names one.
fn put_button<T>(b: &mut ClickBindings<T>, key: &str, a: Option<T>) -> (ok: bool)
    ensures
        ok == button_named(key@),
        ok ==> *final(b) == with_button(*old(b), key@, a),
        !ok ==> *final(b) == *old(b),
{
    if str_eq(key, "left") {
        b.left = a;
        true
    } else if str_eq(key, "middle") {
        b.middle = a;
        true
    } else if str_eq(key, "right") {
        b.right = a;
        true
    } else if str_eq(key, "wheel_up") {
        b.wheel_up = a;
        true
    } else if str_eq(key, "wheel_down") {
        b.wheel_down = a;
        true
    } else {
        false
    }
}

/// The Lua callbacks that click bindings register: the last number given
/// out, and each registered function with the number it was given.
#[derive(Debug)]
pub struct Callbacks {
    pub last: u64,
    pub registered: Vec<(u64, u64)>,
}

impl View for Callbacks {
    type V = (u64, Seq<(u64, u64)>);

    open spec fn view(&self) -> (u64, Seq<(u64, u64)>) {
        (self.last, self.registered@)
    }
}

/// The number after `n`, wrapping to zero.
pub open spec fn next_id(n: u64) -> u64 {
    if n == u64::MAX {
        0
    } else {
        (n + 1) as u64
    }
}

/// `c` after registering the function `f` under the next number.
pub open spec fn registered_with(c: (u64, Seq<(u64, u64)>), f: u64) -> (u64, Seq<(u64, u64)>) {
    (next_id(c.0), c.1.push((next_id(c.0), f)))
}

/// `d` holds every registration of `c`, and possibly more after them.
pub open spec fn extends(c: (u64, Seq<(u64, u64)>), d: (u64, Seq<(u64, u64)>)) -> bool {
    c.1.len() <= d.1.len() && d.1.subrange(0, c.1.len() as int) == c.1
}

impl Callbacks {
    /// No callbacks registered yet, with `last` the last number given out.
    pub fn new(last: u64) -> (r: Self)
        ensures
            r@ == (last, Seq::<(u64, u64)>::empty()),
    {
        Callbacks { last, registered: Vec::new() }
    }

    /// Registers the function `f` under the next number, and returns that
    /// number.
    pub fn register(&mut self, f: u64) -> (id: u64)
        ensures
            id == next_id(old(self)@.0),
            final(self)@ == registered_with(old(self)@, f),
    {
        let id = if self.last == u64::MAX {
            0
        } else {
            self.last + 1
        };
        self.last = id;
        self.registered.push((id, f));
        id
    }
}

/// A single click action: a shell command, or a function registered as a
/// callback.
pub open spec fn single_action(v: LuaValue, c: (u64, Seq<(u64, u64)>)) -> Result<
    (ActionView, (u64, Seq<(u64, u64)>)),
    ErrView,
> {
    match v {
        LuaValue::String(x) => match str_result(x) {
            Ok(t) => Ok((ActionView::Shell(t), c)),
            Err(e) => Err(e),
        },
        LuaValue::Function(f) => Ok((ActionView::Callback(next_id(c.0)), registered_with(c, f))),
        _ => Err(ErrView::Runtime("click action must be a shell command string or function"@)),
    }
}

/// The view of a click action result, with the callbacks after it.
pub open spec fn action_res(r: Result<ClickAction, ConfigError>, c: (u64, Seq<(u64, u64)>)) -> Result<
    (ActionView, (u64, Seq<(u64, u64)>)),
    ErrView,
> {
    match r {
        Ok(a) => Ok((action_view(a), c)),
        Err(e) => Err(e@),
    }
}

/// A single click action.
pub fn parse_single_click_action(v: &LuaValue, cbs: &mut Callbacks) -> (r: Result<
    ClickAction,
    ConfigError,
>)
    ensures
        action_res(r, final(cbs)@) == single_action(*v, old(cbs)@),
        r is Err ==> final(cbs)@ == old(cbs)@,
{
    match v {
        LuaValue::String(x) => {
            let s = read_str(x)?;
            Ok(ClickAction::Shell(s))
        },
        LuaValue::Function(f) => {
            let id = cbs.register(*f);
            Ok(ClickAction::LuaCallback(id))
        },
        _ => Err(
            ConfigError::Runtime(
                String::from_str("click action must be a shell command string or function"),
            ),
        ),
    }
}

/// The button a binding key names: a string, compared in lower case.
pub open spec fn binding_key(k: LuaValue, p: Seq<char>) -> Result<Seq<char>, ErrView> {
    match k {
        LuaValue::String(x) => match str_result(x) {
            Ok(t) => Ok(lower_seq(t)),
            Err(e) => Err(e),
        },
        _ => Err(ErrView::Runtime(p + "on_click table keys must be strings"@)),
    }
}

/// The message for a binding key that names no button.
pub open spec fn unsupported_key(p: Seq<char>, key: Seq<char>) -> ErrView {
    ErrView::Runtime(
        p + "on_click key '"@ + key + "' is unsupported; use left|middle|right|wheel_up|wheel_down"@,
    )
}

/// The action bound to one key of an `on_click` table.
pub open spec fn bound_action(v: LuaValue, p: Seq<char>, key: Seq<char>, c: (u64, Seq<(u64, u64)>)) -> Result<
    (Option<ActionView>, (u64, Seq<(u64, u64)>)),
    ErrView,
> {
    match v {
        LuaValue::Nil => Ok((None, c)),
        LuaValue::String(_) | LuaValue::Function(_) => match single_action(v, c) {
            Ok((a, d)) => Ok((Some(a), d)),
            Err(e) => Err(e),
        },
        _ => Err(
            ErrView::Runtime(
                p + "on_click."@ + key + " must be a shell command string or function() ... end"@,
            ),
        ),
    }
}

/// The bindings of the pairs of an `on_click` table, applied to `b` in order.
pub open spec fn click_fold(
    s: Seq<(LuaValue, LuaValue)>,
    p: Seq<char>,
    b: ClickBindings<ActionView>,
    c: (u64, Seq<(u64, u64)>),
) -> Result<(ClickBindings<ActionView>, (u64, Seq<(u64, u64)>)), ErrView>
    decreases s.len(),
{
    if s.len() == 0 {
        Ok((b, c))
    } else {
        match binding_key(s[0].0, p) {
            Err(e) => Err(e),
            Ok(key) => match bound_action(s[0].1, p, key, c) {
                Err(e) => Err(e),
                Ok((a, d)) => if button_named(key) {
                    click_fold(s.drop_first(), p, with_button(b, key, a), d)
                } else {
                    Err(unsupported_key(p, key))
                },
            },
        }
    }
}

/// A widget's `on_click` field: one action for the left button, or a table
/// of actions by button.
pub open spec fn on_click(t: LuaTable, c: (u64, Seq<(u64, u64)>)) -> Result<
    (ClickBindings<ActionView>, (u64, Seq<(u64, u64)>)),
    ErrView,
> {
    let p = line_prefix(line_of(t));
    let v = lookup(t, "on_click"@);
    match v {
        LuaValue::Nil => Ok((unbound(), c)),
        LuaValue::String(_) | LuaValue::Function(_) => match single_action(v, c) {
            Ok((a, d)) => Ok((left_only(a), d)),
            Err(e) => Err(e),
        },
        LuaValue::Table(m) => click_fold(m.pairs@, p, unbound(), c),
        _ => Err(
            ErrView::Runtime(
                p
                    + "on_click must be a shell command string, function() ... end, or a table of button bindings"@,
            ),
        ),
    }
}

/// The view of a click bindings result, with the callbacks after it.
pub open spec fn bindings_res(
    r: Result<ClickBindings<ClickAction>, ConfigError>,
    c: (u64, Seq<(u64, u64)>),
) -> Result<(ClickBindings<ActionView>, (u64, Seq<(u64, u64)>)), ErrView> {
    match r {
        Ok(b) => Ok((click_view(b), c)),
        Err(e) => Err(e@),
    }
}

fn read_binding_key(k: &LuaValue, line: Option<i32>) -> (r: Result<String, ConfigError>)
    ensures
        text_res(r) == binding_key(*k, line_prefix(line)),
{
    match k {
        LuaValue::String(x) => {
            let t = read_str(x)?;
            Ok(to_ascii_lowercase(t.as_str()))
        },
        _ => Err(runtime_at(line, "on_click table keys must be strings")),
    }
}

fn unsupported_key_error(line: Option<i32>, key: &str) -> (r: ConfigError)
    ensures
        r@ == unsupported_key(line_prefix(line), key@),
{
    let mut m = format_line_prefix(line);
    m.append("on_click key '");
    m.append(key);
    m.append("' is unsupported; use left|middle|right|wheel_up|wheel_down");
    ConfigError::Runtime(m)
}

fn key_message(line: Option<i32>, key: &str, what: &str) -> (r: ConfigError)
    ensures
        r@ == ErrView::Runtime(line_prefix(line) + "on_click."@ + key@ + what@),
{
    let mut m = format_line_prefix(line);
    m.append("on_click.");
    m.append(key);
    m.append(what);
    ConfigError::Runtime(m)
}

/// A widget's `on_click` field, registering each function it binds.
pub fn parse_on_click_bindings(t: &LuaTable, cbs: &mut Callbacks) -> (r: Result<
    ClickBindings<ClickAction>,
    ConfigError,
>)
    ensures
        bindings_res(r, final(cbs)@) == on_click(*t, old(cbs)@),
        extends(old(cbs)@, final(cbs)@),
{
    let line = widget_line(t);
    let ghost p = line_prefix(line);
    assert(old(cbs)@.1.subrange(0, old(cbs)@.1.len() as int) =~= old(cbs)@.1);
    match field(t, "on_click") {
        None | Some(LuaValue::Nil) => Ok(ClickBindings::none()),
        Some(v @ LuaValue::String(_)) | Some(v @ LuaValue::Function(_)) => {
            let a = parse_single_click_action(v, cbs)?;
            proof {
                assert(cbs@.1.subrange(0, old(cbs)@.1.len() as int) =~= old(cbs)@.1);
            }
            Ok(ClickBindings { left: Some(a), middle: None, right: None, wheel_up: None, wheel_down: None })
        },
        Some(LuaValue::Table(m)) => {
            let items = &m.pairs;
            let mut out: ClickBindings<ClickAction> = ClickBindings::none();
            let mut i: usize = 0;
            assert(items@.skip(0) =~= items@);
            assert(click_view(out) == unbound::<ActionView>());
            while i < items.len()
                invariant
                    i <= items.len(),
                    p == line_prefix(line),
                    on_click(*t, old(cbs)@) == click_fold(items@, p, unbound(), old(cbs)@),
                    click_fold(items@, p, unbound(), old(cbs)@) == click_fold(
                        items@.skip(i as int),
                        p,
                        click_view(out),
                        cbs@,
                    ),
                    extends(old(cbs)@, cbs@),
                decreases items.len() - i,
            {
                let ghost rest = items@.skip(i as int);
                let ghost c0 = cbs@;
                assert(rest[0] == items@[i as int]);
                assert(rest.drop_first() =~= items@.skip(i + 1));
                let key = read_binding_key(&items[i].0, line)?;
                let raw = &items[i].1;
                let parsed: Option<ClickAction> = match raw {
                    LuaValue::Nil => None,
                    LuaValue::String(_) | LuaValue::Function(_) => {
                        let a = parse_single_click_action(raw, cbs)?;
                        Some(a)
                    },
                    _ => {
                        return Err(
                            key_message(
                                line,
                                key.as_str(),
                                " must be a shell command string or function() ... end",
                            ),
                        );
                    },
                };
                proof {
                    assert(cbs@.1.subrange(0, old(cbs)@.1.len() as int) =~= old(cbs)@.1);
                }
                let ghost before = out;
                let ghost pv = opt_action_view(parsed);
                if !put_button(&mut out, key.as_str(), parsed) {
                    return Err(unsupported_key_error(line, key.as_str()));
                }
                assert(click_view(out) == with_button(click_view(before), key@, pv));
                i += 1;
            }
            assert(items@.skip(i as int) =~= seq![]);
            Ok(out)
        },
        Some(_) => Err(
            runtime_at(
                line,
                "on_click must be a shell command string, function() ... end, or a table of button bindings",
            ),
        ),
    }
}

/// A dock action name, read without surrounding whitespace or case.
pub open spec fn dock_action(s: Seq<char>, line: Option<i32>) -> Result<DockClickAction, ErrView> {
    match dock_action_named(lower_seq(trim(s))) {
        Some(a) => Ok(a),
        None => Err(ErrView::Runtime(bad_dock_action_message(line, lower_seq(trim(s))))),
    }
}

/// The dock action bound to one key of an `on_click` table; nil is no action.
pub open spec fn bound_dock_action(v: LuaValue, p: Seq<char>, line: Option<i32>, key: Seq<char>) -> Result<
    Option<DockClickAction>,
    ErrView,
> {
    match v {
        LuaValue::Nil => Ok(Some(DockClickAction::NoAction)),
        LuaValue::String(x) => match str_result(x) {
            Err(e) => Err(e),
            Ok(t) => match dock_action(t, line) {
                Ok(a) => Ok(Some(a)),
                Err(e) => Err(e),
            },
        },
        _ => Err(ErrView::Runtime(p + "on_click."@ + key + " must be a dock action string"@)),
    }
}

/// The dock bindings of the pairs of an `on_click` table, applied to `b` in
/// order.
pub open spec fn dock_fold(
    s: Seq<(LuaValue, LuaValue)>,
    p: Seq<char>,
    line: Option<i32>,
    b: ClickBindings<DockClickAction>,
) -> Result<ClickBindings<DockClickAction>, ErrView>
    decreases s.len(),
{
    if s.len() == 0 {
        Ok(b)
    } else {
        match binding_key(s[0].0, p) {
            Err(e) => Err(e),
            Ok(key) => match bound_dock_action(s[0].1, p, line, key) {
                Err(e) => Err(e),
                Ok(a) => if button_named(key) {
                    dock_fold(s.drop_first(), p, line, with_button(b, key, a))
                } else {
                    Err(unsupported_key(p, key))
                },
            },
        }
    }
}

/// A dock's `on_click` field: the left button activates unless the
/// configuration says otherwise.
pub open spec fn dock_on_click(t: LuaTable) -> Result<ClickBindings<DockClickAction>, ErrView> {
    let line = line_of(t);
    let p = line_prefix(line);
    match lookup(t, "on_click"@) {
        LuaValue::Nil => Ok(left_only(DockClickAction::Activate)),
        LuaValue::String(x) => match str_result(x) {
            Err(e) => Err(e),
            Ok(s) => match dock_action(s, line) {
                Ok(a) => Ok(left_only(a)),
                Err(e) => Err(e),
            },
        },
        LuaValue::Table(m) => dock_fold(m.pairs@, p, line, left_only(DockClickAction::Activate)),
        _ => Err(ErrView::Runtime(p + "on_click for dock must be a string action or table"@)),
    }
}

/// The view of a dock bindings result.
pub open spec fn dock_res(r: Result<ClickBindings<DockClickAction>, ConfigError>) -> Result<
    ClickBindings<DockClickAction>,
    ErrView,
> {
    match r {
        Ok(b) => Ok(b),
        Err(e) => Err(e@),
    }
}

fn read_dock_action(s: &str, line: Option<i32>) -> (r: Result<DockClickAction, ConfigError>)
    ensures
        dock_res_one(r) == dock_action(s@, line),
{
    match parse_dock_click_action(s, line) {
        Ok(a) => Ok(a),
        Err(m) => Err(ConfigError::Runtime(m)),
    }
}

/// The view of a dock action result.
pub open spec fn dock_res_one(r: Result<DockClickAction, ConfigError>) -> Result<
    DockClickAction,
    ErrView,
> {
    match r {
        Ok(a) => Ok(a),
        Err(e) => Err(e@),
    }
}

fn dock_left(a: DockClickAction) -> (r: ClickBindings<DockClickAction>)
    ensures
        r == left_only(a),
{
    ClickBindings { left: Some(a), middle: None, right: None, wheel_up: None, wheel_down: None }
}

/// A dock's `on_click` field.
pub fn parse_dock_click_bindings(t: &LuaTable) -> (r: Result<
    ClickBindings<DockClickAction>,
    ConfigError,
>)
    ensures
        dock_res(r) == dock_on_click(*t),
{
    let line = widget_line(t);
    let ghost p = line_prefix(line);
    match field(t, "on_click") {
        None | Some(LuaValue::Nil) => Ok(dock_left(DockClickAction::Activate)),
        Some(LuaValue::String(x)) => {
            let s = read_str(x)?;
            let a = read_dock_action(s.as_str(), line)?;
            Ok(dock_left(a))
        },
        Some(LuaValue::Table(m)) => {
            let items = &m.pairs;
            let mut out = dock_left(DockClickAction::Activate);
            let mut i: usize = 0;
            assert(items@.skip(0) =~= items@);
            while i < items.len()
                invariant
                    i <= items.len(),
                    p == line_prefix(line),
                    dock_on_click(*t) == dock_fold(
                        items@,
                        p,
                        line,
                        left_only(DockClickAction::Activate),
                    ),
                    dock_fold(items@, p, line, left_only(DockClickAction::Activate)) == dock_fold(
                        items@.skip(i as int),
                        p,
                        line,
                        out,
                    ),
                decreases items.len() - i,
            {
                let ghost rest = items@.skip(i as int);
                assert(rest[0] == items@[i as int]);
                assert(rest.drop_first() =~= items@.skip(i + 1));
                let key = read_binding_key(&items[i].0, line)?;
                let parsed: Option<DockClickAction> = match &items[i].1 {
                    LuaValue::Nil => Some(DockClickAction::NoAction),
                    LuaValue::String(x) => {
                        let s = read_str(x)?;
                        let a = read_dock_action(s.as_str(), line)?;
                        Some(a)
                    },
                    _ => {
                        return Err(key_message(line, key.as_str(), " must be a dock action string"));
                    },
                };
                if !put_button(&mut out, key.as_str(), parsed) {
                    return Err(unsupported_key_error(line, key.as_str()));
                }
                i += 1;
            }
            assert(items@.skip(i as int) =~= seq![]);
            Ok(out)
        },
        Some(_) => Err(runtime_at(line, "on_click for dock must be a string action or table")),
    }
}

/// The field `name` of `t`, read as text into `r`.
pub open spec fn reads_text(r: Option<String>, t: LuaTable, name: Seq<char>) -> bool {
    opt_text(r) == as_text(lookup(t, name))
}

/// The style a rule applies, read from the rule's table.
pub open spec fn style_read(s: RichTextStyle, t: LuaTable) -> bool {
    &&& reads_text(s.format, t, "format"@)
    &&& reads_text(s.class_name, t, "class"@)
    &&& reads_text(s.color, t, "color"@)
    &&& reads_text(s.background, t, "background"@)
    &&& reads_text(s.weight, t, "weight"@)
    &&& reads_text(s.style, t, "style"@)
    &&& reads_text(s.underline, t, "underline"@)
    &&& reads_text(s.font, t, "font"@)
    &&& reads_text(s.size, t, "size"@)
    &&& reads_text(s.rise, t, "rise"@)
    &&& reads_text(s.alpha, t, "alpha"@)
    &&& s.strikethrough == as_opt_bool(lookup(t, "strikethrough"@))
}

/// A rich-text rule, read from its table.
pub open spec fn rule_read(r: RichFormatRule, t: LuaTable) -> bool {
    &&& reads_text(r.target, t, "target"@)
    &&& reads_text(r.token, t, "token"@)
    &&& reads_text(r.pattern, t, "match"@)
    &&& r.min == as_number(lookup(t, "min"@))
    &&& r.max == as_number(lookup(t, "max"@))
    &&& style_read(r.style, t)
}

/// An icon rule, read from its table.
pub open spec fn iconify_read(r: IconifyRule, t: LuaTable) -> bool {
    &&& reads_text(r.class, t, "class"@)
    &&& reads_text(r.title, t, "title"@)
    &&& reads_text(r.icon, t, "icon"@)
    &&& reads_text(r.text, t, "text"@)
}

/// The tables among a sequence of values, in order.
pub open spec fn tables_in(s: Seq<LuaValue>) -> Seq<LuaTable>
    decreases s.len(),
{
    if s.len() == 0 {
        seq![]
    } else {
        match s[0] {
            LuaValue::Table(t) => seq![t] + tables_in(s.drop_first()),
            _ => tables_in(s.drop_first()),
        }
    }
}

/// The tables of a value's sequence; none when it is not a table.
pub open spec fn rule_tables(v: LuaValue) -> Seq<LuaTable> {
    match v {
        LuaValue::Table(t) => tables_in(t.sequence@),
        _ => seq![],
    }
}

/// Rich-text rules, one for each table in the sequence of `v`.
pub open spec fn rules_read(rs: Seq<RichFormatRule>, v: LuaValue) -> bool {
    let ts = rule_tables(v);
    rs.len() == ts.len() && forall|i: int| 0 <= i < rs.len() ==> rule_read(#[trigger] rs[i], ts[i])
}

/// Icon rules, one for each table in the sequence of `v`.
pub open spec fn iconify_rules_read(rs: Seq<IconifyRule>, v: LuaValue) -> bool {
    let ts = rule_tables(v);
    rs.len() == ts.len() && forall|i: int|
        0 <= i < rs.len() ==> iconify_read(#[trigger] rs[i], ts[i])
}

fn parse_rich_text_style(t: &LuaTable) -> (r: RichTextStyle)
    ensures
        style_read(r, *t),
{
    RichTextStyle {
        format: get_text(t, "format"),
        class_name: get_text(t, "class"),
        color: get_text(t, "color"),
        background: get_text(t, "background"),
        weight: get_text(t, "weight"),
        style: get_text(t, "style"),
        underline: get_text(t, "underline"),
        font: get_text(t, "font"),
        size: get_text(t, "size"),
        rise: get_text(t, "rise"),
        alpha: get_text(t, "alpha"),
        strikethrough: get_opt_bool(t, "strikethrough"),
    }
}

fn parse_rich_rule(t: &LuaTable) -> (r: RichFormatRule)
    ensures
        rule_read(r, *t),
{
    RichFormatRule {
        target: get_text(t, "target"),
        token: get_text(t, "token"),
        pattern: get_text(t, "match"),
        min: get_number(t, "min"),
        max: get_number(t, "max"),
        style: parse_rich_text_style(t),
    }
}

fn parse_iconify_rule(t: &LuaTable) -> (r: IconifyRule)
    ensures
        iconify_read(r, *t),
{
    IconifyRule {
        class: get_text(t, "class"),
        title: get_text(t, "title"),
        icon: get_text(t, "icon"),
        text: get_text(t, "text"),
    }
}

proof fn lemma_tables_step(s: Seq<LuaValue>, i: int)
    requires
        0 <= i < s.len(),
    ensures
        tables_in(s.skip(i)) == (match s[i] {
            LuaValue::Table(t) => seq![t],
            _ => seq![],
        }) + tables_in(s.skip(i + 1)),
{
    let rest = s.skip(i);
    assert(rest[0] == s[i]);
    assert(rest.drop_first() =~= s.skip(i + 1));
    match s[i] {
        LuaValue::Table(t) => {},
        _ => {
            assert(seq![] + tables_in(s.skip(i + 1)) =~= tables_in(s.skip(i + 1)));
        },
    }
}

/// The rich-text rules of a value: one for each table in its sequence.
pub fn parse_rich_rules(v: &LuaValue) -> (r: Vec<RichFormatRule>)
    ensures
        rules_read(r@, *v),
{
    let mut out: Vec<RichFormatRule> = Vec::new();
    match v {
        LuaValue::Table(t) => {
            let items = &t.sequence;
            let ghost all = tables_in(items@);
            let ghost mut done: Seq<LuaTable> = seq![];
            let mut i: usize = 0;
            assert(items@.skip(0) =~= items@);
            while i < items.len()
                invariant
                    i <= items.len(),
                    rule_tables(*v) == all,
                    all == done + tables_in(items@.skip(i as int)),
                    out@.len() == done.len(),
                    forall|j: int| 0 <= j < out@.len() ==> rule_read(#[trigger] out@[j], done[j]),
                decreases items.len() - i,
            {
                proof {
                    lemma_tables_step(items@, i as int);
                }
                match &items[i] {
                    LuaValue::Table(rt) => {
                        let rule = parse_rich_rule(rt);
                        out.push(rule);
                        proof {
                            assert(done + tables_in(items@.skip(i as int)) =~= done.push(*rt)
                                + tables_in(items@.skip(i + 1)));
                            done = done.push(*rt);
                        }
                    },
                    _ => {
                        assert(done + tables_in(items@.skip(i as int)) =~= done + tables_in(
                            items@.skip(i + 1),
                        ));
                    },
                }
                i += 1;
            }
            assert(items@.skip(i as int) =~= seq![]);
            assert(done + tables_in(items@.skip(i as int)) =~= done);
            out
        },
        _ => out,
    }
}

/// The icon rules of a value: one for each table in its sequence.
pub fn parse_iconify_rules(v: &LuaValue) -> (r: Vec<IconifyRule>)
    ensures
        iconify_rules_read(r@, *v),
{
    let mut out: Vec<IconifyRule> = Vec::new();
    match v {
        LuaValue::Table(t) => {
            let items = &t.sequence;
            let ghost all = tables_in(items@);
            let ghost mut done: Seq<LuaTable> = seq![];
            let mut i: usize = 0;
            assert(items@.skip(0) =~= items@);
            while i < items.len()
                invariant
                    i <= items.len(),
                    rule_tables(*v) == all,
                    all == done + tables_in(items@.skip(i as int)),
                    out@.len() == done.len(),
                    forall|j: int|
                        0 <= j < out@.len() ==> iconify_read(#[trigger] out@[j], done[j]),
                decreases items.len() - i,
            {
                proof {
                    lemma_tables_step(items@, i as int);
                }
                match &items[i] {
                    LuaValue::Table(rt) => {
                        let rule = parse_iconify_rule(rt);
                        out.push(rule);
                        proof {
                            assert(done + tables_in(items@.skip(i as int)) =~= done.push(*rt)
                                + tables_in(items@.skip(i + 1)));
                            done = done.push(*rt);
                        }
                    },
                    _ => {
                        assert(done + tables_in(items@.skip(i as int)) =~= done + tables_in(
                            items@.skip(i + 1),
                        ));
                    },
                }
                i += 1;
            }
            assert(items@.skip(i as int) =~= seq![]);
            assert(done + tables_in(items@.skip(i as int)) =~= done);
            out
        },
        _ => out,
    }
}

/// The field `name` read as rich-text rules.
pub fn parse_rules_field(t: &LuaTable, name: &str) -> (r: Vec<RichFormatRule>)
    ensures
        rules_read(r@, lookup(*t, name@)),
{
    match field(t, name) {
        Some(v) => parse_rich_rules(v),
        None => parse_rich_rules(&LuaValue::Nil),
    }
}

/// The field `name` read as icon rules.
pub fn parse_iconify_rules_field(t: &LuaTable, name: &str) -> (r: Vec<IconifyRule>)
    ensures
        iconify_rules_read(r@, lookup(*t, name@)),
{
    match field(t, name) {
        Some(v) => parse_iconify_rules(v),
        None => parse_iconify_rules(&LuaValue::Nil),
    }
}

/// `r`'s error, or else `next`.
pub open spec fn first_err<A>(r: Result<A, ErrView>, next: Result<(u64, Seq<(u64, u64)>), ErrView>) -> Result<
    (u64, Seq<(u64, u64)>),
    ErrView,
> {
    match r {
        Err(e) => Err(e),
        Ok(_) => next,
    }
}

/// The view of a parse result: the callbacks after it, or its error.
pub open spec fn run_res<A>(r: Result<A, ConfigError>, c: (u64, Seq<(u64, u64)>)) -> Result<
    (u64, Seq<(u64, u64)>),
    ErrView,
> {
    match r {
        Ok(_) => Ok(c),
        Err(e) => Err(e@),
    }
}

/// The callbacks after reading a widget's `on_click` field, or its error.
pub open spec fn click_after(t: LuaTable, c: (u64, Seq<(u64, u64)>)) -> Result<
    (u64, Seq<(u64, u64)>),
    ErrView,
> {
    match on_click(t, c) {
        Ok((_, d)) => Ok(d),
        Err(e) => Err(e),
    }
}

/// The bindings a widget's `on_click` field reads as.
pub open spec fn click_bound(t: LuaTable, c: (u64, Seq<(u64, u64)>)) -> Option<
    ClickBindings<ActionView>,
> {
    match on_click(t, c) {
        Ok((b, _)) => Some(b),
        Err(_) => None,
    }
}

pub open spec fn box_read(b: BoxProps, t: LuaTable) -> bool {
    b.spacing == as_i32(lookup(t, "spacing"@))
}

pub open spec fn revealer_read(r: RevealerProps, t: LuaTable) -> bool {
    &&& r.reveal == as_opt_bool(lookup(t, "reveal"@))
    &&& reads_text(r.reveal_bind, t, "reveal_bind"@)
    &&& reads_text(r.transition, t, "transition"@)
    &&& r.duration == as_u32(lookup(t, "duration"@))
}

pub open spec fn scroll_read(s: ScrollProps, t: LuaTable) -> bool {
    &&& reads_text(s.h_policy, t, "h_policy"@)
    &&& reads_text(s.v_policy, t, "v_policy"@)
    &&& s.overlay_scrolling == as_opt_bool(lookup(t, "overlay_scrolling"@))
    &&& s.kinetic_scrolling == as_opt_bool(lookup(t, "kinetic_scrolling"@))
    &&& s.propagate_natural_width == as_opt_bool(lookup(t, "propagate_natural_width"@))
    &&& s.propagate_natural_height == as_opt_bool(lookup(t, "propagate_natural_height"@))
    &&& s.min_content_width == as_i32(lookup(t, "min_content_width"@))
    &&& s.min_content_height == as_i32(lookup(t, "min_content_height"@))
}

pub open spec fn list_read(l: ListProps, t: LuaTable) -> bool {
    &&& reads_text(l.bind, t, "bind"@)
    &&& l.count == as_u32(lookup(t, "count"@))
    &&& reads_text(l.orientation, t, "orientation"@)
    &&& l.spacing == as_i32(lookup(t, "spacing"@))
}

pub open spec fn popover_read(p: PopoverProps, t: LuaTable) -> bool {
    &&& reads_text(p.position, t, "position"@)
    &&& p.autohide == as_opt_bool(lookup(t, "autohide"@))
    &&& p.has_arrow == as_opt_bool(lookup(t, "has_arrow"@))
}

pub open spec fn label_run(t: LuaTable, c: (u64, Seq<(u64, u64)>)) -> Result<
    (u64, Seq<(u64, u64)>),
    ErrView,
> {
    first_err(
        map_field(t, "binds"@),
        match click_after(t, c) {
            Err(e) => Err(e),
            Ok(d) => first_err(map_field(t, "format_states"@), Ok(d)),
        },
    )
}

pub open spec fn label_read(l: LabelProps, t: LuaTable, c: (u64, Seq<(u64, u64)>)) -> bool {
    &&& reads_text(l.text, t, "text"@)
    &&& reads_text(l.bind, t, "bind"@)
    &&& map_field(t, "binds"@) == Ok::<_, ErrView>(text_pairs_view(l.binds@))
    &&& click_bound(t, c) == Some(click_view(l.on_click))
    &&& reads_text(l.format, t, "format"@)
    &&& map_field(t, "format_states"@) == Ok::<_, ErrView>(text_pairs_view(l.format_states@))
    &&& rules_read(l.rules@, lookup(t, "rules"@))
    &&& l.max_chars == as_i32(lookup(t, "max_chars"@))
    &&& reads_text(l.ellipsize, t, "ellipsize"@)
}

pub open spec fn button_run(t: LuaTable, c: (u64, Seq<(u64, u64)>)) -> Result<
    (u64, Seq<(u64, u64)>),
    ErrView,
> {
    match click_after(t, c) {
        Err(e) => Err(e),
        Ok(d) => first_err(map_field(t, "format_states"@), Ok(d)),
    }
}

pub open spec fn button_read(b: ButtonProps, t: LuaTable, c: (u64, Seq<(u64, u64)>)) -> bool {
    &&& reads_text(b.text, t, "text"@)
    &&& reads_text(b.bind, t, "bind"@)
    &&& click_bound(t, c) == Some(click_view(b.on_click))
    &&& reads_text(b.format, t, "format"@)
    &&& map_field(t, "format_states"@) == Ok::<_, ErrView>(text_pairs_view(b.format_states@))
    &&& b.angle == as_number(lookup(t, "angle"@))
}

pub open spec fn clock_run(t: LuaTable, c: (u64, Seq<(u64, u64)>)) -> Result<
    (u64, Seq<(u64, u64)>),
    ErrView,
> {
    first_err(map_field(t, "format_states"@), Ok(c))
}

pub open spec fn clock_read(k: ClockProps, t: LuaTable) -> bool {
    &&& reads_text(k.format, t, "format"@)
    &&& reads_text(k.display_format, t, "display_format"@)
    &&& map_field(t, "format_states"@) == Ok::<_, ErrView>(text_pairs_view(k.format_states@))
    &&& k.interval == as_u64(lookup(t, "interval"@))
    &&& reads_text(k.bind, t, "bind"@)
    &&& k.spacing == as_i32(lookup(t, "spacing"@))
    &&& k.angle == as_number(lookup(t, "angle"@))
}

pub open spec fn workspaces_run(t: LuaTable, c: (u64, Seq<(u64, u64)>)) -> Result<
    (u64, Seq<(u64, u64)>),
    ErrView,
> {
    first_err(
        output_selector(t),
        first_err(
            map_field(t, "format_states"@),
            first_err(
                list_field(t, "labels"@),
                first_err(
                    string_list_map(lookup(t, "state_labels"@)),
                    first_err(map_field(t, "format_icons"@), Ok(c)),
                ),
            ),
        ),
    )
}

pub open spec fn workspaces_read(w: WorkspacesProps, t: LuaTable) -> bool {
    &&& w.count == as_u32(lookup(t, "count"@))
    &&& w.active_only == as_opt_bool(lookup(t, "active_only"@))
    &&& w.all_outputs == as_opt_bool(lookup(t, "all_outputs"@))
    &&& output_selector(t) == Ok::<_, ErrView>(opt_text(w.output))
    &&& reads_text(w.orientation, t, "orientation"@)
    &&& w.spacing == as_i32(lookup(t, "spacing"@))
    &&& reads_text(w.format, t, "format"@)
    &&& map_field(t, "format_states"@) == Ok::<_, ErrView>(text_pairs_view(w.format_states@))
    &&& list_field(t, "labels"@) == Ok::<_, ErrView>(texts(w.labels@))
    &&& string_list_map(lookup(t, "state_labels"@)) == Ok::<_, ErrView>(
        list_pairs_view(w.state_labels@),
    )
    &&& map_field(t, "format_icons"@) == Ok::<_, ErrView>(text_pairs_view(w.format_icons@))
    &&& w.show_clients == as_opt_bool(lookup(t, "show_clients"@))
    &&& w.clients_max_items == as_u32(lookup(t, "clients_max_items"@))
    &&& w.clients_icon_size == as_i32(lookup(t, "clients_icon_size"@))
    &&& iconify_rules_read(w.clients_rules@, lookup(t, "clients_rules"@))
    &&& w.clients_use_glyphs == as_opt_bool(lookup(t, "clients_use_glyphs"@))
    &&& reads_text(w.clients_glyph_fallback, t, "clients_glyph_fallback"@)
    &&& w.clients_spacing == as_i32(lookup(t, "clients_spacing"@))
    &&& w.angle == as_number(lookup(t, "angle"@))
}

pub open spec fn dock_run(t: LuaTable, c: (u64, Seq<(u64, u64)>)) -> Result<
    (u64, Seq<(u64, u64)>),
    ErrView,
> {
    first_err(
        output_selector(t),
        first_err(
            map_field(t, "format_states"@),
            first_err(map_field(t, "image_map"@), first_err(dock_on_click(t), Ok(c))),
        ),
    )
}

pub open spec fn dock_read(d: DockProps, t: LuaTable) -> bool {
    &&& reads_text(d.orientation, t, "orientation"@)
    &&& output_selector(t) == Ok::<_, ErrView>(opt_text(d.output))
    &&& d.all_outputs == as_opt_bool(lookup(t, "all_outputs"@))
    &&& d.spacing == as_i32(lookup(t, "spacing"@))
    &&& d.max_items == as_u32(lookup(t, "max_items"@))
    &&& reads_text(d.format, t, "format"@)
    &&& map_field(t, "format_states"@) == Ok::<_, ErrView>(text_pairs_view(d.format_states@))
    &&& map_field(t, "image_map"@) == Ok::<_, ErrView>(text_pairs_view(d.image_map@))
    &&& d.icon_size == as_i32(lookup(t, "icon_size"@))
    &&& dock_on_click(t) == Ok::<_, ErrView>(d.on_click)
    &&& d.angle == as_number(lookup(t, "angle"@))
}

pub open spec fn tray_read(r: TrayProps, t: LuaTable) -> bool {
    &&& reads_text(r.orientation, t, "orientation"@)
    &&& r.spacing == as_i32(lookup(t, "spacing"@))
    &&& r.icon_size == as_i32(lookup(t, "icon_size"@))
    &&& r.max_items == as_u32(lookup(t, "max_items"@))
    &&& r.show_passive == as_opt_bool(lookup(t, "show_passive"@))
    &&& r.hide_when_empty == as_opt_bool(lookup(t, "hide_when_empty"@))
}

pub open spec fn image_read(i: ImageProps, t: LuaTable, c: (u64, Seq<(u64, u64)>)) -> bool {
    &&& reads_text(i.path, t, "path"@)
    &&& reads_text(i.bind, t, "bind"@)
    &&& reads_text(i.fit, t, "fit"@)
    &&& i.can_shrink == as_opt_bool(lookup(t, "can_shrink"@))
    &&& click_bound(t, c) == Some(click_view(i.on_click))
}

pub open spec fn progress_read(p: ProgressProps, t: LuaTable) -> bool {
    &&& reads_text(p.bind, t, "bind"@)
    &&& p.value == as_number(lookup(t, "value"@))
    &&& p.min == as_number(lookup(t, "min"@))
    &&& p.max == as_number(lookup(t, "max"@))
    &&& p.inverted == as_opt_bool(lookup(t, "inverted"@))
}

pub open spec fn slider_read(s: SliderProps, t: LuaTable) -> bool {
    &&& reads_text(s.bind, t, "bind"@)
    &&& s.value == as_number(lookup(t, "value"@))
    &&& s.min == as_number(lookup(t, "min"@))
    &&& s.max == as_number(lookup(t, "max"@))
    &&& s.step == as_number(lookup(t, "step"@))
    &&& s.scroll_step == as_number(lookup(t, "scroll_step"@))
    &&& reads_text(s.orientation, t, "orientation"@)
    &&& s.inverted == as_opt_bool(lookup(t, "inverted"@))
    &&& s.draw_value == as_opt_bool(lookup(t, "draw_value"@))
    &&& s.digits == as_i32(lookup(t, "digits"@))
}

/// Reading the properties of a widget of kind `k`: the callbacks after it,
/// or its first error.
pub open spec fn props_run(k: WidgetKind, t: LuaTable, c: (u64, Seq<(u64, u64)>)) -> Result<
    (u64, Seq<(u64, u64)>),
    ErrView,
> {
    match k {
        WidgetKind::Label => label_run(t, c),
        WidgetKind::Button => button_run(t, c),
        WidgetKind::Clock => clock_run(t, c),
        WidgetKind::Workspaces => workspaces_run(t, c),
        WidgetKind::Dock => dock_run(t, c),
        WidgetKind::Image => click_after(t, c),
        _ => Ok(c),
    }
}

/// The properties of a widget of kind `k`, read from its table.
pub open spec fn props_read(p: WidgetProps, k: WidgetKind, t: LuaTable, c: (u64, Seq<(u64, u64)>)) -> bool {
    match p {
        WidgetProps::HBox(b) => k == WidgetKind::HBox && box_read(b, t),
        WidgetProps::VBox(b) => k == WidgetKind::VBox && box_read(b, t),
        WidgetProps::CenterBox(b) => k == WidgetKind::CenterBox && box_read(b, t),
        WidgetProps::Revealer(r) => k == WidgetKind::Revealer && revealer_read(r, t),
        WidgetProps::Scroll(s) => k == WidgetKind::Scroll && scroll_read(s, t),
        WidgetProps::Overlay(_) => k == WidgetKind::Overlay,
        WidgetProps::List(l) => k == WidgetKind::List && list_read(l, t),
        WidgetProps::Popover(p) => k == WidgetKind::Popover && popover_read(p, t),
        WidgetProps::Label(l) => k == WidgetKind::Label && label_read(l, t, c),
        WidgetProps::Button(b) => k == WidgetKind::Button && button_read(b, t, c),
        WidgetProps::Clock(x) => k == WidgetKind::Clock && clock_read(x, t),
        WidgetProps::Workspaces(w) => k == WidgetKind::Workspaces && workspaces_read(w, t),
        WidgetProps::Dock(d) => k == WidgetKind::Dock && dock_read(d, t),
        WidgetProps::Tray(r) => k == WidgetKind::Tray && tray_read(r, t),
        WidgetProps::Image(i) => k == WidgetKind::Image && image_read(i, t, c),
        WidgetProps::Progress(p) => k == WidgetKind::Progress && progress_read(p, t),
        WidgetProps::Slider(s) => k == WidgetKind::Slider && slider_read(s, t),
    }
}

fn parse_box_props(t: &LuaTable) -> (r: BoxProps)
    ensures
        box_read(r, *t),
{
    BoxProps { spacing: get_i32(t, "spacing") }
}

fn parse_revealer_props(t: &LuaTable) -> (r: RevealerProps)
    ensures
        revealer_read(r, *t),
{
    RevealerProps {
        reveal: get_opt_bool(t, "reveal"),
        reveal_bind: get_text(t, "reveal_bind"),
        transition: get_text(t, "transition"),
        duration: get_u32(t, "duration"),
    }
}

fn parse_scroll_props(t: &LuaTable) -> (r: ScrollProps)
    ensures
        scroll_read(r, *t),
{
    ScrollProps {
        h_policy: get_text(t, "h_policy"),
        v_policy: get_text(t, "v_policy"),
        overlay_scrolling: get_opt_bool(t, "overlay_scrolling"),
        kinetic_scrolling: get_opt_bool(t, "kinetic_scrolling"),
        propagate_natural_width: get_opt_bool(t, "propagate_natural_width"),
        propagate_natural_height: get_opt_bool(t, "propagate_natural_height"),
        min_content_width: get_i32(t, "min_content_width"),
        min_content_height: get_i32(t, "min_content_height"),
    }
}

fn parse_list_props(t: &LuaTable) -> (r: ListProps)
    ensures
        list_read(r, *t),
{
    ListProps {
        bind: get_text(t, "bind"),
        count: get_u32(t, "count"),
        orientation: get_text(t, "orientation"),
        spacing: get_i32(t, "spacing"),
    }
}

fn parse_popover_props(t: &LuaTable) -> (r: PopoverProps)
    ensures
        popover_read(r, *t),
{
    PopoverProps {
        position: get_text(t, "position"),
        autohide: get_opt_bool(t, "autohide"),
        has_arrow: get_opt_bool(t, "has_arrow"),
    }
}

fn parse_label_props(t: &LuaTable, cbs: &mut Callbacks) -> (r: Result<LabelProps, ConfigError>)
    ensures
        run_res(r, final(cbs)@) == label_run(*t, old(cbs)@),
        r matches Ok(l) ==> label_read(l, *t, old(cbs)@),
        extends(old(cbs)@, final(cbs)@),
{
    proof {
        assert(old(cbs)@.1.subrange(0, old(cbs)@.1.len() as int) =~= old(cbs)@.1);
    }
    let text = get_text(t, "text");
    let bind = get_text(t, "bind");
    let binds = parse_map_field(t, "binds")?;
    let on_click = parse_on_click_bindings(t, cbs)?;
    let format = get_text(t, "format");
    let format_states = parse_map_field(t, "format_states")?;
    let rules = parse_rules_field(t, "rules");
    let max_chars = get_i32(t, "max_chars");
    let ellipsize = get_text(t, "ellipsize");
    Ok(LabelProps { text, bind, binds, on_click, format, format_states, rules, max_chars, ellipsize })
}

fn parse_button_props(t: &LuaTable, cbs: &mut Callbacks) -> (r: Result<ButtonProps, ConfigError>)
    ensures
        run_res(r, final(cbs)@) == button_run(*t, old(cbs)@),
        r matches Ok(b) ==> button_read(b, *t, old(cbs)@),
        extends(old(cbs)@, final(cbs)@),
{
    let text = get_text(t, "text");
    let bind = get_text(t, "bind");
    let on_click = parse_on_click_bindings(t, cbs)?;
    let format = get_text(t, "format");
    let format_states = parse_map_field(t, "format_states")?;
    let angle = get_number(t, "angle");
    Ok(ButtonProps { text, bind, on_click, format, format_states, angle })
}

fn parse_clock_props(t: &LuaTable) -> (r: Result<ClockProps, ConfigError>)
    ensures
        run_res(r, (0, seq![])) == clock_run(*t, (0, seq![])),
        r matches Ok(k) ==> clock_read(k, *t),
{
    let format = get_text(t, "format");
    let display_format = get_text(t, "display_format");
    let format_states = parse_map_field(t, "format_states")?;
    Ok(
        ClockProps {
            format,
            display_format,
            format_states,
            interval: get_u64(t, "interval"),
            bind: get_text(t, "bind"),
            spacing: get_i32(t, "spacing"),
            angle: get_number(t, "angle"),
        },
    )
}

fn parse_workspaces_props(t: &LuaTable) -> (r: Result<WorkspacesProps, ConfigError>)
    ensures
        run_res(r, (0, seq![])) == workspaces_run(*t, (0, seq![])),
        r matches Ok(w) ==> workspaces_read(w, *t),
{
    let count = get_u32(t, "count");
    let active_only = get_opt_bool(t, "active_only");
    let all_outputs = get_opt_bool(t, "all_outputs");
    let output = parse_output_selector(t)?;
    let orientation = get_text(t, "orientation");
    let spacing = get_i32(t, "spacing");
    let format = get_text(t, "format");
    let format_states = parse_map_field(t, "format_states")?;
    let labels = parse_list_field(t, "labels")?;
    let state_labels = parse_list_map_field(t, "state_labels")?;
    let format_icons = parse_map_field(t, "format_icons")?;
    Ok(
        WorkspacesProps {
            count,
            active_only,
            all_outputs,
            output,
            orientation,
            spacing,
            format,
            format_states,
            labels,
            state_labels,
            format_icons,
            show_clients: get_opt_bool(t, "show_clients"),
            clients_max_items: get_u32(t, "clients_max_items"),
            clients_icon_size: get_i32(t, "clients_icon_size"),
            clients_rules: parse_iconify_rules_field(t, "clients_rules"),
            clients_use_glyphs: get_opt_bool(t, "clients_use_glyphs"),
            clients_glyph_fallback: get_text(t, "clients_glyph_fallback"),
            clients_spacing: get_i32(t, "clients_spacing"),
            angle: get_number(t, "angle"),
        },
    )
}

fn parse_dock_props(t: &LuaTable) -> (r: Result<DockProps, ConfigError>)
    ensures
        run_res(r, (0, seq![])) == dock_run(*t, (0, seq![])),
        r matches Ok(d) ==> dock_read(d, *t),
{
    let orientation = get_text(t, "orientation");
    let output = parse_output_selector(t)?;
    let all_outputs = get_opt_bool(t, "all_outputs");
    let spacing = get_i32(t, "spacing");
    let max_items = get_u32(t, "max_items");
    let format = get_text(t, "format");
    let format_states = parse_map_field(t, "format_states")?;
    let image_map = parse_map_field(t, "image_map")?;
    let icon_size = get_i32(t, "icon_size");
    let on_click = parse_dock_click_bindings(t)?;
    Ok(
        DockProps {
            orientation,
            output,
            all_outputs,
            spacing,
            max_items,
            format,
            format_states,
            image_map,
            icon_size,
            on_click,
            angle: get_number(t, "angle"),
        },
    )
}

fn parse_tray_props(t: &LuaTable) -> (r: TrayProps)
    ensures
        tray_read(r, *t),
{
    TrayProps {
        orientation: get_text(t, "orientation"),
        spacing: get_i32(t, "spacing"),
        icon_size: get_i32(t, "icon_size"),
        max_items: get_u32(t, "max_items"),
        show_passive: get_opt_bool(t, "show_passive"),
        hide_when_empty: get_opt_bool(t, "hide_when_empty"),
    }
}

fn parse_image_props(t: &LuaTable, cbs: &mut Callbacks) -> (r: Result<ImageProps, ConfigError>)
    ensures
        run_res(r, final(cbs)@) == click_after(*t, old(cbs)@),
        r matches Ok(i) ==> image_read(i, *t, old(cbs)@),
        extends(old(cbs)@, final(cbs)@),
{
    let path = get_text(t, "path");
    let bind = get_text(t, "bind");
    let fit = get_text(t, "fit");
    let can_shrink = get_opt_bool(t, "can_shrink");
    let on_click = parse_on_click_bindings(t, cbs)?;
    Ok(ImageProps { path, bind, fit, can_shrink, on_click })
}

fn parse_progress_props(t: &LuaTable) -> (r: ProgressProps)
    ensures
        progress_read(r, *t),
{
    ProgressProps {
        bind: get_text(t, "bind"),
        value: get_number(t, "value"),
        min: get_number(t, "min"),
        max: get_number(t, "max"),
        inverted: get_opt_bool(t, "inverted"),
    }
}

fn parse_slider_props(t: &LuaTable) -> (r: SliderProps)
    ensures
        slider_read(r, *t),
{
    SliderProps {
        bind: get_text(t, "bind"),
        value: get_number(t, "value"),
        min: get_number(t, "min"),
        max: get_number(t, "max"),
        step: get_number(t, "step"),
        scroll_step: get_number(t, "scroll_step"),
        orientation: get_text(t, "orientation"),
        inverted: get_opt_bool(t, "inverted"),
        draw_value: get_opt_bool(t, "draw_value"),
        digits: get_i32(t, "digits"),
    }
}

/// The properties of a widget of kind `kind`, read from its table.
pub fn parse_widget_props(kind: WidgetKind, t: &LuaTable, cbs: &mut Callbacks) -> (r: Result<
    WidgetProps,
    ConfigError,
>)
    ensures
        run_res(r, final(cbs)@) == props_run(kind, *t, old(cbs)@),
        r matches Ok(p) ==> props_read(p, kind, *t, old(cbs)@),
        extends(old(cbs)@, final(cbs)@),
{
    proof {
        assert(old(cbs)@.1.subrange(0, old(cbs)@.1.len() as int) =~= old(cbs)@.1);
    }
    match kind {
        WidgetKind::HBox => Ok(WidgetProps::HBox(parse_box_props(t))),
        WidgetKind::VBox => Ok(WidgetProps::VBox(parse_box_props(t))),
        WidgetKind::CenterBox => Ok(WidgetProps::CenterBox(parse_box_props(t))),
        WidgetKind::Revealer => Ok(WidgetProps::Revealer(parse_revealer_props(t))),
        WidgetKind::Scroll => Ok(WidgetProps::Scroll(parse_scroll_props(t))),
        WidgetKind::Overlay => Ok(WidgetProps::Overlay(OverlayProps {  })),
        WidgetKind::List => Ok(WidgetProps::List(parse_list_props(t))),
        WidgetKind::Popover => Ok(WidgetProps::Popover(parse_popover_props(t))),
        WidgetKind::Label => Ok(WidgetProps::Label(parse_label_props(t, cbs)?)),
        WidgetKind::Button => Ok(WidgetProps::Button(parse_button_props(t, cbs)?)),
        WidgetKind::Clock => Ok(WidgetProps::Clock(parse_clock_props(t)?)),
        WidgetKind::Workspaces => Ok(WidgetProps::Workspaces(parse_workspaces_props(t)?)),
        WidgetKind::Dock => Ok(WidgetProps::Dock(parse_dock_props(t)?)),
        WidgetKind::Tray => Ok(WidgetProps::Tray(parse_tray_props(t))),
        WidgetKind::Image => Ok(WidgetProps::Image(parse_image_props(t, cbs)?)),
        WidgetKind::Progress => Ok(WidgetProps::Progress(parse_progress_props(t))),
        WidgetKind::Slider => Ok(WidgetProps::Slider(parse_slider_props(t))),
    }
}

/// Every registration of `a` that `b` holds, `c` holds too.
pub proof fn lemma_extends_trans(
    a: (u64, Seq<(u64, u64)>),
    b: (u64, Seq<(u64, u64)>),
    c: (u64, Seq<(u64, u64)>),
)
    requires
        extends(a, b),
        extends(b, c),
    ensures
        extends(a, c),
{
    assert(c.1.subrange(0, a.1.len() as int) =~= c.1.subrange(0, b.1.len() as int).subrange(
        0,
        a.1.len() as int,
    ));
}

/// The kind name a widget table gives, `hbox` when it gives none.
pub open spec fn kind_text(t: LuaTable) -> Seq<char> {
    match as_text(lookup(t, "__kind"@)) {
        Some(n) => n,
        None => "hbox"@,
    }
}

/// The message for a kind name that is not known.
pub open spec fn unknown_kind(t: LuaTable) -> ErrView {
    ErrView::Runtime(line_prefix(line_of(t)) + "unknown widget kind '"@ + kind_text(t) + "'"@)
}

/// The values of a widget's `children` sequence; none when it has no table
/// there.
pub open spec fn child_items(t: LuaTable) -> Seq<LuaValue> {
    match lookup(t, "children"@) {
        LuaValue::Table(l) => l.sequence@,
        _ => seq![],
    }
}

/// A child table lies strictly inside its parent.
pub proof fn lemma_child_inside(t: LuaTable, i: int)
    requires
        0 <= i < child_items(t).len(),
    ensures
        match child_items(t)[i] {
            LuaValue::Table(ch) => decreases_to!(t => ch),
            _ => true,
        },
{
    let p = |e: (LuaValue, LuaValue)| key_named(e.0, "children"@);
    if exists|j: int| 0 <= j < t.pairs@.len() && p(#[trigger] t.pairs@[j]) {
        let j = choose|j: int| 0 <= j < t.pairs@.len() && p(#[trigger] t.pairs@[j]);
        lemma_first_match_exists(t.pairs@, p, j);
        let k = first_match(t.pairs@, p)->0;
        assert(lookup(t, "children"@) == t.pairs@[k].1);
        match t.pairs@[k].1 {
            LuaValue::Table(l) => {
                assert(decreases_to!(t => t.pairs));
                assert(decreases_to!(t.pairs => t.pairs@));
                assert(decreases_to!(t.pairs@ => t.pairs@[k]));
                assert(decreases_to!(t.pairs@[k] => t.pairs@[k].1));
                assert(decreases_to!(t.pairs@[k].1 => l));
                assert(decreases_to!(l => l.sequence));
                assert(decreases_to!(l.sequence => l.sequence@));
                assert(decreases_to!(l.sequence@ => l.sequence@[i]));
                match l.sequence@[i] {
                    LuaValue::Table(ch) => {
                        assert(decreases_to!(l.sequence@[i] => ch));
                    },
                    _ => {},
                }
            },
            _ => {},
        }
    } else {
        lemma_first_match_none(t.pairs@, p);
    }
}

/// Reading a widget: the callbacks after it, or its first error. The kind
/// comes first, then the classes, the children in order, the output, and
/// the properties of the kind.
pub open spec fn widget_run(t: LuaTable, c: (u64, Seq<(u64, u64)>)) -> Result<
    (u64, Seq<(u64, u64)>),
    ErrView,
>
    decreases t, child_items(t).len() + 1,
{
    match kind_from_name(kind_text(t)) {
        None => Err(unknown_kind(t)),
        Some(k) => first_err(
            list_field(t, "classes"@),
            match children_run(t, child_items(t).len(), c) {
                Err(e) => Err(e),
                Ok(d) => first_err(output_selector(t), props_run(k, t, d)),
            },
        ),
    }
}

/// Reading the first `n` children of a widget: the callbacks after them, or
/// the first error. Values that are not tables are skipped.
pub open spec fn children_run(t: LuaTable, n: nat, c: (u64, Seq<(u64, u64)>)) -> Result<
    (u64, Seq<(u64, u64)>),
    ErrView,
>
    decreases t, n,
{
    if n == 0 || n > child_items(t).len() {
        Ok(c)
    } else {
        match children_run(t, (n - 1) as nat, c) {
            Err(e) => Err(e),
            Ok(d) => match child_items(t)[n - 1] {
                LuaValue::Table(ch) => {
                    proof {
                        lemma_child_inside(t, n - 1);
                    }
                    widget_run(ch, d)
                },
                _ => Ok(d),
            },
        }
    }
}

/// The classes of a widget: its `class`, then its `classes`.
pub open spec fn classes_of(t: LuaTable) -> Seq<Seq<char>> {
    let head = match as_text(lookup(t, "class"@)) {
        Some(c) => seq![c],
        None => seq![],
    };
    match list_field(t, "classes"@) {
        Ok(x) => head + x,
        Err(_) => head,
    }
}

/// The fields every widget has, children aside, read from its table.
pub open spec fn base_read(b: WidgetBase, t: LuaTable) -> bool {
    &&& output_selector(t) == Ok::<_, ErrView>(opt_text(b.output))
    &&& b.visible == as_opt_bool(lookup(t, "visible"@))
    &&& reads_text(b.visible_bind, t, "visible_bind"@)
    &&& b.width == as_i32(lookup(t, "width"@))
    &&& b.height == as_i32(lookup(t, "height"@))
    &&& b.hexpand == as_opt_bool(lookup(t, "hexpand"@))
    &&& b.vexpand == as_opt_bool(lookup(t, "vexpand"@))
    &&& reads_text(b.halign, t, "halign"@)
    &&& reads_text(b.valign, t, "valign"@)
    &&& reads_text(b.class_bind, t, "class_bind"@)
    &&& texts(b.classes@) == classes_of(t)
}

/// A widget read from its table, with `c` the callbacks before it.
pub open spec fn widget_read(w: WidgetConfig, t: LuaTable, c: (u64, Seq<(u64, u64)>)) -> bool
    decreases t, child_items(t).len() + 1,
{
    &&& w.line == line_of(t)
    &&& kind_from_name(kind_text(t)) == Some(w.kind)
    &&& base_read(w.base, t)
    &&& children_read(w.base.children@, t, child_items(t).len(), c)
    &&& match children_run(t, child_items(t).len(), c) {
        Ok(d) => props_read(w.props, w.kind, t, d),
        Err(_) => false,
    }
}

/// The widgets read from the tables among the first `n` children of `t`.
pub open spec fn children_read(
    ws: Seq<WidgetConfig>,
    t: LuaTable,
    n: nat,
    c: (u64, Seq<(u64, u64)>),
) -> bool
    decreases t, n,
{
    if n == 0 || n > child_items(t).len() {
        ws.len() == 0
    } else {
        match child_items(t)[n - 1] {
            LuaValue::Table(ch) => {
                proof {
                    lemma_child_inside(t, n - 1);
                }
                ws.len() > 0 && children_read(ws.drop_last(), t, (n - 1) as nat, c) && match children_run(
                    t,
                    (n - 1) as nat,
                    c,
                ) {
                    Ok(d) => widget_read(ws.last(), ch, d),
                    Err(_) => false,
                }
            },
            _ => children_read(ws, t, (n - 1) as nat, c),
        }
    }
}

/// An error among the first children stays the error of all of them.
pub proof fn lemma_children_err(t: LuaTable, i: nat, n: nat, c: (u64, Seq<(u64, u64)>))
    requires
        i <= n <= child_items(t).len(),
        children_run(t, i, c) is Err,
    ensures
        children_run(t, n, c) == children_run(t, i, c),
    decreases n - i,
{
    if n > i {
        lemma_children_err(t, i, (n - 1) as nat, c);
    }
}

fn unknown_kind_error(line: Option<i32>, name: &str) -> (r: ConfigError)
    ensures
        r@ == ErrView::Runtime(line_prefix(line) + "unknown widget kind '"@ + name@ + "'"@),
{
    let mut m = format_line_prefix(line);
    m.append("unknown widget kind '");
    m.append(name);
    m.append("'");
    ConfigError::Runtime(m)
}

/// A widget and its subtree, read from its table; each function a click
/// binding names is registered in `cbs`, children before their parent.
pub fn parse_widget(t: &LuaTable, cbs: &mut Callbacks) -> (r: Result<WidgetConfig, ConfigError>)
    ensures
        run_res(r, final(cbs)@) == widget_run(*t, old(cbs)@),
        r matches Ok(w) ==> widget_read(w, *t, old(cbs)@),
        extends(old(cbs)@, final(cbs)@),
    decreases t,
{
    let ghost c0 = cbs@;
    proof {
        assert(c0.1.subrange(0, c0.1.len() as int) =~= c0.1);
    }
    let line = widget_line(t);
    let kind_name = match get_text(t, "__kind") {
        Some(s) => s,
        None => String::from_str("hbox"),
    };
    assert(kind_name@ == kind_text(*t));
    let kind = match WidgetKind::from_lua_kind(kind_name.as_str()) {
        Some(k) => k,
        None => {
            return Err(unknown_kind_error(line, kind_name.as_str()));
        },
    };
    let mut classes: Vec<String> = Vec::new();
    match get_text(t, "class") {
        Some(c) => {
            classes.push(c);
        },
        None => {},
    }
    let ghost head = texts(classes@);
    let mut extra = parse_list_field(t, "classes")?;
    let ghost tail = texts(extra@);
    classes.append(&mut extra);
    assert(texts(classes@) =~= head + tail);
    assert(texts(classes@) == classes_of(*t));
    let mut children: Vec<WidgetConfig> = Vec::new();
    match field(t, "children") {
        Some(LuaValue::Table(list)) => {
            let items = &list.sequence;
            let mut i: usize = 0;
            while i < items.len()
                invariant
                    i <= items.len(),
                    child_items(*t) == items@,
                    c0 == old(cbs)@,
                    kind_from_name(kind_text(*t)) == Some(kind),
                    list_field(*t, "classes"@) is Ok,
                    children_run(*t, i as nat, c0) == Ok::<_, ErrView>(cbs@),
                    children_read(children@, *t, i as nat, c0),
                    extends(c0, cbs@),
                decreases items.len() - i,
            {
                match &items[i] {
                    LuaValue::Table(ch) => {
                        proof {
                            lemma_child_inside(*t, i as int);
                        }
                        let ghost before = cbs@;
                        match parse_widget(ch, cbs) {
                            Ok(w) => {
                                proof {
                                    lemma_extends_trans(c0, before, cbs@);
                                }
                                let ghost prev = children@;
                                children.push(w);
                                assert(children@.drop_last() =~= prev);
                            },
                            Err(e) => {
                                proof {
                                    lemma_extends_trans(c0, before, cbs@);
                                    lemma_children_err(*t, (i + 1) as nat, items.len() as nat, c0);
                                }
                                return Err(e);
                            },
                        }
                    },
                    _ => {},
                }
                i += 1;
            }
        },
        _ => {},
    }
    let ghost mid = cbs@;
    let output = parse_output_selector(t)?;
    let base = WidgetBase {
        output,
        visible: get_opt_bool(t, "visible"),
        visible_bind: get_text(t, "visible_bind"),
        width: get_i32(t, "width"),
        height: get_i32(t, "height"),
        hexpand: get_opt_bool(t, "hexpand"),
        vexpand: get_opt_bool(t, "vexpand"),
        halign: get_text(t, "halign"),
        valign: get_text(t, "valign"),
        class_bind: get_text(t, "class_bind"),
        classes,
        children,
    };
    let props = match parse_widget_props(kind, t, cbs) {
        Ok(p) => p,
        Err(e) => {
            proof {
                lemma_extends_trans(c0, mid, cbs@);
            }
            return Err(e);
        },
    };
    proof {
        lemma_extends_trans(c0, mid, cbs@);
    }
    Ok(WidgetConfig { line, kind, base, props })
}

/// The anchors a window's `anchor` field gives, before its `position` is
/// looked at: the default ones when it gives none.
pub open spec fn window_anchor_base(t: LuaTable) -> Result<Seq<Seq<char>>, ErrView> {
    let v = lookup(t, "anchor"@);
    if v is Nil {
        Ok(default_anchors())
    } else {
        match anchor_list(v, line_prefix(line_of(t))) {
            Err(e) => Err(e),
            Ok(a) => Ok(
                if a.len() > 0 {
                    a
                } else {
                    default_anchors()
                },
            ),
        }
    }
}

/// The anchors of a window: its `anchor` field, or else its `position`.
pub open spec fn window_anchors(t: LuaTable) -> Seq<Seq<char>> {
    let a = match window_anchor_base(t) {
        Ok(a) => a,
        Err(_) => default_anchors(),
    };
    if a == default_anchors() {
        match as_text(lookup(t, "position"@)) {
            Some(pos) => position_anchors(pos),
            None => a,
        }
    } else {
        a
    }
}

/// A window is always anchored to at least one edge.
pub proof fn law_window_anchors_nonempty(t: LuaTable)
    ensures
        window_anchors(t).len() > 0,
{
}

/// Reading a window: the callbacks after it, or its first error.
pub open spec fn window_run(t: LuaTable, c: (u64, Seq<(u64, u64)>)) -> Result<
    (u64, Seq<(u64, u64)>),
    ErrView,
> {
    first_err(
        window_anchor_base(t),
        match lookup(t, "root"@) {
            LuaValue::Table(root) => match widget_run(root, c) {
                Err(e) => Err(e),
                Ok(d) => first_err(output_selector(t), Ok(d)),
            },
            _ => Err(ErrView::Runtime("window({...}) must define root = <widget>"@)),
        },
    )
}

/// `x`, or zero.
pub open spec fn or_zero(x: Option<i32>) -> i32 {
    match x {
        Some(v) => v,
        None => 0,
    }
}

/// A window read from its table, with `c` the callbacks before it.
pub open spec fn window_read(w: WindowConfig, t: LuaTable, c: (u64, Seq<(u64, u64)>)) -> bool {
    &&& reads_text(w.name, t, "name"@)
    &&& output_selector(t) == Ok::<_, ErrView>(opt_text(w.output))
    &&& w.visible == match as_opt_bool(lookup(t, "visible"@)) {
        Some(b) => b,
        None => true,
    }
    &&& w.layer@ == match as_text(lookup(t, "layer"@)) {
        Some(l) => l,
        None => "top"@,
    }
    &&& w.exclusive == truthy(lookup(t, "exclusive"@))
    &&& texts(w.anchors@) == window_anchors(t)
    &&& w.width == as_i32(lookup(t, "width"@))
    &&& w.height == as_i32(lookup(t, "height"@))
    &&& w.margin_top == or_zero(as_i32(lookup(t, "margin_top"@)))
    &&& w.margin_bottom == or_zero(as_i32(lookup(t, "margin_bottom"@)))
    &&& w.margin_left == or_zero(as_i32(lookup(t, "margin_left"@)))
    &&& w.margin_right == or_zero(as_i32(lookup(t, "margin_right"@)))
    &&& match lookup(t, "root"@) {
        LuaValue::Table(root) => widget_read(w.root, root, c),
        _ => false,
    }
}

fn is_default_anchors(a: &Vec<String>) -> (r: bool)
    ensures
        r == (texts(a@) == default_anchors()),
{
    if a.len() == 3 && str_eq(a[0].as_str(), "top") && str_eq(a[1].as_str(), "left") && str_eq(
        a[2].as_str(),
        "right",
    ) {
        assert(texts(a@) =~= default_anchors());
        true
    } else {
        proof {
            if texts(a@) == default_anchors() {
                assert(texts(a@).len() == 3);
                assert(a@.len() == 3);
                assert(texts(a@)[0] == a@[0]@);
                assert(texts(a@)[1] == a@[1]@);
                assert(texts(a@)[2] == a@[2]@);
            }
        }
        false
    }
}

fn i32_or_zero(x: Option<i32>) -> (r: i32)
    ensures
        r == or_zero(x),
{
    match x {
        Some(v) => v,
        None => 0,
    }
}

/// `b` holds everything `a` holds, and possibly more after it.
pub open spec fn grown(a: Seq<String>, b: Seq<String>) -> bool {
    a.len() <= b.len() && b.subrange(0, a.len() as int) == a
}

/// A window and its widget tree, read from its table; the warnings about its
/// widgets are added to `warnings`.
pub fn parse_window(t: &LuaTable, cbs: &mut Callbacks, warnings: &mut Vec<String>) -> (r: Result<
    WindowConfig,
    ConfigError,
>)
    ensures
        run_res(r, final(cbs)@) == window_run(*t, old(cbs)@),
        r matches Ok(w) ==> window_read(w, *t, old(cbs)@) && texts(final(warnings)@) == texts(
            old(warnings)@,
        ) + tree_warnings(w.root),
        grown(old(warnings)@, final(warnings)@),
        extends(old(cbs)@, final(cbs)@),
{
    proof {
        assert(old(cbs)@.1.subrange(0, old(cbs)@.1.len() as int) =~= old(cbs)@.1);
        assert(old(warnings)@.subrange(0, old(warnings)@.len() as int) =~= old(warnings)@);
    }
    let line = widget_line(t);
    let mut anchors = strs_to_strings("top", "left", "right");
    match field(t, "anchor") {
        None | Some(LuaValue::Nil) => {},
        Some(v) => {
            let parsed = parse_anchor(v, line)?;
            if parsed.len() > 0 {
                anchors = parsed;
            }
        },
    }
    assert(window_anchor_base(*t) == Ok::<_, ErrView>(texts(anchors@)));
    if is_default_anchors(&anchors) {
        match get_text(t, "position") {
            Some(pos) => {
                anchors = anchors_from_position(pos.as_str());
            },
            None => {},
        }
    }
    assert(texts(anchors@) == window_anchors(*t));
    let root_tbl = match field(t, "root") {
        Some(LuaValue::Table(root)) => root,
        _ => {
            return Err(
                ConfigError::Runtime(String::from_str("window({...}) must define root = <widget>")),
            );
        },
    };
    let root = parse_widget(root_tbl, cbs)?;
    let mut found = validate_widget_tree(&root);
    let ghost w0 = warnings@;
    let ghost f0 = found@;
    warnings.append(&mut found);
    assert(texts(warnings@) =~= texts(w0) + texts(f0));
    assert(warnings@.subrange(0, w0.len() as int) =~= w0);
    let name = get_text(t, "name");
    let output = parse_output_selector(t)?;
    let visible = match get_opt_bool(t, "visible") {
        Some(b) => b,
        None => true,
    };
    let layer = match get_text(t, "layer") {
        Some(l) => l,
        None => String::from_str("top"),
    };
    Ok(
        WindowConfig {
            name,
            output,
            visible,
            layer,
            exclusive: get_truthy(t, "exclusive"),
            anchors,
            width: get_i32(t, "width"),
            height: get_i32(t, "height"),
            margin_top: i32_or_zero(get_i32(t, "margin_top")),
            margin_bottom: i32_or_zero(get_i32(t, "margin_bottom")),
            margin_left: i32_or_zero(get_i32(t, "margin_left")),
            margin_right: i32_or_zero(get_i32(t, "margin_right")),
            root,
        },
    )
}

/// Reading the first `n` values of the window list: how many windows they
/// hold and the callbacks after them, or the first error. Values that are not
/// tables are skipped.
pub open spec fn windows_upto(s: Seq<LuaValue>, n: nat, c: (u64, Seq<(u64, u64)>)) -> Result<
    (nat, (u64, Seq<(u64, u64)>)),
    ErrView,
>
    decreases n,
{
    if n == 0 || n > s.len() {
        Ok((0, c))
    } else {
        match windows_upto(s, (n - 1) as nat, c) {
            Err(e) => Err(e),
            Ok((k, d)) => match s[n - 1] {
                LuaValue::Table(w) => match window_run(w, d) {
                    Err(e) => Err(e),
                    Ok(d2) => Ok((k + 1, d2)),
                },
                _ => Ok((k, d)),
            },
        }
    }
}

/// Reading the windows of a configuration: the callbacks after them, or the
/// first error. A configuration must list at least one window.
pub open spec fn windows_run(cfg: LuaTable, c: (u64, Seq<(u64, u64)>)) -> Result<
    (u64, Seq<(u64, u64)>),
    ErrView,
> {
    match lookup(cfg, "windows"@) {
        LuaValue::Table(w) => match windows_upto(w.sequence@, w.sequence@.len(), c) {
            Err(e) => Err(e),
            Ok((k, d)) => if k == 0 {
                Err(
                    ErrView::Runtime(
                        "lush.ui.windows({...}) must contain at least one lush.ui.window(...)"@,
                    ),
                )
            } else {
                Ok(d)
            },
        },
        _ => Err(ErrView::Runtime("config must call lush.ui.windows({...})"@)),
    }
}

/// The windows read from the tables among the first `n` values of `s`.
pub open spec fn windows_read(
    ws: Seq<WindowConfig>,
    s: Seq<LuaValue>,
    n: nat,
    c: (u64, Seq<(u64, u64)>),
) -> bool
    decreases n,
{
    if n == 0 || n > s.len() {
        ws.len() == 0
    } else {
        match s[n - 1] {
            LuaValue::Table(w) => ws.len() > 0 && windows_read(ws.drop_last(), s, (n - 1) as nat, c)
                && match windows_upto(s, (n - 1) as nat, c) {
                Ok((_, d)) => window_read(ws.last(), w, d),
                Err(_) => false,
            },
            _ => windows_read(ws, s, (n - 1) as nat, c),
        }
    }
}

/// The windows of a configuration, read from its `windows` list.
pub open spec fn windows_of(ws: Seq<WindowConfig>, cfg: LuaTable, c: (u64, Seq<(u64, u64)>)) -> bool {
    match lookup(cfg, "windows"@) {
        LuaValue::Table(w) => windows_read(ws, w.sequence@, w.sequence@.len(), c),
        _ => false,
    }
}

/// The warnings about the widget trees of a list of windows, in order.
pub open spec fn roots_warnings(ws: Seq<WindowConfig>) -> Seq<Seq<char>>
    decreases ws.len(),
{
    if ws.len() == 0 {
        seq![]
    } else {
        roots_warnings(ws.drop_last()) + tree_warnings(ws.last().root)
    }
}

/// An error among the first windows stays the error of all of them.
pub proof fn lemma_windows_err(s: Seq<LuaValue>, i: nat, n: nat, c: (u64, Seq<(u64, u64)>))
    requires
        i <= n <= s.len(),
        windows_upto(s, i, c) is Err,
    ensures
        windows_upto(s, n, c) == windows_upto(s, i, c),
    decreases n - i,
{
    if n > i {
        lemma_windows_err(s, i, (n - 1) as nat, c);
    }
}

/// The windows of a configuration: each table of its `windows` list, in
/// order. The functions that click bindings name are registered in `cbs`,
/// and the warnings about the widgets are added to `warnings`.
pub fn parse_windows(cfg: &LuaTable, cbs: &mut Callbacks, warnings: &mut Vec<String>) -> (r: Result<
    Vec<WindowConfig>,
    ConfigError,
>)
    ensures
        run_res(r, final(cbs)@) == windows_run(*cfg, old(cbs)@),
        r matches Ok(ws) ==> windows_of(ws@, *cfg, old(cbs)@) && texts(final(warnings)@) == texts(
            old(warnings)@,
        ) + roots_warnings(ws@),
        grown(old(warnings)@, final(warnings)@),
        extends(old(cbs)@, final(cbs)@),
{
    let ghost c0 = cbs@;
    let ghost w0 = warnings@;
    proof {
        assert(c0.1.subrange(0, c0.1.len() as int) =~= c0.1);
        assert(w0.subrange(0, w0.len() as int) =~= w0);
    }
    let list = match field(cfg, "windows") {
        Some(LuaValue::Table(list)) => list,
        _ => {
            return Err(ConfigError::Runtime(String::from_str("config must call lush.ui.windows({...})")));
        },
    };
    let items = &list.sequence;
    let mut windows: Vec<WindowConfig> = Vec::new();
    let mut i: usize = 0;
    assert(texts(w0) + roots_warnings(windows@) =~= texts(w0));
    while i < items.len()
        invariant
            i <= items.len(),
            lookup(*cfg, "windows"@) == LuaValue::Table(*list),
            items@ == list.sequence@,
            c0 == old(cbs)@,
            w0 == old(warnings)@,
            windows_upto(items@, i as nat, c0) == Ok::<_, ErrView>((windows@.len(), cbs@)),
            windows_read(windows@, items@, i as nat, c0),
            texts(warnings@) == texts(w0) + roots_warnings(windows@),
            grown(w0, warnings@),
            extends(c0, cbs@),
        decreases items.len() - i,
    {
        match &items[i] {
            LuaValue::Table(wt) => {
                let ghost before = cbs@;
                let ghost wb = warnings@;
                match parse_window(wt, cbs, warnings) {
                    Ok(w) => {
                        proof {
                            lemma_extends_trans(c0, before, cbs@);
                            assert(warnings@.subrange(0, w0.len() as int) =~= warnings@.subrange(
                                0,
                                wb.len() as int,
                            ).subrange(0, w0.len() as int));
                        }
                        let ghost prev = windows@;
                        windows.push(w);
                        assert(windows@.drop_last() =~= prev);
                        assert(texts(warnings@) =~= texts(w0) + roots_warnings(windows@));
                    },
                    Err(e) => {
                        proof {
                            lemma_extends_trans(c0, before, cbs@);
                            assert(warnings@.subrange(0, w0.len() as int) =~= warnings@.subrange(
                                0,
                                wb.len() as int,
                            ).subrange(0, w0.len() as int));
                            lemma_windows_err(items@, (i + 1) as nat, items.len() as nat, c0);
                        }
                        return Err(e);
                    },
                }
            },
            _ => {},
        }
        i += 1;
    }
    if windows.len() == 0 {
        return Err(
            ConfigError::Runtime(
                String::from_str(
                    "lush.ui.windows({...}) must contain at least one lush.ui.window(...)",
                ),
            ),
        );
    }
    Ok(windows)
}

/// An item of a display's signal list: strings, and numbers as Rust writes
/// them; other values are skipped (`None`).
pub open spec fn signal_item(v: LuaValue) -> Option<Result<Seq<char>, ErrView>> {
    match v {
        LuaValue::String(x) => Some(str_result(x)),
        LuaValue::Integer(i) => Some(Ok(signed_decimal(i as int))),
        LuaValue::Number(f) => Some(Ok(f.display@)),
        _ => None,
    }
}

/// The signals of a sequence after `acc`.
pub open spec fn signals_fold(s: Seq<LuaValue>, acc: Seq<Seq<char>>) -> Result<
    Seq<Seq<char>>,
    ErrView,
>
    decreases s.len(),
{
    if s.len() == 0 {
        Ok(acc)
    } else {
        match signal_item(s[0]) {
            None => signals_fold(s.drop_first(), acc),
            Some(Err(e)) => Err(e),
            Some(Ok(x)) => signals_fold(s.drop_first(), acc.push(x)),
        }
    }
}

/// The signals a display is bound to: one string, or a sequence of them;
/// anything else is none.
pub open spec fn signal_list(v: LuaValue) -> Result<Seq<Seq<char>>, ErrView> {
    match v {
        LuaValue::String(x) => match str_result(x) {
            Ok(t) => Ok(seq![t]),
            Err(e) => Err(e),
        },
        LuaValue::Table(t) => signals_fold(t.sequence@, seq![]),
        _ => Ok(seq![]),
    }
}

fn read_signal_item(v: &LuaValue) -> (r: Option<Result<String, ConfigError>>)
    ensures
        match r {
            None => signal_item(*v) is None,
            Some(x) => signal_item(*v) == Some(text_res(x)),
        },
{
    match v {
        LuaValue::String(x) => Some(read_str(x)),
        LuaValue::Integer(i) => Some(Ok(i64_to_string(*i))),
        LuaValue::Number(f) => Some(Ok(f.display.clone())),
        _ => None,
    }
}

/// The signals a display is bound to.
pub fn parse_signals(v: &LuaValue) -> (r: Result<Vec<String>, ConfigError>)
    ensures
        list_res(r) == signal_list(*v),
{
    match v {
        LuaValue::String(x) => {
            let t = read_str(x)?;
            let out = vec![t];
            assert(texts(out@) =~= seq![out@[0]@]);
            Ok(out)
        },
        LuaValue::Table(t) => {
            let items = &t.sequence;
            let mut out: Vec<String> = Vec::new();
            let mut i: usize = 0;
            assert(items@.skip(0) =~= items@);
            assert(texts(out@) =~= seq![]);
            while i < items.len()
                invariant
                    i <= items.len(),
                    signal_list(*v) == signals_fold(items@, seq![]),
                    signals_fold(items@, seq![]) == signals_fold(
                        items@.skip(i as int),
                        texts(out@),
                    ),
                decreases items.len() - i,
            {
                let ghost rest = items@.skip(i as int);
                assert(rest[0] == items@[i as int]);
                assert(rest.drop_first() =~= items@.skip(i + 1));
                match read_signal_item(&items[i]) {
                    None => {},
                    Some(Err(e)) => {
                        return Err(e);
                    },
                    Some(Ok(x)) => {
                        let ghost before = texts(out@);
                        out.push(x);
                        assert(texts(out@) =~= before.push(out@[out@.len() - 1]@));
                    },
                }
                i += 1;
            }
            assert(items@.skip(i as int) =~= seq![]);
            Ok(out)
        },
        _ => {
            let out: Vec<String> = Vec::new();
            assert(texts(out@) =~= seq![]);
            Ok(out)
        },
    }
}

/// The output a data provider is asked for: a string, or a non-negative
/// whole number in decimal; anything else is none.
pub open spec fn data_output(v: LuaValue) -> Option<Seq<char>> {
    match v {
        LuaValue::String(x) => crate::lua::str_text(x),
        LuaValue::Integer(i) => if i >= 0 {
            Some(decimal(i as nat))
        } else {
            None
        },
        LuaValue::Number(f) => match f.whole {
            Some(w) => Some(decimal(w as nat)),
            None => None,
        },
        _ => None,
    }
}

/// The options of a data provider request, from its optional table: the
/// interval, network interface, disk path and compositor output. A value
/// that cannot be read as its type counts as not given.
pub fn data_use_options(opts: Option<&LuaTable>) -> (r: (
    Option<u32>,
    Option<String>,
    Option<String>,
    Option<String>,
))
    ensures
        match opts {
            None => r.0 is None && r.1 is None && r.2 is None && r.3 is None,
            Some(t) => {
                &&& r.0 == as_u32(lookup(*t, "interval"@))
                &&& opt_text(r.1) == as_text(lookup(*t, "iface"@))
                &&& opt_text(r.2) == as_text(lookup(*t, "path"@))
                &&& opt_text(r.3) == data_output(lookup(*t, "output"@))
            },
        },
{
    match opts {
        None => (None, None, None, None),
        Some(t) => {
            let output = match field(t, "output") {
                Some(LuaValue::String(x)) => match &x.text {
                    Ok(s) => Some(s.clone()),
                    Err(_) => None,
                },
                Some(LuaValue::Integer(i)) => if *i >= 0 {
                    Some(u64_to_string(*i as u64))
                } else {
                    None
                },
                Some(LuaValue::Number(f)) => match f.whole {
                    Some(w) => Some(u64_to_string(w)),
                    None => None,
                },
                _ => None,
            };
            (get_u32(t, "interval"), get_text(t, "iface"), get_text(t, "path"), output)
        },
    }
}

} // verus!
