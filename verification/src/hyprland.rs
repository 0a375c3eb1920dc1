//! Hyprland: reading the compositor state from the JSON replies of its
//! command socket (`j/monitors`, `j/workspaces`, `j/clients`,
//! `j/activewindow`, `j/activeworkspace`), deciding which socket events call
//! for a refresh, and the workspace dispatch.
use vstd::prelude::*;

use crate::compositor::{
    lowest_workspace, CompositorSnapshot, CompositorStateSnapshot, EntryView, FocusedView, FocusedWindowSnapshot,
    ToplevelEntry, first_set_bit, entries_view,
};
use crate::json::{
    as_array, as_bool, as_i64, as_str, field, field2, get2_i64, get_bool, get_i64, get_str,
    opt_json, JsonValue,
};
use crate::order::{ascending, lemma_ascending_len, sort_strings, texts};
use crate::selector::{normalize_selector, normalized_selector, opt_view, selector_index, selector_is_focused_or_empty};
use crate::seqs::{first_match, lemma_first_match_none, lemma_first_match_some};
use crate::text::{
    chars_vec, eq_fold, eq_ignore_ascii_case, is_blank, owned, parse_unsigned, string_from,
    str_eq, trim, trim_str, u64_to_string,
};

verus! {

// ---------------------------------------------------------------------------
// Parsing replies.
/// What `serde_json` reads from a reply: the document, or nothing when the
/// bytes are not JSON.
pub uninterp spec fn json_parse(bytes: Seq<u8>) -> Option<JsonValue>;

#[verifier::external_type_specification]
#[verifier::external_body]
pub struct ExSerdeJsonValue(serde_json::Value);

/// Converts a `serde_json` document into the crate's own JSON value, keeping
/// each number as the `i64` it holds, if any.
#[verifier::external_body]
fn json_from_serde(v: serde_json::Value) -> JsonValue {
    match v {
        serde_json::Value::Null => JsonValue::Null,
        serde_json::Value::Bool(b) => JsonValue::Bool(b),
        serde_json::Value::Number(n) => JsonValue::Number(n.as_i64()),
        serde_json::Value::String(s) => JsonValue::Str(s),
        serde_json::Value::Array(a) => JsonValue::Array(a.into_iter().map(json_from_serde).collect()),
        serde_json::Value::Object(m) => JsonValue::Object(
            m.into_iter().map(|(k, x)| (k, json_from_serde(x))).collect(),
        ),
    }
}

/// Reads a JSON document with `serde_json::from_slice`; the result depends
/// on the bytes alone and is named `json_parse`.
#[verifier::external_body]
pub(crate) fn parse_json(bytes: &[u8]) -> (r: Option<JsonValue>)
    ensures
        r == json_parse(bytes@),
{
    serde_json::from_slice::<serde_json::Value>(bytes).ok().map(json_from_serde)
}

pub open spec fn reply_json(raw: Option<Seq<u8>>) -> Option<JsonValue> {
    match raw {
        Some(b) => if b.len() == 0 {
            None
        } else {
            json_parse(b)
        },
        None => None,
    }
}

pub open spec fn bytes_view(raw: Option<&[u8]>) -> Option<Seq<u8>> {
    match raw {
        Some(b) => Some(b@),
        None => None,
    }
}

/// The document a query's reply holds: nothing when the query failed, the
/// reply was empty or it is not JSON.
pub fn query_reply(raw: Option<&[u8]>) -> (r: Option<JsonValue>)
    ensures
        r == reply_json(bytes_view(raw)),
{
    match raw {
        Some(b) => if b.len() == 0 {
            None
        } else {
            parse_json(b)
        },
        None => None,
    }
}

/// Whether Hyprland answers: its `j/monitors` reply is a JSON document.
pub fn available(monitors_reply: Option<&[u8]>) -> (r: bool)
    ensures
        r == reply_json(bytes_view(monitors_reply)) is Some,
{
    query_reply(monitors_reply).is_some()
}

// ---------------------------------------------------------------------------
// Socket events.
/// The event name of a socket line: the text before the first `>>`, or the
/// whole line.
pub open spec fn event_name_from(s: Seq<char>, i: int) -> Seq<char>
    decreases s.len() - i,
{
    if i < 0 || i + 1 >= s.len() {
        s
    } else if s[i] == '>' && s[i + 1] == '>' {
        s.take(i)
    } else {
        event_name_from(s, i + 1)
    }
}

/// The events after which the state is collected again.
pub open spec fn is_refresh_event(t: Seq<char>) -> bool {
    t == "workspace"@ || t == "workspacev2"@ || t == "focusedmon"@ || t == "focusedmonv2"@ || t
        == "activewindow"@ || t == "activewindowv2"@ || t == "openwindow"@ || t == "openwindowv2"@
        || t == "closewindow"@ || t == "closewindowv2"@ || t == "movewindow"@ || t
        == "movewindowv2"@ || t == "windowtitle"@ || t == "windowtitlev2"@ || t
        == "renameworkspace"@ || t == "renameworkspacev2"@ || t == "createworkspace"@ || t
        == "createworkspacev2"@ || t == "destroyworkspace"@ || t == "destroyworkspacev2"@
}

/// Whether a line of the event socket calls for collecting the state again.
pub fn should_refresh_for_event(line: &str) -> (r: bool)
    ensures
        r == is_refresh_event(trim(event_name_from(line@, 0))),
{
    let v = chars_vec(line);
    let n = v.len();
    let mut i: usize = 0;
    let mut end: usize = n;
    while i < n && end == n
        invariant
            v@ == line@,
            n == v.len(),
            i <= n,
            end <= n,
            end == n ==> event_name_from(line@, 0) == event_name_from(line@, i as int),
            end < n ==> event_name_from(line@, 0) == line@.take(end as int),
        decreases n - i + (if end == n { 1int } else { 0int }),
    {
        if i + 1 < n && v[i] == '>' && v[i + 1] == '>' {
            end = i;
        } else {
            i += 1;
        }
    }
    let name = string_from(&v.as_slice()[0..end]);
    assert(name@ =~= event_name_from(line@, 0));
    let t = trim_str(name.as_str());
    let t = t.as_str();
    str_eq(t, "workspace") || str_eq(t, "workspacev2") || str_eq(t, "focusedmon") || str_eq(
        t,
        "focusedmonv2",
    ) || str_eq(t, "activewindow") || str_eq(t, "activewindowv2") || str_eq(t, "openwindow")
        || str_eq(t, "openwindowv2") || str_eq(t, "closewindow") || str_eq(t, "closewindowv2")
        || str_eq(t, "movewindow") || str_eq(t, "movewindowv2") || str_eq(t, "windowtitle")
        || str_eq(t, "windowtitlev2") || str_eq(t, "renameworkspace") || str_eq(
        t,
        "renameworkspacev2",
    ) || str_eq(t, "createworkspace") || str_eq(t, "createworkspacev2") || str_eq(
        t,
        "destroyworkspace",
    ) || str_eq(t, "destroyworkspacev2")
}

// ---------------------------------------------------------------------------
// Workspace dispatch.
/// The command that focuses a workspace: `/dispatch workspace <n>`.
pub open spec fn dispatch_payload(index: u32) -> Seq<char> {
    "/dispatch workspace "@ + crate::text::decimal(index as nat)
}

pub fn workspace_dispatch_payload(index_1_based: u32) -> (r: String)
    ensures
        r@ == dispatch_payload(index_1_based),
{
    let mut s = String::from_str("/dispatch workspace ");
    let n = u64_to_string(index_1_based as u64);
    s.append(n.as_str());
    s
}

/// The outcome of a workspace dispatch from Hyprland's reply (nothing when
/// the command could not be sent): success for `ok` in any case and with any
/// surrounding whitespace.
pub open spec fn dispatch_outcome(reply: Option<Seq<char>>) -> Result<(), Seq<char>> {
    match reply {
        None => Err("failed to send hyprland workspace dispatch"@),
        Some(r) => if eq_fold(trim(r), "ok"@) {
            Ok(())
        } else {
            Err("hyprland workspace dispatch failed: "@ + trim(r))
        },
    }
}

pub open spec fn result_view(r: Result<(), String>) -> Result<(), Seq<char>> {
    match r {
        Ok(()) => Ok(()),
        Err(e) => Err(e@),
    }
}

/// Reads the reply to a workspace dispatch.
pub fn focus_workspace(reply: Option<&str>) -> (r: Result<(), String>)
    ensures
        result_view(r) == dispatch_outcome(opt_view(reply)),
{
    match reply {
        None => Err(String::from_str("failed to send hyprland workspace dispatch")),
        Some(text) => {
            let t = trim_str(text);
            if eq_ignore_ascii_case(t.as_str(), "ok") {
                Ok(())
            } else {
                let mut m = String::from_str("hyprland workspace dispatch failed: ");
                m.append(t.as_str());
                Err(m)
            }
        },
    }
}

// ---------------------------------------------------------------------------
// Selecting the monitor.
pub open spec fn monitor_focused() -> spec_fn(JsonValue) -> bool {
    |m: JsonValue| as_bool(field(m, "focused"@)) == Some(true)
}

/// The names of the monitors that have one, in order.
pub open spec fn monitor_names(items: Seq<JsonValue>) -> Seq<Seq<char>>
    decreases items.len(),
{
    if items.len() == 0 {
        seq![]
    } else {
        let rest = monitor_names(items.drop_last());
        match as_str(field(items.last(), "name"@)) {
            Some(n) => rest.push(n),
            None => rest,
        }
    }
}

/// The monitor that a selector designates: none without a selector; for
/// "focused", the name of the first focused monitor or else the active
/// workspace's monitor; for an index, that entry of the sorted names; for
/// anything else, the selector itself.
pub open spec fn selected_monitor(
    sel: Option<Seq<char>>,
    monitors: JsonValue,
    active_ws: Option<JsonValue>,
) -> Option<Seq<char>> {
    let s = normalized_selector(sel);
    if s.len() == 0 {
        None
    } else {
        match as_array(Some(monitors)) {
            None => None,
            Some(items) => if trim(s).len() == 0 || eq_fold(trim(s), "focused"@) {
                let by_flag = match first_match(items, monitor_focused()) {
                    Some(i) => as_str(field(items[i], "name"@)),
                    None => None,
                };
                match by_flag {
                    Some(n) => Some(n),
                    None => match active_ws {
                        Some(a) => as_str(field(a, "monitor"@)),
                        None => None,
                    },
                }
            } else {
                match parse_unsigned(trim(s), usize::MAX as nat) {
                    Some(idx) => {
                        let names = ascending(monitor_names(items));
                        if idx < names.len() {
                            Some(names[idx as int])
                        } else {
                            None
                        }
                    },
                    None => Some(s),
                }
            },
        }
    }
}

pub open spec fn opt_string(v: Option<String>) -> Option<Seq<char>> {
    match v {
        Some(s) => Some(s@),
        None => None,
    }
}

fn monitor_name_list(items: &Vec<JsonValue>) -> (r: Vec<String>)
    ensures
        texts(r@) == monitor_names(items@),
{
    let mut out: Vec<String> = Vec::new();
    let mut i: usize = 0;
    while i < items.len()
        invariant
            i <= items.len(),
            texts(out@) == monitor_names(items@.take(i as int)),
        decreases items.len() - i,
    {
        proof {
            assert(items@.take(i + 1).drop_last() =~= items@.take(i as int));
            assert(items@.take(i + 1).last() == items@[i as int]);
        }
        if let Some(n) = get_str(&items[i], "name") {
            let ghost before = out@;
            out.push(owned(n));
            assert(texts(out@) =~= texts(before).push(n@));
        }
        i += 1;
    }
    assert(items@.take(items.len() as int) =~= items@);
    out
}

/// The name of the monitor the selector designates.
pub fn resolve_selected_monitor_json(
    output_selector: Option<&str>,
    monitors: &JsonValue,
    active_workspace: Option<&JsonValue>,
) -> (r: Option<String>)
    ensures
        opt_string(r) == selected_monitor(opt_view(output_selector), *monitors, opt_json(active_workspace)),
{
    let selector = normalize_selector(output_selector);
    if selector.as_str().is_empty() {
        return None;
    }
    let items = match monitors.as_array() {
        Some(items) => items,
        None => return None,
    };
    if selector_is_focused_or_empty(selector.as_str()) {
        let ghost p = monitor_focused();
        let mut i: usize = 0;
        let mut by_flag: Option<String> = None;
        let mut done = false;
        while i < items.len() && !done
            invariant
                p == monitor_focused(),
                i <= items.len(),
                !done ==> forall|j: int| 0 <= j < i ==> !p(#[trigger] items@[j]),
                !done ==> by_flag is None,
                done ==> match first_match(items@, p) {
                    Some(k) => opt_string(by_flag) == as_str(field(items@[k], "name"@)),
                    None => false,
                },
            decreases items.len() - i + (if done { 0int } else { 1int }),
        {
            if get_bool(&items[i], "focused") == Some(true) {
                proof {
                    lemma_first_match_some(items@, p, i as int);
                }
                by_flag = match get_str(&items[i], "name") {
                    Some(n) => Some(owned(n)),
                    None => None,
                };
                done = true;
            } else {
                i += 1;
            }
        }
        if !done {
            proof {
                lemma_first_match_none(items@, p);
            }
        }
        return match by_flag {
            Some(n) => Some(n),
            None => match active_workspace {
                Some(a) => match get_str(a, "monitor") {
                    Some(m) => Some(owned(m)),
                    None => None,
                },
                None => None,
            },
        };
    }
    if let Some(index) = selector_index(selector.as_str()) {
        let names = sort_strings(monitor_name_list(items));
        proof {
            lemma_ascending_len(monitor_names(items@));
        }
        if index < names.len() {
            return Some(names[index].clone());
        }
        return None;
    }
    Some(selector)
}

// ---------------------------------------------------------------------------
// Workspace masks.
pub open spec fn in_range(id: u32) -> bool {
    1 <= id && id <= 32
}

pub open spec fn bit(id: u32) -> u32 {
    1u32 << ((id - 1) as u32)
}

pub open spec fn unwrap_i64(v: Option<i64>) -> i64 {
    match v {
        Some(x) => x,
        None => 0,
    }
}

pub open spec fn unwrap_text(v: Option<Seq<char>>) -> Seq<char> {
    match v {
        Some(x) => x,
        None => seq![],
    }
}

/// The bit a workspace entry sets in the occupied mask.
pub open spec fn occupied_bit(ws: JsonValue, sel: Option<Seq<char>>) -> u32 {
    let id = unwrap_i64(as_i64(field(ws, "id"@))) as u32;
    if in_range(id) && match sel {
        Some(name) => eq_fold(unwrap_text(as_str(field(ws, "monitor"@))), name),
        None => true,
    } {
        bit(id)
    } else {
        0
    }
}

/// The workspaces that exist (on the selected monitor).
pub open spec fn occupied_mask(items: Seq<JsonValue>, sel: Option<Seq<char>>) -> u32
    decreases items.len(),
{
    if items.len() == 0 {
        0
    } else {
        occupied_mask(items.drop_last(), sel) | occupied_bit(items.last(), sel)
    }
}

/// The active workspace of a monitor entry.
pub open spec fn active_ws_id(m: JsonValue) -> u32 {
    unwrap_i64(as_i64(field2(m, "activeWorkspace"@, "id"@))) as u32
}

pub open spec fn monitor_named(name: Seq<char>) -> spec_fn(JsonValue) -> bool {
    |m: JsonValue|
        match as_str(field(m, "name"@)) {
            Some(n) => eq_fold(n, name),
            None => false,
        }
}

/// Active workspaces of the focused monitors.
pub open spec fn focused_monitors_mask(items: Seq<JsonValue>) -> u32
    decreases items.len(),
{
    if items.len() == 0 {
        0
    } else {
        focused_monitors_mask(items.drop_last()) | focused_bit(items.last())
    }
}

/// The bit a monitor entry sets in the focused mask when every focused
/// monitor counts.
#[verifier::opaque]
pub open spec fn focused_bit(m: JsonValue) -> u32 {
    if in_range(active_ws_id(m)) && as_bool(field(m, "focused"@)) == Some(true) {
        bit(active_ws_id(m))
    } else {
        0
    }
}

/// The focused mask from the monitors: the active workspace of the selected
/// monitor (the first with that name), or of every focused monitor.
pub open spec fn monitors_focus_mask(monitors: JsonValue, sel: Option<Seq<char>>) -> u32 {
    match as_array(Some(monitors)) {
        None => 0,
        Some(items) => match sel {
            Some(name) => match first_match(items, monitor_named(name)) {
                Some(i) => if in_range(active_ws_id(items[i])) {
                    bit(active_ws_id(items[i]))
                } else {
                    0
                },
                None => 0,
            },
            None => focused_monitors_mask(items),
        },
    }
}

/// The focused mask: from the monitors, else from the active workspace.
pub open spec fn focus_mask(monitors: JsonValue, active_ws: Option<JsonValue>, sel: Option<Seq<char>>) -> u32 {
    let m = monitors_focus_mask(monitors, sel);
    if m != 0 {
        m
    } else {
        match active_ws {
            Some(a) => match as_i64(field(a, "id"@)) {
                Some(v) => if in_range(v as u32) {
                    bit(v as u32)
                } else {
                    0
                },
                None => 0,
            },
            None => 0,
        }
    }
}

proof fn lemma_bit_fits(id: u32)
    requires
        in_range(id),
    ensures
        bit(id) != 0,
{
    let k = (id - 1) as u32;
    assert(1u32 << k != 0) by (bit_vector)
        requires
            k < 32,
    ;
}

fn occupied_from(items: &Vec<JsonValue>, selected: Option<&str>) -> (r: u32)
    ensures
        r == occupied_mask(items@, opt_view(selected)),
{
    let mut mask: u32 = 0;
    let mut i: usize = 0;
    while i < items.len()
        invariant
            i <= items.len(),
            mask == occupied_mask(items@.take(i as int), opt_view(selected)),
        decreases items.len() - i,
    {
        proof {
            assert(items@.take(i + 1).drop_last() =~= items@.take(i as int));
            assert(items@.take(i + 1).last() == items@[i as int]);
        }
        let ws = &items[i];
        let id = match get_i64(ws, "id") {
            Some(v) => v,
            None => 0,
        } as u32;
        let mut counts = 1 <= id && id <= 32;
        if counts {
            if let Some(name) = selected {
                let ws_monitor = match get_str(ws, "monitor") {
                    Some(m) => m,
                    None => {
                        proof {
                            reveal_strlit("");
                        }
                        assert(""@ =~= Seq::<char>::empty());
                        ""
                    },
                };
                counts = eq_ignore_ascii_case(ws_monitor, name);
            }
        }
        if counts {
            mask = mask | (1u32 << (id - 1));
        } else {
            assert(mask | 0u32 == mask) by (bit_vector);
        }
        i += 1;
    }
    assert(items@.take(items.len() as int) =~= items@);
    mask
}

/// The bit of a monitor entry's active workspace, zero outside 1..=32.
fn active_bit(m: &JsonValue) -> (r: u32)
    ensures
        r == (if in_range(active_ws_id(*m)) { bit(active_ws_id(*m)) } else { 0 }),
{
    let id = match get2_i64(m, "activeWorkspace", "id") {
        Some(v) => v,
        None => 0,
    } as u32;
    if 1 <= id && id <= 32 {
        1u32 << (id - 1)
    } else {
        0
    }
}

/// Whether a monitor entry carries the given name, in any case.
fn has_name(m: &JsonValue, name: &str) -> (r: bool)
    ensures
        r == monitor_named(name@)(*m),
{
    match get_str(m, "name") {
        Some(n) => eq_ignore_ascii_case(n, name),
        None => false,
    }
}

fn focused_from_monitors(monitors: &JsonValue, selected: Option<&str>) -> (r: u32)
    ensures
        r == monitors_focus_mask(*monitors, opt_view(selected)),
{
    let items = match monitors.as_array() {
        Some(items) => items,
        None => return 0,
    };
    match selected {
        Some(name) => {
            let ghost p = monitor_named(name@);
            let mut i: usize = 0;
            while i < items.len()
                invariant
                    p == monitor_named(name@),
                    i <= items.len(),
                    forall|j: int| 0 <= j < i ==> !p(#[trigger] items@[j]),
                    as_array(Some(*monitors)) == Some(items@),
                    opt_view(selected) == Some(name@),
                decreases items.len() - i,
            {
                if has_name(&items[i], name) {
                    proof {
                        lemma_first_match_some(items@, p, i as int);
                    }
                    let b = active_bit(&items[i]);
                    assert(first_match(items@, p) == Some(i as int));
                    assert(as_array(Some(*monitors)) == Some(items@));
                    assert(opt_view(selected) == Some(name@));
                    assert(monitors_focus_mask(*monitors, opt_view(selected)) == (if in_range(
                        active_ws_id(items@[i as int]),
                    ) {
                        bit(active_ws_id(items@[i as int]))
                    } else {
                        0
                    }));
                    return b;
                }
                i += 1;
            }
            proof {
                lemma_first_match_none(items@, p);
            }
            0
        },
        None => focused_of_all(items),
    }
}

fn focused_bit_of(m: &JsonValue) -> (r: u32)
    ensures
        r == focused_bit(*m),
{
    reveal(focused_bit);
    let b = active_bit(m);
    if b != 0 && get_bool(m, "focused") == Some(true) {
        b
    } else {
        proof {
            if in_range(active_ws_id(*m)) {
                lemma_bit_fits(active_ws_id(*m));
            }
        }
        0
    }
}

fn focused_of_all(items: &Vec<JsonValue>) -> (r: u32)
    ensures
        r == focused_monitors_mask(items@),
{
    let mut mask: u32 = 0;
    let mut i: usize = 0;
    while i < items.len()
        invariant
            i <= items.len(),
            mask == focused_monitors_mask(items@.take(i as int)),
        decreases items.len() - i,
    {
        proof {
            assert(items@.take(i + 1).drop_last() =~= items@.take(i as int));
            assert(items@.take(i + 1).last() == items@[i as int]);
        }
        let b = focused_bit_of(&items[i]);
        mask = mask | b;
        i += 1;
    }
    assert(items@.take(items.len() as int) =~= items@);
    mask
}

/// The focused workspace mask.
pub fn focused_mask(monitors: &JsonValue, active_workspace: Option<&JsonValue>, selected: Option<&str>) -> (r: u32)
    ensures
        r == focus_mask(*monitors, opt_json(active_workspace), opt_view(selected)),
{
    let m = focused_from_monitors(monitors, selected);
    if m != 0 {
        return m;
    }
    match active_workspace {
        Some(a) => match get_i64(a, "id") {
            Some(v) => {
                let id = v as u32;
                if 1 <= id && id <= 32 {
                    1u32 << (id - 1)
                } else {
                    0
                }
            },
            None => 0,
        },
        None => 0,
    }
}

// ---------------------------------------------------------------------------
// Clients.
/// The entries of a JSON array, or none.
pub open spec fn items_of(v: JsonValue) -> Seq<JsonValue> {
    match as_array(Some(v)) {
        Some(items) => items,
        None => seq![],
    }
}

/// The name of the monitor with the given id: the last entry that has both
/// an id and a name wins.
pub open spec fn name_for_id(items: Seq<JsonValue>, id: i64) -> Option<Seq<char>>
    decreases items.len(),
{
    if items.len() == 0 {
        None
    } else {
        match id_name(items.last(), id) {
            Some(n) => Some(n),
            None => name_for_id(items.drop_last(), id),
        }
    }
}

/// The name of a monitor entry with the given id and a name.
#[verifier::opaque]
pub open spec fn id_name(m: JsonValue, id: i64) -> Option<Seq<char>> {
    if as_i64(field(m, "id"@)) == Some(id) {
        as_str(field(m, "name"@))
    } else {
        None
    }
}

fn monitor_id_name<'a>(m: &'a JsonValue, id: i64) -> (r: Option<&'a str>)
    ensures
        r matches Some(n) ==> id_name(*m, id) == Some(n@),
        r is None ==> id_name(*m, id) is None,
{
    reveal(id_name);
    if get_i64(m, "id") == Some(id) {
        get_str(m, "name")
    } else {
        None
    }
}

/// Whether a client on the monitor with the given id is shown for the
/// selected monitor.
pub open spec fn monitor_matches(monitors: Seq<JsonValue>, id: i64, sel: Option<Seq<char>>) -> bool {
    match sel {
        None => true,
        Some(name) => match name_for_id(monitors, id) {
            Some(n) => eq_fold(n, name),
            None => false,
        },
    }
}

/// A string field that holds more than whitespace.
pub open spec fn nonblank(v: Option<JsonValue>) -> Option<Seq<char>> {
    match as_str(v) {
        Some(s) => if trim(s).len() > 0 {
            Some(s)
        } else {
            None
        },
        None => None,
    }
}

/// The first of two string fields that holds more than whitespace, or the
/// empty text.
pub open spec fn first_nonempty_text(primary: Option<JsonValue>, fallback: Option<JsonValue>) -> Seq<char> {
    match nonblank(primary) {
        Some(s) => s,
        None => match nonblank(fallback) {
            Some(s) => s,
            None => seq![],
        },
    }
}

/// The workspace of a client, when its id is positive.
pub open spec fn client_workspace(c: JsonValue) -> Option<u32> {
    match as_i64(field2(c, "workspace"@, "id"@)) {
        Some(id) => if id > 0 {
            Some(id as u32)
        } else {
            None
        },
        None => None,
    }
}

pub open spec fn workspace_bit(w: Option<u32>) -> u32 {
    match w {
        Some(id) => if in_range(id) {
            bit(id)
        } else {
            0
        },
        None => 0,
    }
}

/// The toplevel entry of a client. It is focused when it is the active
/// window (or first in the focus history) and sits on the focused workspace.
pub open spec fn client_entry(c: JsonValue, active_addr: Option<Seq<char>>, focused_mask: u32) -> EntryView {
    let ws = client_workspace(c);
    let identifier = unwrap_text(as_str(field(c, "address"@)));
    let candidate = active_addr == Some(identifier) || as_i64(field(c, "focusHistoryID"@)) == Some(
        0i64,
    );
    EntryView {
        title: first_nonempty_text(field(c, "title"@), field(c, "initialTitle"@)),
        app_id: first_nonempty_text(field(c, "class"@), field(c, "initialClass"@)),
        identifier,
        workspace_id: ws,
        workspace_mask: workspace_bit(ws),
        focused: candidate && focused_mask != 0 && ws == Some(lowest_workspace(focused_mask)),
    }
}

/// Whether a client is listed: it is not known to be unmapped and its
/// monitor is the selected one.
pub open spec fn client_listed(c: JsonValue, monitors: Seq<JsonValue>, sel: Option<Seq<char>>) -> bool {
    as_bool(field(c, "mapped"@)) != Some(false) && monitor_matches(
        monitors,
        unwrap_i64(as_i64(field(c, "monitor"@))),
        sel,
    )
}

/// The toplevel entries of the listed clients, in order.
pub open spec fn client_entries(
    clients: Seq<JsonValue>,
    monitors: Seq<JsonValue>,
    sel: Option<Seq<char>>,
    active_addr: Option<Seq<char>>,
    focused_mask: u32,
) -> Seq<EntryView>
    decreases clients.len(),
{
    if clients.len() == 0 {
        seq![]
    } else {
        let rest = client_entries(clients.drop_last(), monitors, sel, active_addr, focused_mask);
        if client_listed(clients.last(), monitors, sel) {
            rest.push(client_entry(clients.last(), active_addr, focused_mask))
        } else {
            rest
        }
    }
}

/// The focused window: the last focused entry, or an empty one.
pub open spec fn last_focused(es: Seq<EntryView>) -> FocusedView
    decreases es.len(),
{
    if es.len() == 0 {
        FocusedView { title: seq![], app_id: seq![], identifier: seq![] }
    } else if es.last().focused {
        FocusedView { title: es.last().title, app_id: es.last().app_id, identifier: es.last().identifier }
    } else {
        last_focused(es.drop_last())
    }
}

fn name_for_monitor_id(items: &Vec<JsonValue>, id: i64) -> (r: Option<String>)
    ensures
        opt_string(r) == name_for_id(items@, id),
{
    let mut found: Option<String> = None;
    let mut i: usize = 0;
    while i < items.len()
        invariant
            i <= items.len(),
            opt_string(found) == name_for_id(items@.take(i as int), id),
        decreases items.len() - i,
    {
        proof {
            assert(items@.take(i + 1).drop_last() =~= items@.take(i as int));
            assert(items@.take(i + 1).last() == items@[i as int]);
        }
        if let Some(n) = monitor_id_name(&items[i], id) {
            found = Some(owned(n));
        }
        i += 1;
    }
    assert(items@.take(items.len() as int) =~= items@);
    found
}

fn nonblank_field<'a>(v: &'a JsonValue, key: &str) -> (r: Option<&'a str>)
    ensures
        r matches Some(s) ==> nonblank(field(*v, key@)) == Some(s@),
        r is None ==> nonblank(field(*v, key@)) is None,
{
    match get_str(v, key) {
        Some(s) => if is_blank(s) {
            None
        } else {
            Some(s)
        },
        None => None,
    }
}

/// The first of two string fields that holds more than whitespace.
pub fn first_nonempty(v: &JsonValue, primary: &str, fallback: &str) -> (r: String)
    ensures
        r@ == first_nonempty_text(field(*v, primary@), field(*v, fallback@)),
{
    match nonblank_field(v, primary) {
        Some(s) => owned(s),
        None => match nonblank_field(v, fallback) {
            Some(s) => owned(s),
            None => String::new(),
        },
    }
}

fn client_toplevel(c: &JsonValue, active_addr: Option<&str>, focused_mask: u32) -> (r: ToplevelEntry)
    ensures
        r@ == client_entry(*c, opt_view(active_addr), focused_mask),
{
    let workspace_id = match get2_i64(c, "workspace", "id") {
        Some(id) => if id > 0 {
            Some(id as u32)
        } else {
            None
        },
        None => None,
    };
    let workspace_mask = match workspace_id {
        Some(id) => if 1 <= id && id <= 32 {
            1u32 << (id - 1)
        } else {
            0
        },
        None => 0,
    };
    let title = first_nonempty(c, "title", "initialTitle");
    let app_id = first_nonempty(c, "class", "initialClass");
    let identifier = match get_str(c, "address") {
        Some(a) => owned(a),
        None => String::new(),
    };
    let same_address = match active_addr {
        Some(a) => str_eq(a, identifier.as_str()),
        None => false,
    };
    let candidate = same_address || get_i64(c, "focusHistoryID") == Some(0i64);
    let focused_ws = first_set_bit(focused_mask);
    let focused = candidate && focused_ws != 0 && match workspace_id {
        Some(w) => w == focused_ws,
        None => false,
    };
    ToplevelEntry { title, app_id, identifier, workspace_id, workspace_mask, focused }
}

fn client_is_listed(c: &JsonValue, monitors: &Vec<JsonValue>, selected: Option<&str>) -> (r: bool)
    ensures
        r == client_listed(*c, monitors@, opt_view(selected)),
{
    if get_bool(c, "mapped") == Some(false) {
        return false;
    }
    match selected {
        None => true,
        Some(name) => {
            let id = match get_i64(c, "monitor") {
                Some(v) => v,
                None => 0,
            };
            match name_for_monitor_id(monitors, id) {
                Some(n) => eq_ignore_ascii_case(n.as_str(), name),
                None => false,
            }
        },
    }
}

#[verifier::spinoff_prover]
#[verifier::rlimit(50)]
fn collect_clients(
    clients: &Vec<JsonValue>,
    monitors: &Vec<JsonValue>,
    selected: Option<&str>,
    active_addr: Option<&str>,
    focused_mask: u32,
) -> (r: (Vec<ToplevelEntry>, FocusedWindowSnapshot))
    ensures
        entries_view(r.0@) == client_entries(
            clients@,
            monitors@,
            opt_view(selected),
            opt_view(active_addr),
            focused_mask,
        ),
        r.1@ == last_focused(entries_view(r.0@)),
{
    let ghost sel = opt_view(selected);
    let ghost addr = opt_view(active_addr);
    let mut out: Vec<ToplevelEntry> = Vec::new();
    let mut fw = FocusedWindowSnapshot::empty();
    let mut i: usize = 0;
    while i < clients.len()
        invariant
            i <= clients.len(),
            sel == opt_view(selected),
            addr == opt_view(active_addr),
            entries_view(out@) == client_entries(clients@.take(i as int), monitors@, sel, addr, focused_mask),
            fw@ == last_focused(entries_view(out@)),
        decreases clients.len() - i,
    {
        proof {
            assert(clients@.take(i + 1).drop_last() =~= clients@.take(i as int));
            assert(clients@.take(i + 1).last() == clients@[i as int]);
        }
        if client_is_listed(&clients[i], monitors, selected) {
            let e = client_toplevel(&clients[i], active_addr, focused_mask);
            if e.focused {
                fw = FocusedWindowSnapshot {
                    title: e.title.clone(),
                    app_id: e.app_id.clone(),
                    identifier: e.identifier.clone(),
                };
            }
            let ghost before = entries_view(out@);
            out.push(e);
            proof {
                assert(entries_view(out@) =~= before.push(e@));
                assert(entries_view(out@).drop_last() =~= before);
            }
        }
        i += 1;
    }
    assert(clients@.take(clients.len() as int) =~= clients@);
    (out, fw)
}

/// The address of the active window, if the reply names one.
pub open spec fn active_address(active_client: Option<JsonValue>) -> Option<Seq<char>> {
    match active_client {
        Some(a) => as_str(field(a, "address"@)),
        None => None,
    }
}

/// What a state collected from the five replies holds: the workspace masks
/// of the selected monitor, the listed clients and the focused window.
pub open spec fn collected(
    r: CompositorStateSnapshot,
    sel: Option<Seq<char>>,
    monitors: JsonValue,
    workspaces: JsonValue,
    clients: JsonValue,
    active_client: Option<JsonValue>,
    active_workspace: Option<JsonValue>,
) -> bool {
    let m = selected_monitor(sel, monitors, active_workspace);
    &&& r.workspace.focused_mask == focus_mask(monitors, active_workspace, m)
    &&& r.workspace.occupied_mask == occupied_mask(items_of(workspaces), m)
    &&& r.workspace.urgent_mask == 0
    &&& entries_view(r.toplevels@) == client_entries(
        items_of(clients),
        items_of(monitors),
        m,
        active_address(active_client),
        r.workspace.focused_mask,
    )
    &&& r.workspace.focused_window@ == last_focused(entries_view(r.toplevels@))
}

/// The compositor state from the documents of the `monitors`, `workspaces`,
/// `clients`, `activewindow` and `activeworkspace` queries.
pub fn collect_state(
    output_selector: Option<&str>,
    monitors: &JsonValue,
    workspaces: &JsonValue,
    clients: &JsonValue,
    active_client: Option<&JsonValue>,
    active_workspace: Option<&JsonValue>,
) -> (r: CompositorStateSnapshot)
    ensures
        collected(
            r,
            opt_view(output_selector),
            *monitors,
            *workspaces,
            *clients,
            opt_json(active_client),
            opt_json(active_workspace),
        ),
{
    let active_addr: Option<&str> = match active_client {
        Some(a) => get_str(a, "address"),
        None => None,
    };
    let selected = resolve_selected_monitor_json(output_selector, monitors, active_workspace);
    let selected_name: Option<&str> = match &selected {
        Some(n) => Some(n.as_str()),
        None => None,
    };
    let occupied = match workspaces.as_array() {
        Some(items) => occupied_from(items, selected_name),
        None => 0,
    };
    let focused = focused_mask(monitors, active_workspace, selected_name);
    let empty: Vec<JsonValue> = Vec::new();
    let monitor_items = match monitors.as_array() {
        Some(items) => items,
        None => &empty,
    };
    let (toplevels, focused_window) = match clients.as_array() {
        Some(items) => collect_clients(items, monitor_items, selected_name, active_addr, focused),
        None => (Vec::new(), FocusedWindowSnapshot::empty()),
    };
    assert(opt_view(active_addr) == active_address(opt_json(active_client)));
    assert(opt_view(selected_name) == opt_string(selected));
    assert(monitor_items@ == items_of(*monitors));
    let r = CompositorStateSnapshot {
        workspace: CompositorSnapshot { focused_mask: focused, occupied_mask: occupied, urgent_mask: 0, focused_window },
        toplevels,
    };
    let ghost m = selected_monitor(opt_view(output_selector), *monitors, opt_json(active_workspace));
    assert(r.workspace.focused_mask == focus_mask(*monitors, opt_json(active_workspace), m));
    assert(r.workspace.occupied_mask == occupied_mask(items_of(*workspaces), m));
    assert(entries_view(r.toplevels@) == client_entries(
        items_of(*clients),
        items_of(*monitors),
        m,
        active_address(opt_json(active_client)),
        r.workspace.focused_mask,
    ));
    assert(r.workspace.focused_window@ == last_focused(entries_view(r.toplevels@)));
    r
}

/// The compositor state from the raw replies of the five queries; nothing
/// when the `monitors`, `workspaces` or `clients` reply is missing, empty or
/// not JSON.
pub fn collect_state_from_replies(
    output_selector: Option<&str>,
    monitors: Option<&[u8]>,
    workspaces: Option<&[u8]>,
    clients: Option<&[u8]>,
    active_client: Option<&[u8]>,
    active_workspace: Option<&[u8]>,
) -> (r: Option<CompositorStateSnapshot>)
    ensures
        r is Some <==> (reply_json(bytes_view(monitors)) is Some && reply_json(bytes_view(workspaces)) is Some
            && reply_json(bytes_view(clients)) is Some),
        r matches Some(st) ==> collected(
            st,
            opt_view(output_selector),
            reply_json(bytes_view(monitors))->0,
            reply_json(bytes_view(workspaces))->0,
            reply_json(bytes_view(clients))->0,
            reply_json(bytes_view(active_client)),
            reply_json(bytes_view(active_workspace)),
        ),
{
    let m = match query_reply(monitors) {
        Some(v) => v,
        None => return None,
    };
    let w = match query_reply(workspaces) {
        Some(v) => v,
        None => return None,
    };
    let c = match query_reply(clients) {
        Some(v) => v,
        None => return None,
    };
    let ac = query_reply(active_client);
    let aw = query_reply(active_workspace);
    Some(collect_state(output_selector, &m, &w, &c, ac.as_ref(), aw.as_ref()))
}

} // verus!
