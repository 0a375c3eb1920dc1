//! Sway (and i3): the IPC message framing, and reading workspaces, the
//! focused window and the toplevel windows from the `GET_WORKSPACES`,
//! `GET_TREE` and `GET_OUTPUTS` replies.
use vstd::prelude::*;

use crate::compositor::{
    entries_view, CompositorSnapshot, CompositorStateSnapshot, EntryView, FocusedView,
    FocusedWindowSnapshot, ToplevelEntry,
};
use crate::hyprland::{
    bit, in_range, items_of, nonblank, opt_string, unwrap_i64, unwrap_text, workspace_bit,
};
use crate::json::{
    as_array, as_bool, as_i64, as_str, field, field2, get_bool, get_i64, get_str, get2_str,
    lemma_field_inside, opt_json, JsonValue,
};
use crate::order::{ascending, lemma_ascending_len, sort_strings, texts};
use crate::selector::opt_view;
use crate::seqs::{first_match, lemma_first_match_none, lemma_first_match_some};
use crate::text::{
    all_digits, digits_value, eq_fold, eq_ignore_ascii_case, is_blank, is_digit, owned, parse_u32,
    parse_unsigned, parse_usize, i64_to_string, signed_decimal, string_from, chars_vec, trim, trim_str, is_ascii_digit,
};

verus! {

// ---------------------------------------------------------------------------
// Message framing.
/// The message types the bar sends.
pub const SWAY_IPC_RUN_COMMAND: u32 = 0;
pub const SWAY_IPC_GET_WORKSPACES: u32 = 1;
pub const SWAY_IPC_SUBSCRIBE: u32 = 2;
pub const SWAY_IPC_GET_OUTPUTS: u32 = 3;
pub const SWAY_IPC_GET_TREE: u32 = 4;

/// The magic string that opens every message.
pub open spec fn magic() -> Seq<u8> {
    seq![0x69u8, 0x33u8, 0x2du8, 0x69u8, 0x70u8, 0x63u8]
}

/// A 32-bit number as four bytes, least significant first.
pub open spec fn le_bytes(x: u32) -> Seq<u8> {
    seq![
        (x % 256) as u8,
        ((x / 256) % 256) as u8,
        ((x / 65536) % 256) as u8,
        ((x / 16777216) % 256) as u8,
    ]
}

/// The number four bytes stand for, least significant first.
pub open spec fn le_value(b: Seq<u8>) -> int {
    b[0] + 256 * b[1] + 65536 * b[2] + 16777216 * b[3]
}

/// A whole message: magic, payload length, type and payload.
pub open spec fn framed(msg_type: u32, payload: Seq<u8>) -> Seq<u8> {
    magic() + le_bytes(payload.len() as u32) + le_bytes(msg_type) + payload
}

fn push_le(out: &mut Vec<u8>, x: u32)
    ensures
        final(out)@ == old(out)@ + le_bytes(x),
{
    out.push((x % 256) as u8);
    out.push(((x / 256) % 256) as u8);
    out.push(((x / 65536) % 256) as u8);
    out.push(((x / 16777216) % 256) as u8);
    assert(final(out)@ =~= old(out)@ + le_bytes(x));
}

/// The bytes of a message of the given type; the length field holds the
/// payload's length cut to 32 bits.
pub fn encode_message(msg_type: u32, payload: &[u8]) -> (r: Vec<u8>)
    ensures
        r@ == framed(msg_type, payload@),
{
    let mut out: Vec<u8> = Vec::new();
    out.push(0x69u8);
    out.push(0x33u8);
    out.push(0x2du8);
    out.push(0x69u8);
    out.push(0x70u8);
    out.push(0x63u8);
    assert(out@ =~= magic());
    push_le(&mut out, payload.len() as u32);
    push_le(&mut out, msg_type);
    let mut i: usize = 0;
    let ghost head = out@;
    while i < payload.len()
        invariant
            i <= payload.len(),
            out@ == head + payload@.take(i as int),
        decreases payload.len() - i,
    {
        out.push(payload[i]);
        assert(out@ =~= head + payload@.take(i + 1));
        i += 1;
    }
    assert(payload@.take(payload.len() as int) =~= payload@);
    out
}

/// What a 14-byte header says: the message type and the payload length;
/// nothing when it does not open with the magic string.
pub open spec fn header_fields(h: Seq<u8>) -> Option<(u32, nat)> {
    if h.take(6) == magic() {
        Some((le_value(h.subrange(10, 14)) as u32, le_value(h.subrange(6, 10)) as nat))
    } else {
        None
    }
}

/// Reads a message header.
pub fn parse_header(header: &[u8]) -> (r: Option<(u32, usize)>)
    requires
        header@.len() == 14,
    ensures
        r matches Some((t, n)) ==> header_fields(header@) == Some((t, n as nat)),
        r is None ==> header_fields(header@) is None,
{
    if header[0] != 0x69u8 || header[1] != 0x33u8 || header[2] != 0x2du8 || header[3] != 0x69u8
        || header[4] != 0x70u8 || header[5] != 0x63u8 {
        proof {
            if header@.take(6) == magic() {
                assert(header@.take(6)[0] == header@[0]);
                assert(header@.take(6)[1] == header@[1]);
                assert(header@.take(6)[2] == header@[2]);
                assert(header@.take(6)[3] == header@[3]);
                assert(header@.take(6)[4] == header@[4]);
                assert(header@.take(6)[5] == header@[5]);
            }
        }
        return None;
    }
    assert(header@.take(6) =~= magic());
    let len: u32 = header[6] as u32 + 256 * (header[7] as u32) + 65536 * (header[8] as u32)
        + 16777216 * (header[9] as u32);
    let msg_type: u32 = header[10] as u32 + 256 * (header[11] as u32) + 65536 * (header[12] as u32)
        + 16777216 * (header[13] as u32);
    assert(le_value(header@.subrange(6, 10)) == len);
    assert(le_value(header@.subrange(10, 14)) == msg_type);
    Some((msg_type, len as usize))
}

/// Four bytes read back as the number they were written from.
pub proof fn lemma_le_round_trip(x: u32)
    ensures
        le_value(le_bytes(x)) == x,
{
    let a = x % 256;
    let b = (x / 256) % 256;
    let c = (x / 65536) % 256;
    let d = (x / 16777216) % 256;
    assert(a + 256 * b + 65536 * c + 16777216 * d == x) by (bit_vector)
        requires
            a == x % 256,
            b == (x / 256) % 256,
            c == (x / 65536) % 256,
            d == (x / 16777216) % 256,
    ;
    assert(le_bytes(x)[0] == a);
    assert(le_bytes(x)[1] == b);
    assert(le_bytes(x)[2] == c);
    assert(le_bytes(x)[3] == d);
}

/// The header of a framed message reads back its type and its payload's
/// length.
pub proof fn law_frame_header_round_trip(msg_type: u32, payload: Seq<u8>)
    requires
        payload.len() <= u32::MAX,
    ensures
        header_fields(framed(msg_type, payload).take(14)) == Some((msg_type, payload.len())),
{
    let f = framed(msg_type, payload);
    let n = payload.len() as u32;
    assert(f.take(14).take(6) =~= magic());
    assert(f.take(14).subrange(6, 10) =~= le_bytes(n));
    assert(f.take(14).subrange(10, 14) =~= le_bytes(msg_type));
    lemma_le_round_trip(n);
    lemma_le_round_trip(msg_type);
}

// ---------------------------------------------------------------------------
// Commands.
/// The outcome of a `RUN_COMMAND` request from its reply (nothing when the
/// request failed): success when the reply is a list whose entries all
/// report success.
pub open spec fn command_outcome(reply: Option<JsonValue>, command: Seq<char>) -> Result<(), Seq<char>> {
    match reply {
        None => Err("failed to run sway ipc command"@),
        Some(v) => match as_array(Some(v)) {
            None => Err("unexpected sway run_command response"@),
            Some(items) => if forall|i: int|
                0 <= i < items.len() ==> as_bool(field(#[trigger] items[i], "success"@)) == Some(true) {
                Ok(())
            } else {
                Err("sway command failed: "@ + command)
            },
        },
    }
}

pub open spec fn unit_result_view(r: Result<(), String>) -> Result<(), Seq<char>> {
    match r {
        Ok(()) => Ok(()),
        Err(e) => Err(e@),
    }
}

/// Reads the reply to a command.
pub fn run_command(command: &str, reply: Option<&JsonValue>) -> (r: Result<(), String>)
    ensures
        unit_result_view(r) == command_outcome(opt_json(reply), command@),
{
    let v = match reply {
        Some(v) => v,
        None => return Err(String::from_str("failed to run sway ipc command")),
    };
    let items = match v.as_array() {
        Some(items) => items,
        None => return Err(String::from_str("unexpected sway run_command response")),
    };
    let mut i: usize = 0;
    while i < items.len()
        invariant
            i <= items.len(),
            opt_json(reply) == Some(*v),
            as_array(Some(*v)) == Some(items@),
            forall|j: int| 0 <= j < i ==> as_bool(field(#[trigger] items@[j], "success"@)) == Some(true),
        decreases items.len() - i,
    {
        if get_bool(&items[i], "success") != Some(true) {
            assert(!(as_bool(field(items@[i as int], "success"@)) == Some(true)));
            let mut m = String::from_str("sway command failed: ");
            m.append(command);
            return Err(m);
        }
        i += 1;
    }
    Ok(())
}

/// The command that focuses a workspace: `workspace number <n>`.
pub fn workspace_command(index_1_based: u32) -> (r: String)
    ensures
        r@ == "workspace number "@ + crate::text::decimal(index_1_based as nat),
{
    let mut s = String::from_str("workspace number ");
    let n = crate::text::u64_to_string(index_1_based as u64);
    s.append(n.as_str());
    s
}

// ---------------------------------------------------------------------------
// Selecting the output.
/// The names of the active outputs that have one, in order.
pub open spec fn active_output_names(items: Seq<JsonValue>) -> Seq<Seq<char>>
    decreases items.len(),
{
    if items.len() == 0 {
        seq![]
    } else {
        let rest = active_output_names(items.drop_last());
        match active_name(items.last()) {
            Some(n) => rest.push(n),
            None => rest,
        }
    }
}

/// The name of an output entry that is active and has one.
#[verifier::opaque]
pub open spec fn active_name(o: JsonValue) -> Option<Seq<char>> {
    if as_bool(field(o, "active"@)) == Some(true) {
        as_str(field(o, "name"@))
    } else {
        None
    }
}

fn output_active_name<'a>(o: &'a JsonValue) -> (r: Option<&'a str>)
    ensures
        r matches Some(n) ==> active_name(*o) == Some(n@),
        r is None ==> active_name(*o) is None,
{
    reveal(active_name);
    if get_bool(o, "active") == Some(true) {
        get_str(o, "name")
    } else {
        None
    }
}

/// The output at an index of the sorted names of the active outputs.
pub open spec fn output_at(index: nat, outputs: Option<JsonValue>) -> Option<Seq<char>> {
    match outputs {
        None => None,
        Some(o) => match as_array(Some(o)) {
            None => None,
            Some(items) => {
                let names = ascending(active_output_names(items));
                if index < names.len() {
                    Some(names[index as int])
                } else {
                    None
                }
            },
        },
    }
}

/// The name of the output at an index among the active outputs, sorted by
/// name, from the `GET_OUTPUTS` reply.
pub fn output_name_by_index(index: usize, outputs: Option<&JsonValue>) -> (r: Option<String>)
    ensures
        opt_string(r) == output_at(index as nat, opt_json(outputs)),
{
    let o = match outputs {
        Some(o) => o,
        None => return None,
    };
    let items = match o.as_array() {
        Some(items) => items,
        None => return None,
    };
    let mut names: Vec<String> = Vec::new();
    let mut i: usize = 0;
    while i < items.len()
        invariant
            i <= items.len(),
            texts(names@) == active_output_names(items@.take(i as int)),
        decreases items.len() - i,
    {
        proof {
            assert(items@.take(i + 1).drop_last() =~= items@.take(i as int));
            assert(items@.take(i + 1).last() == items@[i as int]);
        }
        if let Some(n) = output_active_name(&items[i]) {
            let ghost before = texts(names@);
            names.push(owned(n));
            assert(texts(names@) =~= before.push(n@));
        }
        i += 1;
    }
    assert(items@.take(items.len() as int) =~= items@);
    let sorted = sort_strings(names);
    proof {
        lemma_ascending_len(active_output_names(items@));
    }
    if index < sorted.len() {
        Some(sorted[index].clone())
    } else {
        None
    }
}

pub open spec fn workspace_focused() -> spec_fn(JsonValue) -> bool {
    |w: JsonValue| as_bool(field(w, "focused"@)) == Some(true)
}

/// The output of the first focused workspace.
pub open spec fn focused_output(workspaces: JsonValue) -> Option<Seq<char>> {
    match as_array(Some(workspaces)) {
        None => None,
        Some(items) => match first_match(items, workspace_focused()) {
            Some(i) => as_str(field(items[i], "output"@)),
            None => None,
        },
    }
}

/// The output of the first focused workspace.
pub fn focused_output_name(workspaces: &JsonValue) -> (r: Option<String>)
    ensures
        opt_string(r) == focused_output(*workspaces),
{
    let items = match workspaces.as_array() {
        Some(items) => items,
        None => return None,
    };
    let ghost p = workspace_focused();
    let mut i: usize = 0;
    while i < items.len()
        invariant
            p == workspace_focused(),
            as_array(Some(*workspaces)) == Some(items@),
            i <= items.len(),
            forall|j: int| 0 <= j < i ==> !p(#[trigger] items@[j]),
        decreases items.len() - i,
    {
        if get_bool(&items[i], "focused") == Some(true) {
            proof {
                lemma_first_match_some(items@, p, i as int);
            }
            return match get_str(&items[i], "output") {
                Some(s) => Some(owned(s)),
                None => None,
            };
        }
        i += 1;
    }
    proof {
        lemma_first_match_none(items@, p);
    }
    None
}

/// The output a selector designates: for a blank selector or "focused" the
/// output of the focused workspace, for an index that output among the
/// active ones, otherwise the trimmed selector itself.
pub open spec fn selected_output(sel: Seq<char>, workspaces: JsonValue, outputs: Option<JsonValue>) -> Option<Seq<char>> {
    let s = trim(sel);
    if s.len() == 0 || eq_fold(s, "focused"@) {
        focused_output(workspaces)
    } else {
        match parse_unsigned(s, usize::MAX as nat) {
            Some(i) => output_at(i, outputs),
            None => Some(s),
        }
    }
}

/// The output a selector designates.
pub fn resolve_selected_output(selector: &str, workspaces: &JsonValue, outputs: Option<&JsonValue>) -> (r: Option<String>)
    ensures
        opt_string(r) == selected_output(selector@, *workspaces, opt_json(outputs)),
{
    let s = trim_str(selector);
    if s.as_str().is_empty() || eq_ignore_ascii_case(s.as_str(), "focused") {
        return focused_output_name(workspaces);
    }
    match parse_usize(s.as_str()) {
        Some(i) => output_name_by_index(i, outputs),
        None => Some(s),
    }
}

// ---------------------------------------------------------------------------
// Workspace slots.
/// The end of the run of ASCII digits that starts at `i`.
pub open spec fn digit_run(s: Seq<char>, i: int) -> int
    decreases s.len() - i,
{
    if i < 0 || i >= s.len() || !is_digit(s[i]) {
        i
    } else {
        digit_run(s, i + 1)
    }
}

/// The ASCII digits a text starts with.
pub open spec fn leading_digits(s: Seq<char>) -> Seq<char> {
    s.take(digit_run(s, 0))
}

/// The ASCII digits a text starts with.
pub fn take_leading_digits(s: &str) -> (r: String)
    ensures
        r@ == leading_digits(s@),
{
    let v = chars_vec(s);
    let mut i: usize = 0;
    while i < v.len() && is_ascii_digit(v[i])
        invariant
            v@ == s@,
            i <= v.len(),
            digit_run(s@, 0) == digit_run(s@, i as int),
        decreases v.len() - i,
    {
        i += 1;
    }
    assert(digit_run(s@, i as int) == i);
    string_from(&v.as_slice()[0..i])
}

/// The next free slot for a workspace without a number, and the counter
/// after it; none once the counter is past 32.
pub open spec fn unnamed_step(counter: u32) -> (Option<u32>, u32) {
    if counter > 32 {
        (None, counter)
    } else {
        (Some(counter), (counter + 1) as u32)
    }
}

/// The slot of a workspace entry and the counter of unnamed slots after it:
/// its `num` when in 1..=32, else the number its trimmed name starts with
/// when in 1..=32, else the next unnamed slot. With `strict`, a name that
/// does not start with a number gives no slot (as in the workspace masks);
/// without, it takes an unnamed slot too (as in the slot maps).
pub open spec fn slot_step(ws: JsonValue, counter: u32, strict: bool) -> (Option<u32>, u32) {
    let num = as_i64(field(ws, "num"@));
    if num is Some && 1 <= num->0 && num->0 <= 32 {
        (Some(num->0 as u32), counter)
    } else {
        match as_str(field(ws, "name"@)) {
            None => (None, counter),
            Some(name) => match parse_unsigned(leading_digits(trim(name)), u32::MAX as nat) {
                None => if strict {
                    (None, counter)
                } else {
                    unnamed_step(counter)
                },
                Some(p) => if 1 <= p && p <= 32 {
                    (Some(p as u32), counter)
                } else {
                    unnamed_step(counter)
                },
            },
        }
    }
}

fn slot_of(ws: &JsonValue, unnamed_slot: &mut u32, strict: bool) -> (r: Option<u32>)
    ensures
        (r, *final(unnamed_slot)) == slot_step(*ws, *old(unnamed_slot), strict),
{
    if let Some(num) = get_i64(ws, "num") {
        if 1 <= num && num <= 32 {
            return Some(num as u32);
        }
    }
    let name = match get_str(ws, "name") {
        Some(n) => n,
        None => return None,
    };
    let t = trim_str(name);
    let digits = take_leading_digits(t.as_str());
    match parse_u32(digits.as_str()) {
        Some(p) => if 1 <= p && p <= 32 {
            return Some(p);
        },
        None => if strict {
            return None;
        },
    }
    if *unnamed_slot > 32 {
        return None;
    }
    let out = *unnamed_slot;
    *unnamed_slot = *unnamed_slot + 1;
    Some(out)
}

/// The slot of a workspace for the workspace masks.
pub fn workspace_slot(ws: &JsonValue, unnamed_slot: &mut u32) -> (r: Option<u32>)
    ensures
        (r, *final(unnamed_slot)) == slot_step(*ws, *old(unnamed_slot), true),
{
    slot_of(ws, unnamed_slot, true)
}

/// The slot of a workspace for the slot maps.
pub fn workspace_slot_from_workspace_list_entry(ws: &JsonValue, unnamed_slot: &mut u32) -> (r: Option<u32>)
    ensures
        (r, *final(unnamed_slot)) == slot_step(*ws, *old(unnamed_slot), false),
{
    slot_of(ws, unnamed_slot, false)
}

// ---------------------------------------------------------------------------
// Workspace masks.
/// Focused, occupied and urgent masks, and the unnamed-slot counter.
pub struct MaskState {
    pub focused: u32,
    pub occupied: u32,
    pub urgent: u32,
    pub counter: u32,
}

/// Whether a workspace on the given output is shown for the selected one.
pub open spec fn on_output(ws: JsonValue, sel: Option<Seq<char>>) -> bool {
    match sel {
        Some(name) => eq_fold(unwrap_text(as_str(field(ws, "output"@))), name),
        None => true,
    }
}

/// One workspace entry's effect on the masks.
#[verifier::opaque]
pub open spec fn mask_step(st: MaskState, ws: JsonValue, sel: Option<Seq<char>>) -> MaskState {
    let (slot, counter) = slot_step(ws, st.counter, true);
    match slot {
        Some(k) => if in_range(k) && on_output(ws, sel) {
            let b = bit(k);
            MaskState {
                focused: if as_bool(field(ws, "focused"@)) == Some(true) {
                    st.focused | b
                } else {
                    st.focused
                },
                occupied: st.occupied | b,
                urgent: if as_bool(field(ws, "urgent"@)) == Some(true) {
                    st.urgent | b
                } else {
                    st.urgent
                },
                counter,
            }
        } else {
            MaskState { counter, ..st }
        },
        None => MaskState { counter, ..st },
    }
}

/// The masks after the workspace entries, from empty masks and counter 1.
pub open spec fn workspace_masks(items: Seq<JsonValue>, sel: Option<Seq<char>>) -> MaskState
    decreases items.len(),
{
    if items.len() == 0 {
        MaskState { focused: 0, occupied: 0, urgent: 0, counter: 1 }
    } else {
        mask_step(workspace_masks(items.drop_last(), sel), items.last(), sel)
    }
}

fn apply_workspace(st: MaskState, ws: &JsonValue, selected: Option<&str>) -> (r: MaskState)
    ensures
        r == mask_step(st, *ws, opt_view(selected)),
{
    reveal(mask_step);
    let mut counter = st.counter;
    let slot = workspace_slot(ws, &mut counter);
    let k = match slot {
        Some(k) => k,
        None => return MaskState { counter, ..st },
    };
    if !(1 <= k && k <= 32) {
        return MaskState { counter, ..st };
    }
    if let Some(name) = selected {
        let out_name = match get_str(ws, "output") {
            Some(o) => o,
            None => {
                proof {
                    reveal_strlit("");
                }
                assert(""@ =~= Seq::<char>::empty());
                ""
            },
        };
        if !eq_ignore_ascii_case(out_name, name) {
            return MaskState { counter, ..st };
        }
    }
    let b = 1u32 << (k - 1);
    MaskState {
        focused: if get_bool(ws, "focused") == Some(true) {
            st.focused | b
        } else {
            st.focused
        },
        occupied: st.occupied | b,
        urgent: if get_bool(ws, "urgent") == Some(true) {
            st.urgent | b
        } else {
            st.urgent
        },
        counter,
    }
}

/// The masks of the workspaces on the selected output.
pub fn collect_masks(items: &Vec<JsonValue>, selected: Option<&str>) -> (r: MaskState)
    ensures
        r == workspace_masks(items@, opt_view(selected)),
{
    let mut st = MaskState { focused: 0, occupied: 0, urgent: 0, counter: 1 };
    let mut i: usize = 0;
    while i < items.len()
        invariant
            i <= items.len(),
            st == workspace_masks(items@.take(i as int), opt_view(selected)),
        decreases items.len() - i,
    {
        proof {
            assert(items@.take(i + 1).drop_last() =~= items@.take(i as int));
            assert(items@.take(i + 1).last() == items@[i as int]);
        }
        st = apply_workspace(st, &items[i], selected);
        i += 1;
    }
    assert(items@.take(items.len() as int) =~= items@);
    st
}

/// Whether a workspace entry carries `true` under the given key.
pub open spec fn marked(ws: JsonValue, key: Seq<char>) -> bool {
    as_bool(field(ws, key)) == Some(true)
}

/// Whether the bit of workspace `k` is set in a mask.
#[verifier::opaque]
pub open spec fn has_bit(mask: u32, k: u32) -> bool {
    mask & bit(k) != 0
}

/// The slot the `i`th workspace entry is counted in for the masks: the slot
/// it gets from the counter the entries before it left, when that slot is in
/// 1..=32 and the entry is on the selected output; none otherwise.
#[verifier::opaque]
pub open spec fn counted_slot(items: Seq<JsonValue>, sel: Option<Seq<char>>, i: int) -> Option<u32> {
    let k = slot_step(items[i], workspace_masks(items.take(i), sel).counter, true).0;
    if k is Some && in_range(k->0) && on_output(items[i], sel) {
        k
    } else {
        None
    }
}

proof fn lemma_or_bit(a: u32, k: u32, k0: u32)
    requires
        in_range(k),
        in_range(k0),
    ensures
        has_bit(a | bit(k0), k) <==> (has_bit(a, k) || k == k0),
{
    reveal(has_bit);
    let s = (k - 1) as u32;
    let s0 = (k0 - 1) as u32;
    assert(((a | (1u32 << s0)) & (1u32 << s) != 0) <==> ((a & (1u32 << s) != 0) || s == s0))
        by (bit_vector)
        requires
            s < 32,
            s0 < 32,
    ;
}

proof fn lemma_no_bit_in_zero(k: u32)
    requires
        in_range(k),
    ensures
        !has_bit(0u32, k),
{
    reveal(has_bit);
    let s = (k - 1) as u32;
    assert(0u32 & (1u32 << s) == 0) by (bit_vector);
}

proof fn lemma_within_after_or(f: u32, o: u32, b: u32, set_f: bool)
    requires
        f & !o == 0,
    ensures
        (if set_f { f | b } else { f }) & !(o | b) == 0,
{
    assert(f & !(o | b) == 0 && (f | b) & !(o | b) == 0) by (bit_vector)
        requires
            f & !o == 0,
    ;
}

proof fn lemma_counted_prefix(items: Seq<JsonValue>, sel: Option<Seq<char>>)
    requires
        items.len() > 0,
    ensures
        forall|i: int|
            0 <= i < items.len() - 1 ==> #[trigger] counted_slot(items, sel, i) == counted_slot(
                items.drop_last(),
                sel,
                i,
            ),
        items.take(items.len() - 1) == items.drop_last(),
{
    let pre = items.drop_last();
    reveal(counted_slot);
    assert forall|i: int| 0 <= i < items.len() - 1 implies #[trigger] counted_slot(items, sel, i)
        == counted_slot(pre, sel, i) by {
        assert(items.take(i) =~= pre.take(i));
        assert(items[i] == pre[i]);
    }
    assert(items.take(items.len() - 1) =~= pre);
}

/// A mask bit set after the entries: by an earlier entry, or by the last.
proof fn lemma_mask_bit_step(
    items: Seq<JsonValue>,
    sel: Option<Seq<char>>,
    k: u32,
    key: Seq<char>,
    old_mask: u32,
    new_mask: u32,
    any_entry: bool,
)
    requires
        items.len() > 0,
        in_range(k),
        has_bit(old_mask, k) <==> exists|i: int|
            0 <= i < items.len() - 1 && counted_slot(items.drop_last(), sel, i) == Some(k) && (any_entry
                || marked(items.drop_last()[i], key)),
        forall|i: int|
            0 <= i < items.len() - 1 ==> #[trigger] counted_slot(items, sel, i) == counted_slot(
                items.drop_last(),
                sel,
                i,
            ),
        counted_slot(items, sel, items.len() - 1) is Some ==> in_range(
            counted_slot(items, sel, items.len() - 1)->0,
        ),
        ({
            let c = counted_slot(items, sel, items.len() - 1);
            if c is Some && (any_entry || marked(items.last(), key)) {
                new_mask == old_mask | bit(c->0)
            } else {
                new_mask == old_mask
            }
        }),
    ensures
        has_bit(new_mask, k) <==> exists|i: int|
            0 <= i < items.len() && counted_slot(items, sel, i) == Some(k) && (any_entry || marked(
                items[i],
                key,
            )),
{
    let n = items.len() - 1;
    let pre = items.drop_last();
    let c = counted_slot(items, sel, n);
    if c is Some && (any_entry || marked(items.last(), key)) {
        lemma_or_bit(old_mask, k, c->0);
    }
    if has_bit(new_mask, k) {
        if has_bit(old_mask, k) {
            let i = choose|i: int|
                0 <= i < n && counted_slot(pre, sel, i) == Some(k) && (any_entry || marked(pre[i], key));
            assert(counted_slot(items, sel, i) == Some(k) && items[i] == pre[i]);
        } else {
            assert(counted_slot(items, sel, n) == Some(k));
        }
    }
    if exists|i: int|
        0 <= i < items.len() && counted_slot(items, sel, i) == Some(k) && (any_entry || marked(
            items[i],
            key,
        )) {
        let i = choose|i: int|
            0 <= i < items.len() && counted_slot(items, sel, i) == Some(k) && (any_entry || marked(
                items[i],
                key,
            ));
        if i < n {
            assert(counted_slot(pre, sel, i) == Some(k) && items[i] == pre[i]);
        }
    }
}

/// The masks after the last entry, from those before it and its counted slot.
proof fn lemma_last_entry_step(items: Seq<JsonValue>, sel: Option<Seq<char>>)
    requires
        items.len() > 0,
    ensures
        ({
            let st = workspace_masks(items.drop_last(), sel);
            let r = workspace_masks(items, sel);
            let c = counted_slot(items, sel, items.len() - 1);
            let f = marked(items.last(), "focused"@);
            let u = marked(items.last(), "urgent"@);
            if c is Some {
                &&& in_range(c->0)
                &&& r.occupied == st.occupied | bit(c->0)
                &&& r.focused == if f { st.focused | bit(c->0) } else { st.focused }
                &&& r.urgent == if u { st.urgent | bit(c->0) } else { st.urgent }
            } else {
                &&& r.occupied == st.occupied
                &&& r.focused == st.focused
                &&& r.urgent == st.urgent
            }
        }),
{
    reveal(mask_step);
    reveal(counted_slot);
    let n = items.len() - 1;
    assert(items.take(n) =~= items.drop_last());
    assert(items[n] == items.last());
}

proof fn lemma_masks_bits(items: Seq<JsonValue>, sel: Option<Seq<char>>)
    ensures
        forall|k: u32|
            in_range(k) ==> (#[trigger] has_bit(workspace_masks(items, sel).occupied, k) <==> exists|i: int|
                0 <= i < items.len() && counted_slot(items, sel, i) == Some(k) && (true || marked(
                    items[i],
                    "occupied"@,
                ))),
        forall|k: u32|
            in_range(k) ==> (#[trigger] has_bit(workspace_masks(items, sel).focused, k) <==> exists|i: int|
                0 <= i < items.len() && counted_slot(items, sel, i) == Some(k) && (false || marked(
                    items[i],
                    "focused"@,
                ))),
        forall|k: u32|
            in_range(k) ==> (#[trigger] has_bit(workspace_masks(items, sel).urgent, k) <==> exists|i: int|
                0 <= i < items.len() && counted_slot(items, sel, i) == Some(k) && (false || marked(
                    items[i],
                    "urgent"@,
                ))),
        workspace_masks(items, sel).focused & !workspace_masks(items, sel).occupied == 0,
        workspace_masks(items, sel).urgent & !workspace_masks(items, sel).occupied == 0,
    decreases items.len(),
{
    if items.len() == 0 {
        assert forall|k: u32| in_range(k) implies !#[trigger] has_bit(0u32, k) by {
            lemma_no_bit_in_zero(k);
        }
        assert(0u32 & !0u32 == 0) by (bit_vector);
    } else {
        let pre = items.drop_last();
        lemma_masks_bits(pre, sel);
        lemma_counted_prefix(items, sel);
        let st = workspace_masks(pre, sel);
        let r = workspace_masks(items, sel);
        let n = items.len() - 1;
        let c = counted_slot(items, sel, n);
        lemma_last_entry_step(items, sel);
        assert(items[n] == items.last());
        if c is Some {
            let b = bit(c->0);
            lemma_within_after_or(st.focused, st.occupied, b, marked(items.last(), "focused"@));
            lemma_within_after_or(st.urgent, st.occupied, b, marked(items.last(), "urgent"@));
        } else {
        }
        assert forall|k: u32| in_range(k) implies (#[trigger] has_bit(r.occupied, k) <==> exists|i: int|
            0 <= i < items.len() && counted_slot(items, sel, i) == Some(k) && (true || marked(
                items[i],
                "occupied"@,
            ))) by {
            lemma_mask_bit_step(items, sel, k, "occupied"@, st.occupied, r.occupied, true);
        }
        assert forall|k: u32| in_range(k) implies (#[trigger] has_bit(r.focused, k) <==> exists|i: int|
            0 <= i < items.len() && counted_slot(items, sel, i) == Some(k) && (false || marked(
                items[i],
                "focused"@,
            ))) by {
            lemma_mask_bit_step(items, sel, k, "focused"@, st.focused, r.focused, false);
        }
        assert forall|k: u32| in_range(k) implies (#[trigger] has_bit(r.urgent, k) <==> exists|i: int|
            0 <= i < items.len() && counted_slot(items, sel, i) == Some(k) && (false || marked(
                items[i],
                "urgent"@,
            ))) by {
            lemma_mask_bit_step(items, sel, k, "urgent"@, st.urgent, r.urgent, false);
        }
    }
}

/// A workspace's bit is in the occupied mask exactly when some entry counted
/// for the selected output has that slot, and in the focused (urgent) mask
/// exactly when such an entry is marked `"focused": true` (`"urgent": true`);
/// the focused and urgent masks lie within the occupied one.
pub proof fn law_workspace_masks(items: Seq<JsonValue>, sel: Option<Seq<char>>, k: u32)
    requires
        in_range(k),
    ensures
        has_bit(workspace_masks(items, sel).occupied, k) <==> exists|i: int|
            0 <= i < items.len() && #[trigger] counted_slot(items, sel, i) == Some(k),
        has_bit(workspace_masks(items, sel).focused, k) <==> exists|i: int|
            0 <= i < items.len() && #[trigger] counted_slot(items, sel, i) == Some(k) && marked(
                items[i],
                "focused"@,
            ),
        has_bit(workspace_masks(items, sel).urgent, k) <==> exists|i: int|
            0 <= i < items.len() && #[trigger] counted_slot(items, sel, i) == Some(k) && marked(
                items[i],
                "urgent"@,
            ),
        workspace_masks(items, sel).focused & !workspace_masks(items, sel).occupied == 0,
        workspace_masks(items, sel).urgent & !workspace_masks(items, sel).occupied == 0,
{
    lemma_masks_bits(items, sel);
}

// ---------------------------------------------------------------------------
// The layout tree.
/// The entries of an array-valued field of a node, or none.
#[verifier::opaque]
pub open spec fn kids(node: JsonValue, key: Seq<char>) -> Seq<JsonValue> {
    match field(node, key) {
        Some(JsonValue::Array(v)) => v@,
        _ => seq![],
    }
}

/// Each child listed under a field lies strictly inside the node.
pub proof fn lemma_kid_inside(node: JsonValue, key: Seq<char>, i: int)
    requires
        0 <= i < kids(node, key).len(),
    ensures
        decreases_to!(node => kids(node, key)[i]),
{
    reveal(kids);
    lemma_field_inside(node, key);
    let x = field(node, key)->0;
    match x {
        JsonValue::Array(v) => {
            assert(decreases_to!(x => v));
            assert(decreases_to!(v => v@));
            assert(decreases_to!(v@ => v@[i]));
        },
        _ => {},
    }
}

/// The application id of a node: `app_id`, else the X11 class.
pub open spec fn app_id_of(node: JsonValue) -> Option<Seq<char>> {
    match nonblank(field(node, "app_id"@)) {
        Some(a) => Some(a),
        None => nonblank(field2(node, "window_properties"@, "class"@)),
    }
}

/// The title of a node: `name`, else the X11 title, else the application id.
pub open spec fn title_of(node: JsonValue) -> Option<Seq<char>> {
    match nonblank(field(node, "name"@)) {
        Some(a) => Some(a),
        None => match nonblank(field2(node, "window_properties"@, "title"@)) {
            Some(t) => Some(t),
            None => app_id_of(node),
        },
    }
}

fn nonblank_str<'a>(s: Option<&'a str>) -> (r: Option<&'a str>)
    ensures
        r matches Some(x) ==> s matches Some(y) && x@ == y@ && trim(y@).len() > 0,
        r is None ==> (s is None || trim(s->0@).len() == 0),
{
    match s {
        Some(x) => if is_blank(x) {
            None
        } else {
            Some(x)
        },
        None => None,
    }
}

/// The application id of a node.
pub fn node_app_id<'a>(node: &'a JsonValue) -> (r: Option<&'a str>)
    ensures
        opt_view(r) == app_id_of(*node),
{
    match nonblank_str(get_str(node, "app_id")) {
        Some(a) => Some(a),
        None => nonblank_str(get2_str(node, "window_properties", "class")),
    }
}

/// The title of a node.
pub fn node_title<'a>(node: &'a JsonValue) -> (r: Option<&'a str>)
    ensures
        opt_view(r) == title_of(*node),
{
    match nonblank_str(get_str(node, "name")) {
        Some(a) => Some(a),
        None => match nonblank_str(get2_str(node, "window_properties", "title")) {
            Some(t) => Some(t),
            None => node_app_id(node),
        },
    }
}

/// Whether a node is a window: a container with an X11 window, an
/// application id or a title.
pub open spec fn is_window(node: JsonValue) -> bool {
    let t = unwrap_text(as_str(field(node, "type"@)));
    (t == "con"@ || t == "floating_con"@) && (unwrap_i64(as_i64(field(node, "window"@))) > 0
        || app_id_of(node) is Some || title_of(node) is Some)
}

/// Whether a node is the focused window.
pub open spec fn is_focused_window(node: JsonValue) -> bool {
    as_bool(field(node, "focused"@)) == Some(true) && is_window(node)
}

fn window_node(node: &JsonValue) -> (r: bool)
    ensures
        r == is_window(*node),
{
    let t = match get_str(node, "type") {
        Some(t) => t,
        None => {
            proof {
                reveal_strlit("");
            }
            assert(""@ =~= Seq::<char>::empty());
            ""
        },
    };
    if !crate::text::str_eq(t, "con") && !crate::text::str_eq(t, "floating_con") {
        return false;
    }
    let has_window = match get_i64(node, "window") {
        Some(w) => w > 0,
        None => false,
    };
    has_window || node_app_id(node).is_some() || node_title(node).is_some()
}

/// Whether a node is the focused window.
pub fn is_focused_window_node(node: &JsonValue) -> (r: bool)
    ensures
        r == is_focused_window(*node),
{
    if get_bool(node, "focused") != Some(true) {
        return false;
    }
    window_node(node)
}

/// The focused window in a subtree: searched in the tiled children, then
/// the floating ones, depth first; the node itself last.
pub open spec fn focused_in(node: JsonValue) -> Option<JsonValue>
    decreases node, kids(node, "nodes"@).len() + kids(node, "floating_nodes"@).len() + 1,
{
    match focused_among(node, "nodes"@, kids(node, "nodes"@).len()) {
        Some(x) => Some(x),
        None => match focused_among(node, "floating_nodes"@, kids(node, "floating_nodes"@).len()) {
            Some(x) => Some(x),
            None => if is_focused_window(node) {
                Some(node)
            } else {
                None
            },
        },
    }
}

/// The focused window in the first of the first `n` children under a field
/// whose subtree has one.
pub open spec fn focused_among(node: JsonValue, key: Seq<char>, n: nat) -> Option<JsonValue>
    decreases node, n,
{
    if n == 0 || n > kids(node, key).len() {
        None
    } else {
        match focused_among(node, key, (n - 1) as nat) {
            Some(x) => Some(x),
            None => {
                proof {
                    lemma_kid_inside(node, key, n - 1);
                }
                focused_in(kids(node, key)[n - 1])
            },
        }
    }
}

fn children<'a>(node: &'a JsonValue, key: &str) -> (r: Option<&'a Vec<JsonValue>>)
    ensures
        r matches Some(v) ==> v@ == kids(*node, key@),
        r is None ==> kids(*node, key@) == Seq::<JsonValue>::empty(),
{
    reveal(kids);
    match node.get(key) {
        Some(x) => match x {
            JsonValue::Array(v) => Some(v),
            _ => None,
        },
        None => None,
    }
}

/// The focused window node of a tree.
pub fn find_focused_node(node: &JsonValue) -> (r: Option<&JsonValue>)
    ensures
        opt_json(r) == focused_in(*node),
    decreases node,
{
    if let Some(found) = find_focused_among(node, "nodes") {
        return Some(found);
    }
    if let Some(found) = find_focused_among(node, "floating_nodes") {
        return Some(found);
    }
    if is_focused_window_node(node) {
        Some(node)
    } else {
        None
    }
}

#[verifier::spinoff_prover]
#[verifier::rlimit(40)]
fn find_focused_among<'a>(node: &'a JsonValue, key: &str) -> (r: Option<&'a JsonValue>)
    ensures
        opt_json(r) == focused_among(*node, key@, kids(*node, key@).len()),
    decreases node, 0nat,
{
    let items = match children(node, key) {
        Some(items) => items,
        None => return None,
    };
    let mut i: usize = 0;
    while i < items.len()
        invariant
            i <= items.len(),
            items@ == kids(*node, key@),
            focused_among(*node, key@, i as nat) is None,
        decreases items.len() - i,
    {
        proof {
            lemma_kid_inside(*node, key@, i as int);
        }
        let found = find_focused_node(&items[i]);
        assert(focused_among(*node, key@, (i + 1) as nat) == opt_json(found));
        if found.is_some() {
            proof {
                lemma_among_settled(*node, key@, (i + 1) as nat, items.len() as nat);
            }
            return found;
        }
        i += 1;
    }
    None
}

proof fn lemma_among_settled(node: JsonValue, key: Seq<char>, m: nat, n: nat)
    requires
        1 <= m <= n <= kids(node, key).len(),
        focused_among(node, key, m) is Some,
    ensures
        focused_among(node, key, n) == focused_among(node, key, m),
    decreases n - m,
{
    if m < n {
        lemma_among_settled(node, key, m, (n - 1) as nat);
    }
}

// ---------------------------------------------------------------------------
// The workspace snapshot.
/// The focused window as the snapshot reports it: title, application id and
/// container id of the focused node, each empty when missing.
pub open spec fn window_view(f: Option<JsonValue>) -> FocusedView {
    match f {
        None => FocusedView { title: seq![], app_id: seq![], identifier: seq![] },
        Some(n) => FocusedView {
            title: unwrap_text(title_of(n)),
            app_id: unwrap_text(app_id_of(n)),
            identifier: match as_i64(field(n, "id"@)) {
                Some(v) => signed_decimal(v as int),
                None => seq![],
            },
        },
    }
}

/// What a workspace snapshot holds: the masks of the workspaces on the
/// selected output and the focused window of the tree.
pub open spec fn snapshot_of(
    r: CompositorSnapshot,
    sel: Option<Seq<char>>,
    workspaces: JsonValue,
    tree: JsonValue,
    outputs: Option<JsonValue>,
) -> bool {
    let m = workspace_masks(
        items_of(workspaces),
        selected_output(crate::selector::normalized_selector(sel), workspaces, outputs),
    );
    &&& r.focused_mask == m.focused
    &&& r.occupied_mask == m.occupied
    &&& r.urgent_mask == m.urgent
    &&& r.focused_window@ == window_view(focused_in(tree))
}

fn id_text(node: &JsonValue) -> (r: String)
    ensures
        r@ == match as_i64(field(*node, "id"@)) {
            Some(v) => signed_decimal(v as int),
            None => Seq::<char>::empty(),
        },
{
    match get_i64(node, "id") {
        Some(v) => i64_to_string(v),
        None => String::new(),
    }
}

fn text_or_empty(s: Option<&str>) -> (r: String)
    ensures
        r@ == unwrap_text(opt_view(s)),
{
    match s {
        Some(t) => owned(t),
        None => String::new(),
    }
}

/// The workspace snapshot from the `GET_WORKSPACES`, `GET_TREE` and (for an
/// index selector) `GET_OUTPUTS` replies; nothing when the workspace reply
/// is not a list.
pub fn collect_snapshot(
    output_selector: Option<&str>,
    workspaces: &JsonValue,
    tree: &JsonValue,
    outputs: Option<&JsonValue>,
) -> (r: Option<CompositorSnapshot>)
    ensures
        r is Some <==> as_array(Some(*workspaces)) is Some,
        r matches Some(snap) ==> snapshot_of(snap, opt_view(output_selector), *workspaces, *tree, opt_json(outputs)),
{
    let selector = crate::selector::normalize_selector(output_selector);
    let selected = resolve_selected_output(selector.as_str(), workspaces, outputs);
    let selected_name: Option<&str> = match &selected {
        Some(n) => Some(n.as_str()),
        None => None,
    };
    let items = match workspaces.as_array() {
        Some(items) => items,
        None => return None,
    };
    let st = collect_masks(items, selected_name);
    let focused = find_focused_node(tree);
    let focused_window = match focused {
        Some(n) => FocusedWindowSnapshot {
            title: text_or_empty(node_title(n)),
            app_id: text_or_empty(node_app_id(n)),
            identifier: id_text(n),
        },
        None => FocusedWindowSnapshot::empty(),
    };
    assert(opt_view(selected_name) == opt_string(selected));
    Some(CompositorSnapshot {
        focused_mask: st.focused,
        occupied_mask: st.occupied,
        urgent_mask: st.urgent,
        focused_window,
    })
}

// ---------------------------------------------------------------------------
// Toplevel windows.
/// A workspace of the slot maps: its trimmed name, its slot and its id.
#[derive(Debug)]
pub struct SlotEntry {
    pub name: String,
    pub slot: u32,
    pub id: Option<i64>,
}

pub struct SlotView {
    pub name: Seq<char>,
    pub slot: u32,
    pub id: Option<i64>,
}

impl View for SlotEntry {
    type V = SlotView;

    open spec fn view(&self) -> SlotView {
        SlotView { name: self.name@, slot: self.slot, id: self.id }
    }
}

/// The slots of the workspaces by name and by id; when two share a name or
/// an id, the first one counts.
pub struct WorkspaceSlotMaps {
    pub entries: Vec<SlotEntry>,
}

pub open spec fn slots_view(es: Seq<SlotEntry>) -> Seq<SlotView> {
    es.map_values(|e: SlotEntry| e@)
}

/// One workspace entry's effect on the slot list and the unnamed counter.
#[verifier::opaque]
pub open spec fn slot_map_step(acc: (Seq<SlotView>, u32), ws: JsonValue) -> (Seq<SlotView>, u32) {
    match as_str(field(ws, "name"@)) {
        None => acc,
        Some(name) => if trim(name).len() == 0 {
            acc
        } else {
            let (slot, counter) = slot_step(ws, acc.1, false);
            match slot {
                None => (acc.0, counter),
                Some(k) => (acc.0.push(SlotView { name: trim(name), slot: k, id: as_i64(field(ws, "id"@)) }), counter),
            }
        },
    }
}

/// The slot list of the workspaces, with the unnamed counter after them.
pub open spec fn slot_list(items: Seq<JsonValue>) -> (Seq<SlotView>, u32)
    decreases items.len(),
{
    if items.len() == 0 {
        (seq![], 1)
    } else {
        slot_map_step(slot_list(items.drop_last()), items.last())
    }
}

fn add_slot_entry(entries: &mut Vec<SlotEntry>, counter: &mut u32, ws: &JsonValue)
    ensures
        (slots_view(final(entries)@), *final(counter)) == slot_map_step(
            (slots_view(old(entries)@), *old(counter)),
            *ws,
        ),
{
    reveal(slot_map_step);
    let name = match get_str(ws, "name") {
        Some(n) => n,
        None => return,
    };
    let trimmed = trim_str(name);
    if trimmed.as_str().is_empty() {
        return;
    }
    let slot = workspace_slot_from_workspace_list_entry(ws, counter);
    if let Some(k) = slot {
        let ghost before = slots_view(entries@);
        let id = get_i64(ws, "id");
        entries.push(SlotEntry { name: trimmed, slot: k, id });
        assert(slots_view(entries@) =~= before.push(SlotView { name: trim(name@), slot: k, id: as_i64(field(*ws, "id"@)) }));
    }
}

/// The slot maps from the `GET_WORKSPACES` reply.
pub fn build_workspace_slot_maps(workspaces: &JsonValue) -> (r: WorkspaceSlotMaps)
    ensures
        slots_view(r.entries@) == slot_list(items_of(*workspaces)).0,
{
    let mut entries: Vec<SlotEntry> = Vec::new();
    let items = match workspaces.as_array() {
        Some(items) => items,
        None => {
            assert(slots_view(entries@) =~= seq![]);
            return WorkspaceSlotMaps { entries };
        },
    };
    let mut counter: u32 = 1;
    let mut i: usize = 0;
    assert(slots_view(entries@) =~= seq![]);
    while i < items.len()
        invariant
            i <= items.len(),
            (slots_view(entries@), counter) == slot_list(items@.take(i as int)),
        decreases items.len() - i,
    {
        proof {
            assert(items@.take(i + 1).drop_last() =~= items@.take(i as int));
            assert(items@.take(i + 1).last() == items@[i as int]);
        }
        add_slot_entry(&mut entries, &mut counter, &items[i]);
        i += 1;
    }
    assert(items@.take(items.len() as int) =~= items@);
    WorkspaceSlotMaps { entries }
}

pub open spec fn slot_has_id(id: i64) -> spec_fn(SlotView) -> bool {
    |e: SlotView| e.id == Some(id)
}

pub open spec fn slot_has_name(name: Seq<char>) -> spec_fn(SlotView) -> bool {
    |e: SlotView| e.name == name
}

/// The slot of the first entry that matches.
pub open spec fn slot_found(es: Seq<SlotView>, p: spec_fn(SlotView) -> bool) -> Option<u32> {
    match first_match(es, p) {
        Some(i) => Some(es[i].slot),
        None => None,
    }
}

fn find_slot_by_id(entries: &Vec<SlotEntry>, id: i64) -> (r: Option<u32>)
    ensures
        r == slot_found(slots_view(entries@), slot_has_id(id)),
{
    let ghost p = slot_has_id(id);
    let ghost es = slots_view(entries@);
    let mut i: usize = 0;
    while i < entries.len()
        invariant
            p == slot_has_id(id),
            es == slots_view(entries@),
            i <= entries.len(),
            forall|j: int| 0 <= j < i ==> !p(#[trigger] es[j]),
        decreases entries.len() - i,
    {
        if entries[i].id == Some(id) {
            proof {
                lemma_first_match_some(es, p, i as int);
            }
            return Some(entries[i].slot);
        }
        i += 1;
    }
    proof {
        lemma_first_match_none(es, p);
    }
    None
}

fn find_slot_by_name(entries: &Vec<SlotEntry>, name: &str) -> (r: Option<u32>)
    ensures
        r == slot_found(slots_view(entries@), slot_has_name(name@)),
{
    let ghost p = slot_has_name(name@);
    let ghost es = slots_view(entries@);
    let mut i: usize = 0;
    while i < entries.len()
        invariant
            p == slot_has_name(name@),
            es == slots_view(entries@),
            i <= entries.len(),
            forall|j: int| 0 <= j < i ==> !p(#[trigger] es[j]),
        decreases entries.len() - i,
    {
        if crate::text::str_eq(entries[i].name.as_str(), name) {
            proof {
                lemma_first_match_some(es, p, i as int);
            }
            return Some(entries[i].slot);
        }
        i += 1;
    }
    proof {
        lemma_first_match_none(es, p);
    }
    None
}

/// The workspace slot a tree node stands for: none unless it is a
/// workspace; else the slot of its id, its `num` in 1..=32, the slot of its
/// trimmed name, or the number that name starts with in 1..=32.
#[verifier::opaque]
pub open spec fn tree_node_slot(node: JsonValue, es: Seq<SlotView>) -> Option<u32> {
    if as_str(field(node, "type"@)) != Some("workspace"@) {
        None
    } else {
        let by_id = match as_i64(field(node, "id"@)) {
            Some(id) => slot_found(es, slot_has_id(id)),
            None => None,
        };
        let num = as_i64(field(node, "num"@));
        if by_id is Some {
            by_id
        } else if num is Some && 1 <= num->0 && num->0 <= 32 {
            Some(num->0 as u32)
        } else {
            match as_str(field(node, "name"@)) {
                None => None,
                Some(name) => if trim(name).len() == 0 {
                    None
                } else {
                    match slot_found(es, slot_has_name(trim(name))) {
                        Some(k) => Some(k),
                        None => match parse_unsigned(leading_digits(trim(name)), u32::MAX as nat) {
                            Some(p) => if 1 <= p && p <= 32 {
                                Some(p as u32)
                            } else {
                                None
                            },
                            None => None,
                        },
                    }
                },
            }
        }
    }
}

/// The workspace slot of a tree node.
pub fn workspace_slot_from_tree_node(node: &JsonValue, maps: &WorkspaceSlotMaps) -> (r: Option<u32>)
    ensures
        r == tree_node_slot(*node, slots_view(maps.entries@)),
{
    reveal(tree_node_slot);
    match get_str(node, "type") {
        Some(t) => if !crate::text::str_eq(t, "workspace") {
            return None;
        },
        None => {
            proof {
                reveal_strlit("workspace");
            }
            return None;
        },
    }
    if let Some(id) = get_i64(node, "id") {
        if let Some(slot) = find_slot_by_id(&maps.entries, id) {
            return Some(slot);
        }
    }
    if let Some(num) = get_i64(node, "num") {
        if 1 <= num && num <= 32 {
            return Some(num as u32);
        }
    }
    let name = match get_str(node, "name") {
        Some(n) => n,
        None => return None,
    };
    let trimmed = trim_str(name);
    if trimmed.as_str().is_empty() {
        return None;
    }
    if let Some(k) = find_slot_by_name(&maps.entries, trimmed.as_str()) {
        return Some(k);
    }
    let digits = take_leading_digits(trimmed.as_str());
    match parse_u32(digits.as_str()) {
        Some(p) => if 1 <= p && p <= 32 {
            Some(p)
        } else {
            None
        },
        None => None,
    }
}

/// The toplevel entry of a window node, when it has a title or an
/// application id.
#[verifier::opaque]
pub open spec fn own_entry(node: JsonValue, ws: Option<u32>) -> Seq<EntryView> {
    let title = unwrap_text(title_of(node));
    let app_id = unwrap_text(app_id_of(node));
    if is_window(node) && (trim(title).len() > 0 || trim(app_id).len() > 0) {
        seq![
            EntryView {
                title,
                app_id,
                identifier: match as_i64(field(node, "id"@)) {
                    Some(v) => signed_decimal(v as int),
                    None => seq![],
                },
                workspace_id: ws,
                workspace_mask: workspace_bit(ws),
                focused: as_bool(field(node, "focused"@)) == Some(true),
            },
        ]
    } else {
        seq![]
    }
}

/// The toplevel windows of a subtree, in tree order: the node itself, then
/// its tiled and its floating children. A workspace node sets the workspace
/// of everything below it.
pub open spec fn tops_in(node: JsonValue, current: Option<u32>, es: Seq<SlotView>) -> Seq<EntryView>
    decreases node, kids(node, "nodes"@).len() + kids(node, "floating_nodes"@).len() + 1,
{
    let ws = match tree_node_slot(node, es) {
        Some(k) => Some(k),
        None => current,
    };
    own_entry(node, ws) + tops_among(node, "nodes"@, kids(node, "nodes"@).len(), ws, es) + tops_among(
        node,
        "floating_nodes"@,
        kids(node, "floating_nodes"@).len(),
        ws,
        es,
    )
}

/// The toplevel windows of the first `n` children under a field.
pub open spec fn tops_among(node: JsonValue, key: Seq<char>, n: nat, ws: Option<u32>, es: Seq<SlotView>) -> Seq<EntryView>
    decreases node, n,
{
    if n == 0 || n > kids(node, key).len() {
        seq![]
    } else {
        proof {
            lemma_kid_inside(node, key, n - 1);
        }
        tops_among(node, key, (n - 1) as nat, ws, es) + tops_in(kids(node, key)[n - 1], ws, es)
    }
}

fn own_toplevel(node: &JsonValue, ws: Option<u32>, out: &mut Vec<ToplevelEntry>)
    ensures
        entries_view(final(out)@) == entries_view(old(out)@) + own_entry(*node, ws),
{
    reveal(own_entry);
    let ghost before = entries_view(out@);
    if window_node(node) {
        let title = text_or_empty(node_title(node));
        let app_id = text_or_empty(node_app_id(node));
        if !is_blank(title.as_str()) || !is_blank(app_id.as_str()) {
            let workspace_mask = match ws {
                Some(id) => if 1 <= id && id <= 32 {
                    1u32 << (id - 1)
                } else {
                    0
                },
                None => 0,
            };
            let focused = match get_bool(node, "focused") {
                Some(b) => b,
                None => false,
            };
            let e = ToplevelEntry { title, app_id, identifier: id_text(node), workspace_id: ws, workspace_mask, focused };
            out.push(e);
            assert(entries_view(out@) =~= before + own_entry(*node, ws));
            return;
        }
    }
    assert(entries_view(out@) =~= before + own_entry(*node, ws));
}

/// Adds the toplevel windows of a subtree.
#[verifier::spinoff_prover]
#[verifier::rlimit(40)]
pub fn collect_toplevels_recursive(
    node: &JsonValue,
    current_workspace: Option<u32>,
    maps: &WorkspaceSlotMaps,
    out: &mut Vec<ToplevelEntry>,
)
    ensures
        entries_view(final(out)@) == entries_view(old(out)@) + tops_in(
            *node,
            current_workspace,
            slots_view(maps.entries@),
        ),
    decreases node, kids(*node, "nodes"@).len() + kids(*node, "floating_nodes"@).len() + 1,
{
    let ghost es = slots_view(maps.entries@);
    let ghost start = entries_view(out@);
    let workspace = match workspace_slot_from_tree_node(node, maps) {
        Some(k) => Some(k),
        None => current_workspace,
    };
    own_toplevel(node, workspace, out);
    let ghost a = entries_view(out@);
    tops_of_children(node, "nodes", workspace, maps, out);
    let ghost b = entries_view(out@);
    tops_of_children(node, "floating_nodes", workspace, maps, out);
    assert(entries_view(out@) =~= start + (own_entry(*node, workspace) + tops_among(
        *node,
        "nodes"@,
        kids(*node, "nodes"@).len(),
        workspace,
        es,
    ) + tops_among(*node, "floating_nodes"@, kids(*node, "floating_nodes"@).len(), workspace, es)));
}

#[verifier::spinoff_prover]
#[verifier::rlimit(40)]
fn tops_of_children(
    node: &JsonValue,
    key: &str,
    ws: Option<u32>,
    maps: &WorkspaceSlotMaps,
    out: &mut Vec<ToplevelEntry>,
)
    ensures
        entries_view(final(out)@) == entries_view(old(out)@) + tops_among(
            *node,
            key@,
            kids(*node, key@).len(),
            ws,
            slots_view(maps.entries@),
        ),
    decreases node, kids(*node, key@).len(),
{
    let ghost es = slots_view(maps.entries@);
    let ghost start = entries_view(out@);
    let items = match children(node, key) {
        Some(items) => items,
        None => {
            assert(entries_view(out@) =~= start + tops_among(*node, key@, 0, ws, es));
            return;
        },
    };
    let mut i: usize = 0;
    assert(entries_view(out@) =~= start + tops_among(*node, key@, 0, ws, es));
    while i < items.len()
        invariant
            i <= items.len(),
            items@ == kids(*node, key@),
            es == slots_view(maps.entries@),
            entries_view(out@) == start + tops_among(*node, key@, i as nat, ws, es),
        decreases items.len() - i,
    {
        proof {
            lemma_kid_inside(*node, key@, i as int);
        }
        let ghost before = entries_view(out@);
        collect_toplevels_recursive(&items[i], ws, maps, out);
        assert(entries_view(out@) =~= start + tops_among(*node, key@, (i + 1) as nat, ws, es));
        i += 1;
    }
}

/// The output a selector designates for the toplevel list: none without a
/// selector.
pub open spec fn toplevel_output(sel: Option<Seq<char>>, workspaces: JsonValue, outputs: Option<JsonValue>) -> Option<Seq<char>> {
    match sel {
        Some(s) => selected_output(trim(s), workspaces, outputs),
        None => None,
    }
}

/// The toplevel windows under the output nodes of the tree's root, for the
/// selected output or all of them.
pub open spec fn output_tops(items: Seq<JsonValue>, sel: Option<Seq<char>>, es: Seq<SlotView>) -> Seq<EntryView>
    decreases items.len(),
{
    if items.len() == 0 {
        seq![]
    } else {
        let o = items.last();
        output_tops(items.drop_last(), sel, es) + if as_str(field(o, "type"@)) == Some("output"@) && match sel {
            Some(name) => eq_fold(unwrap_text(as_str(field(o, "name"@))), name),
            None => true,
        } {
            tops_in(o, None, es)
        } else {
            seq![]
        }
    }
}

fn output_shown(o: &JsonValue, selected: Option<&str>) -> (r: bool)
    ensures
        r == (as_str(field(*o, "type"@)) == Some("output"@) && match opt_view(selected) {
            Some(name) => eq_fold(unwrap_text(as_str(field(*o, "name"@))), name),
            None => true,
        }),
{
    match get_str(o, "type") {
        Some(t) => if !crate::text::str_eq(t, "output") {
            return false;
        },
        None => return false,
    }
    match selected {
        None => true,
        Some(sel) => {
            let name = match get_str(o, "name") {
                Some(n) => n,
                None => {
                    proof {
                        reveal_strlit("");
                    }
                    assert(""@ =~= Seq::<char>::empty());
                    ""
                },
            };
            eq_ignore_ascii_case(name, sel)
        },
    }
}

/// The toplevel windows from the `GET_TREE`, `GET_WORKSPACES` and (for an
/// index selector) `GET_OUTPUTS` replies; nothing when the tree's root has
/// no list of outputs.
#[verifier::spinoff_prover]
pub fn collect_toplevels(
    output_selector: Option<&str>,
    tree: &JsonValue,
    workspaces: &JsonValue,
    outputs: Option<&JsonValue>,
) -> (r: Option<Vec<ToplevelEntry>>)
    ensures
        r is Some <==> as_array(field(*tree, "nodes"@)) is Some,
        r matches Some(v) ==> entries_view(v@) == output_tops(
            as_array(field(*tree, "nodes"@))->0,
            toplevel_output(opt_view(output_selector), *workspaces, opt_json(outputs)),
            build_slots(*workspaces),
        ),
{
    let maps = build_workspace_slot_maps(workspaces);
    let selected = match output_selector {
        Some(s) => {
            let t = trim_str(s);
            resolve_selected_output(t.as_str(), workspaces, outputs)
        },
        None => None,
    };
    let selected_name: Option<&str> = match &selected {
        Some(n) => Some(n.as_str()),
        None => None,
    };
    let items = match tree.get("nodes") {
        Some(n) => match n.as_array() {
            Some(items) => items,
            None => return None,
        },
        None => return None,
    };
    let ghost sel = opt_view(selected_name);
    let ghost es = slots_view(maps.entries@);
    let mut out: Vec<ToplevelEntry> = Vec::new();
    let mut i: usize = 0;
    assert(entries_view(out@) =~= seq![]);
    while i < items.len()
        invariant
            i <= items.len(),
            sel == opt_view(selected_name),
            es == slots_view(maps.entries@),
            entries_view(out@) == output_tops(items@.take(i as int), sel, es),
        decreases items.len() - i,
    {
        proof {
            assert(items@.take(i + 1).drop_last() =~= items@.take(i as int));
            assert(items@.take(i + 1).last() == items@[i as int]);
        }
        let ghost before = entries_view(out@);
        if output_shown(&items[i], selected_name) {
            collect_toplevels_recursive(&items[i], None, &maps, &mut out);
        } else {
            assert(entries_view(out@) =~= before + Seq::<EntryView>::empty());
        }
        i += 1;
    }
    assert(items@.take(items.len() as int) =~= items@);
    assert(opt_view(selected_name) == opt_string(selected));
    Some(out)
}

/// The slot list the maps are built from.
pub open spec fn build_slots(workspaces: JsonValue) -> Seq<SlotView> {
    slot_list(items_of(workspaces)).0
}

/// The whole state: the workspace snapshot and the toplevel windows; nothing
/// when either of them cannot be read.
pub fn collect_state(
    output_selector: Option<&str>,
    workspaces: &JsonValue,
    tree: &JsonValue,
    outputs: Option<&JsonValue>,
) -> (r: Option<CompositorStateSnapshot>)
    ensures
        r is Some <==> (as_array(Some(*workspaces)) is Some && as_array(field(*tree, "nodes"@)) is Some),
        r matches Some(st) ==> snapshot_of(
            st.workspace,
            opt_view(output_selector),
            *workspaces,
            *tree,
            opt_json(outputs),
        ) && entries_view(st.toplevels@) == output_tops(
            as_array(field(*tree, "nodes"@))->0,
            toplevel_output(opt_view(output_selector), *workspaces, opt_json(outputs)),
            build_slots(*workspaces),
        ),
{
    let workspace = match collect_snapshot(output_selector, workspaces, tree, outputs) {
        Some(w) => w,
        None => return None,
    };
    let toplevels = match collect_toplevels(output_selector, tree, workspaces, outputs) {
        Some(t) => t,
        None => return None,
    };
    Some(CompositorStateSnapshot { workspace, toplevels })
}

} // verus!
