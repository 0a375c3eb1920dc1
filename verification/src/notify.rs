//! Notification bookkeeping: three on-screen slots (newest first), a history
//! of thirty-two entries, the primary notification, the last event and the
//! change counters.
//!
//! Every field holds the text that the corresponding signal key holds
//! (`notification.slot<n>.<field>`, `notification.history<n>.<field>`,
//! `notification.<field>`, `notification.event.<field>`, ...); a key that was
//! never written reads as empty text.
use vstd::prelude::*;

use crate::seqs::{first_match, lemma_first_match_none, lemma_first_match_some};
use crate::network::{pairs_view, push_pair_text};
use crate::text::{lemma_parse_decimal, decimal, owned, parse_unsigned, parse_u64, str_eq, u64_to_string};
use crate::variant::{find_named, named, PropValue};

verus! {

/// Number of on-screen notification slots.
pub const MAX_NOTIFICATION_SLOTS: usize = 3;

/// Number of history entries kept.
pub const MAX_HISTORY_SLOTS: usize = 32;

/// Delay, in milliseconds, before a notification without its own timeout
/// is hidden.
pub const DEFAULT_TIMEOUT_MS: u64 = 5000;

/// A notification as the daemon received it.
#[derive(Debug)]
pub struct NotificationData {
    pub id: u32,
    pub app_name: String,
    pub title: String,
    pub body: String,
    pub icon: String,
    pub urgency: u8,
    pub urgency_name: String,
}

/// The texts of one slot or history entry.
#[derive(Debug)]
pub struct Slot {
    pub id: String,
    pub app_name: String,
    pub summary: String,
    pub title: String,
    pub body: String,
    pub icon: String,
    pub urgency: String,
    pub urgency_name: String,
    pub visible: String,
}

/// The texts of the last notification event.
#[derive(Debug)]
pub struct EventFields {
    pub kind: String,
    pub id: String,
    pub app_name: String,
    pub summary: String,
    pub title: String,
    pub body: String,
    pub icon: String,
    pub urgency: String,
    pub urgency_name: String,
    pub history_index: String,
}

/// All notification state.
#[derive(Debug)]
pub struct NotificationStore {
    pub slots: Vec<Slot>,
    pub history: Vec<Slot>,
    pub primary: Slot,
    pub event: EventFields,
    pub event_seq: String,
    pub changed: String,
    pub has: String,
    pub active_count: String,
    pub history_count: String,
}

#[verifier::ext_equal]
pub struct NoteView {
    pub id: u32,
    pub app_name: Seq<char>,
    pub title: Seq<char>,
    pub body: Seq<char>,
    pub icon: Seq<char>,
    pub urgency: u8,
    pub urgency_name: Seq<char>,
}

#[verifier::ext_equal]
pub struct SlotView {
    pub id: Seq<char>,
    pub app_name: Seq<char>,
    pub summary: Seq<char>,
    pub title: Seq<char>,
    pub body: Seq<char>,
    pub icon: Seq<char>,
    pub urgency: Seq<char>,
    pub urgency_name: Seq<char>,
    pub visible: Seq<char>,
}

#[verifier::ext_equal]
pub struct EventView {
    pub kind: Seq<char>,
    pub id: Seq<char>,
    pub app_name: Seq<char>,
    pub summary: Seq<char>,
    pub title: Seq<char>,
    pub body: Seq<char>,
    pub icon: Seq<char>,
    pub urgency: Seq<char>,
    pub urgency_name: Seq<char>,
    pub history_index: Seq<char>,
}

#[verifier::ext_equal]
pub struct StoreView {
    pub slots: Seq<SlotView>,
    pub history: Seq<SlotView>,
    pub primary: SlotView,
    pub event: EventView,
    pub event_seq: Seq<char>,
    pub changed: Seq<char>,
    pub has: Seq<char>,
    pub active_count: Seq<char>,
    pub history_count: Seq<char>,
}

impl View for NotificationData {
    type V = NoteView;

    open spec fn view(&self) -> NoteView {
        NoteView {
            id: self.id,
            app_name: self.app_name@,
            title: self.title@,
            body: self.body@,
            icon: self.icon@,
            urgency: self.urgency,
            urgency_name: self.urgency_name@,
        }
    }
}

impl View for Slot {
    type V = SlotView;

    open spec fn view(&self) -> SlotView {
        SlotView {
            id: self.id@,
            app_name: self.app_name@,
            summary: self.summary@,
            title: self.title@,
            body: self.body@,
            icon: self.icon@,
            urgency: self.urgency@,
            urgency_name: self.urgency_name@,
            visible: self.visible@,
        }
    }
}

impl View for EventFields {
    type V = EventView;

    open spec fn view(&self) -> EventView {
        EventView {
            kind: self.kind@,
            id: self.id@,
            app_name: self.app_name@,
            summary: self.summary@,
            title: self.title@,
            body: self.body@,
            icon: self.icon@,
            urgency: self.urgency@,
            urgency_name: self.urgency_name@,
            history_index: self.history_index@,
        }
    }
}

pub open spec fn slots_view(s: Seq<Slot>) -> Seq<SlotView> {
    s.map_values(|x: Slot| x@)
}

impl View for NotificationStore {
    type V = StoreView;

    open spec fn view(&self) -> StoreView {
        StoreView {
            slots: slots_view(self.slots@),
            history: slots_view(self.history@),
            primary: self.primary@,
            event: self.event@,
            event_seq: self.event_seq@,
            changed: self.changed@,
            has: self.has@,
            active_count: self.active_count@,
            history_count: self.history_count@,
        }
    }
}

// ---------------------------------------------------------------------------
// Specification.
/// The urgency level a name stands for: 0 low, 2 critical, 1 otherwise.
pub open spec fn urgency_level(s: Seq<char>) -> u8 {
    if s == "low"@ || s == "0"@ {
        0
    } else if s == "critical"@ || s == "2"@ {
        2
    } else {
        1
    }
}

/// The name of an urgency level.
pub open spec fn urgency_label(u: u8) -> Seq<char> {
    if u == 0 {
        "low"@
    } else if u == 2 {
        "critical"@
    } else {
        "normal"@
    }
}

pub open spec fn flag(b: bool) -> Seq<char> {
    if b {
        "1"@
    } else {
        "0"@
    }
}

/// The texts `write_slot` stores for a notification.
pub open spec fn written(d: NoteView, visible: bool) -> SlotView {
    SlotView {
        id: decimal(d.id as nat),
        app_name: d.app_name,
        summary: d.title,
        title: d.title,
        body: d.body,
        icon: d.icon,
        urgency: decimal(d.urgency as nat),
        urgency_name: d.urgency_name,
        visible: flag(visible),
    }
}

/// The notification that stands for an empty slot.
pub open spec fn empty_note() -> NoteView {
    NoteView {
        id: 0,
        app_name: seq![],
        title: seq![],
        body: seq![],
        icon: seq![],
        urgency: 1,
        urgency_name: "normal"@,
    }
}

/// A cleared slot.
pub open spec fn cleared() -> SlotView {
    written(empty_note(), false)
}

/// The number a stored id text stands for (zero when it is not a number).
pub open spec fn stored_id(s: Seq<char>) -> nat {
    match parse_unsigned(s, u32::MAX as nat) {
        Some(v) => v,
        None => 0,
    }
}

/// The urgency a stored text stands for (one when it is not a number).
pub open spec fn stored_urgency(s: Seq<char>) -> u8 {
    match parse_unsigned(s, u8::MAX as nat) {
        Some(v) => v as u8,
        None => 1,
    }
}

/// The notification a slot holds, if its id is a non-zero number.
pub open spec fn read(sv: SlotView) -> Option<NoteView> {
    if stored_id(sv.id) == 0 {
        None
    } else {
        Some(
            NoteView {
                id: stored_id(sv.id) as u32,
                app_name: sv.app_name,
                title: sv.title,
                body: sv.body,
                icon: sv.icon,
                urgency: stored_urgency(sv.urgency),
                urgency_name: sv.urgency_name,
            },
        )
    }
}

pub open spec fn shown(sv: SlotView) -> bool {
    sv.visible == "1"@
}

/// Number of entries marked visible.
pub open spec fn count_shown(s: Seq<SlotView>) -> nat
    decreases s.len(),
{
    if s.len() == 0 {
        0
    } else {
        count_shown(s.drop_last()) + if shown(s.last()) {
            1nat
        } else {
            0nat
        }
    }
}

/// A counter text advanced by one (saturating; a non-number counts as 0).
pub open spec fn bumped(s: Seq<char>) -> Seq<char> {
    let v = match parse_unsigned(s, u64::MAX as nat) {
        Some(v) => v,
        None => 0,
    };
    decimal(if v < u64::MAX { v + 1 } else { v })
}

/// The event texts for an event of `kind`.
pub open spec fn event_for(kind: Seq<char>, d: Option<NoteView>, index: nat) -> EventView {
    match d {
        Some(d) => EventView {
            kind,
            id: decimal(d.id as nat),
            app_name: d.app_name,
            summary: d.title,
            title: d.title,
            body: d.body,
            icon: d.icon,
            urgency: decimal(d.urgency as nat),
            urgency_name: d.urgency_name,
            history_index: decimal(index),
        },
        None => EventView {
            kind,
            id: "0"@,
            app_name: seq![],
            summary: seq![],
            title: seq![],
            body: seq![],
            icon: seq![],
            urgency: "1"@,
            urgency_name: "normal"@,
            history_index: decimal(index),
        },
    }
}

/// The primary notification once it follows slot 1.
pub open spec fn synced_primary(first: SlotView, primary: SlotView) -> SlotView {
    if shown(first) && read(first) is Some {
        written(read(first)->0, true)
    } else {
        SlotView { visible: "0"@, ..primary }
    }
}

/// `s` with its counts, primary notification, event and change counter
/// updated after the slots and history changed.
pub open spec fn settle(s: StoreView, kind: Seq<char>, d: Option<NoteView>, index: nat) -> StoreView {
    StoreView {
        active_count: decimal(count_shown(s.slots)),
        history_count: decimal(count_shown(s.history)),
        event: event_for(kind, d, index),
        event_seq: bumped(s.event_seq),
        changed: bumped(s.changed),
        ..s
    }
}

/// The state after a notification is shown: it takes slot 1 and history
/// entry 1, older ones move down by one and the last falls off.
pub open spec fn after_push(s: StoreView, d: NoteView) -> StoreView {
    let slots = seq![written(d, true)] + s.slots.take(2);
    let history = seq![written(d, true)] + s.history.take(31);
    let mid = StoreView { slots, history, ..s };
    let synced = StoreView { primary: synced_primary(slots[0], s.primary), ..mid };
    StoreView { has: "1"@, ..settle(synced, "pushed"@, Some(d), 0) }
}

pub open spec fn well_formed(s: StoreView) -> bool {
    s.slots.len() == 3 && s.history.len() == 32
}

/// The notifications that slots visibly hold, in slot order.
pub open spec fn active_notes(s: Seq<SlotView>) -> Seq<NoteView>
    decreases s.len(),
{
    if s.len() == 0 {
        seq![]
    } else {
        let rest = active_notes(s.drop_last());
        if shown(s.last()) && read(s.last()) is Some {
            rest.push(read(s.last())->0)
        } else {
            rest
        }
    }
}

/// `n` slots holding `notes` from the front, the rest cleared.
pub open spec fn packed(notes: Seq<NoteView>, n: nat) -> Seq<SlotView> {
    Seq::new(n, |i: int| if i < notes.len() { written(notes[i], true) } else { cleared() })
}

pub open spec fn has_id(id: u32) -> spec_fn(SlotView) -> bool {
    |x: SlotView| stored_id(x.id) == id as nat
}

/// Slots whose stored id is `id` cleared.
pub open spec fn without_id(s: Seq<SlotView>, id: u32) -> Seq<SlotView> {
    s.map_values(|x: SlotView| if stored_id(x.id) == id as nat { cleared() } else { x })
}

/// The state after the notification `id` is closed: its slots are cleared
/// and the visible ones that remain are packed at the front; the primary
/// notification then follows slot 1.
pub open spec fn after_close(s: StoreView, id: u32) -> StoreView {
    match first_match(s.slots, has_id(id)) {
        Some(first) => {
            let slots = packed(active_notes(without_id(s.slots, id)), s.slots.len());
            let mid = settle(StoreView { slots, ..s }, "closed"@, read(s.slots[first]), 0);
            StoreView { primary: synced_primary(slots[0], s.primary), ..mid }
        },
        None => StoreView { primary: synced_primary(s.slots[0], s.primary), ..s },
    }
}

/// The state after the history is emptied.
pub open spec fn after_clear_history(s: StoreView) -> StoreView {
    let history = Seq::new(s.history.len(), |i: int| cleared());
    settle(StoreView { history, ..s }, "history_cleared"@, None, 0)
}

/// The state after history entry `idx` (counted from one) is deleted: later
/// entries move up and the last one is cleared. Other indices change nothing.
pub open spec fn after_delete_history(s: StoreView, idx: nat) -> StoreView {
    if idx == 0 || idx > s.history.len() {
        s
    } else {
        let history = s.history.remove(idx - 1).push(cleared());
        settle(StoreView { history, ..s }, "history_deleted"@, None, idx)
    }
}

// ---------------------------------------------------------------------------
// Laws.
/// What a slot writes for a notification is read back as that notification,
/// unless its id is zero (which marks an empty slot).
pub proof fn law_written_read_back(d: NoteView, visible: bool)
    ensures
        d.id != 0 ==> read(written(d, visible)) == Some(d),
        d.id == 0 ==> read(written(d, visible)) is None,
        shown(written(d, visible)) == visible,
{
    lemma_parse_decimal(d.id as nat, u32::MAX as nat);
    lemma_parse_decimal(d.urgency as nat, u8::MAX as nat);
    reveal_strlit("1");
    reveal_strlit("0");
    assert("1"@ != "0"@) by {
        assert("1"@[0] == '1');
    }
}

/// A pushed notification is shown first and read back from slot 1 and from
/// history entry 1; what was on screen and in the history moves down by one
/// entry, the oldest of each falling off, and the store keeps its shape.
pub proof fn law_push_newest_first(s: StoreView, d: NoteView)
    requires
        well_formed(s),
        d.id != 0,
    ensures
        well_formed(after_push(s, d)),
        read(after_push(s, d).slots[0]) == Some(d),
        shown(after_push(s, d).slots[0]),
        read(after_push(s, d).history[0]) == Some(d),
        after_push(s, d).slots[1] == s.slots[0],
        after_push(s, d).slots[2] == s.slots[1],
        forall|k: int| 0 <= k < 31 ==> #[trigger] after_push(s, d).history[k + 1] == s.history[k],
        after_push(s, d).primary == written(d, true),
        after_push(s, d).active_count == decimal(count_shown(after_push(s, d).slots)),
{
    law_written_read_back(d, true);
}

proof fn lemma_active_notes_ids(t: Seq<SlotView>, id: u32)
    requires
        forall|i: int| 0 <= i < t.len() ==> stored_id(#[trigger] t[i].id) != id as nat,
    ensures
        forall|k: int| 0 <= k < active_notes(t).len() ==> #[trigger] active_notes(t)[k].id != id,
        forall|k: int| 0 <= k < active_notes(t).len() ==> #[trigger] active_notes(t)[k].id != 0,
    decreases t.len(),
{
    if t.len() > 0 {
        let u = t.drop_last();
        assert forall|i: int| 0 <= i < u.len() implies stored_id(#[trigger] u[i].id) != id as nat by {
            assert(u[i] == t[i]);
        }
        lemma_active_notes_ids(u, id);
        let rest = active_notes(u);
        if shown(t.last()) && read(t.last()) is Some {
            let x = read(t.last())->0;
            assert(stored_id(t.last().id) != id as nat);
            assert(x.id as nat == stored_id(t.last().id));
            assert(active_notes(t) == rest.push(x));
            assert forall|k: int| 0 <= k < active_notes(t).len() implies #[trigger] active_notes(t)[k].id != id
                && active_notes(t)[k].id != 0 by {
                if k < rest.len() {
                    assert(active_notes(t)[k] == rest[k]);
                }
            }
        }
    }
}

/// Once a notification is closed, no slot holds its id any more.
pub proof fn law_close_removes(s: StoreView, id: u32)
    requires
        well_formed(s),
        id != 0,
    ensures
        well_formed(after_close(s, id)),
        forall|i: int| 0 <= i < 3 ==> stored_id(#[trigger] after_close(s, id).slots[i].id) != id as nat,
{
    law_written_read_back(empty_note(), false);
    match first_match(s.slots, has_id(id)) {
        Some(first) => {
            let t = without_id(s.slots, id);
            assert forall|i: int| 0 <= i < t.len() implies stored_id(#[trigger] t[i].id) != id as nat by {
                if stored_id(s.slots[i].id) == id as nat {
                    assert(t[i] == cleared());
                }
            }
            lemma_active_notes_ids(t, id);
            lemma_active_notes_len(t);
            let notes = active_notes(t);
            assert forall|i: int| 0 <= i < 3 implies stored_id(#[trigger] after_close(s, id).slots[i].id) != id as nat by {
                if i < notes.len() {
                    law_written_read_back(notes[i], true);
                }
            }
        },
        None => {
            assert forall|i: int| 0 <= i < 3 implies stored_id(#[trigger] after_close(s, id).slots[i].id) != id as nat by {
                if stored_id(s.slots[i].id) == id as nat {
                    crate::seqs::lemma_first_match_exists(s.slots, has_id(id), i);
                }
            }
        },
    }
}

/// Closing a notification that is not on screen changes only the primary
/// notification, which follows slot 1.
pub proof fn law_close_absent(s: StoreView, id: u32)
    requires
        well_formed(s),
        forall|i: int| 0 <= i < 3 ==> stored_id(#[trigger] s.slots[i].id) != id as nat,
    ensures
        after_close(s, id) == (StoreView { primary: synced_primary(s.slots[0], s.primary), ..s }),
{
    crate::seqs::lemma_first_match_none(s.slots, has_id(id));
}

/// Deleting a history entry removes it and keeps the order of the others;
/// the history keeps its length.
pub proof fn law_delete_history_keeps_order(s: StoreView, idx: nat)
    requires
        well_formed(s),
        1 <= idx <= 32,
    ensures
        well_formed(after_delete_history(s, idx)),
        forall|k: int| 0 <= k < idx - 1 ==> #[trigger] after_delete_history(s, idx).history[k] == s.history[k],
        forall|k: int| idx - 1 <= k < 31 ==> #[trigger] after_delete_history(s, idx).history[k] == s.history[k + 1],
        after_delete_history(s, idx).history[31] == cleared(),
        after_delete_history(s, idx).slots == s.slots,
{
}

/// Every event advances the event counter by one.
pub proof fn law_event_counter_advances(n: u64)
    requires
        n < u64::MAX,
    ensures
        bumped(decimal(n as nat)) == decimal(n as nat + 1),
{
    lemma_parse_decimal(n as nat, u64::MAX as nat);
}

/// The urgency names are read back as the levels they name.
pub proof fn law_urgency_round_trip(u: u8)
    requires
        u <= 2,
    ensures
        urgency_level(urgency_label(u)) == u,
{
    reveal_strlit("low");
    reveal_strlit("0");
    reveal_strlit("critical");
    reveal_strlit("2");
    reveal_strlit("normal");
    assert("low"@.len() == 3);
    assert("critical"@.len() == 8);
    assert("normal"@.len() == 6);
    assert("0"@.len() == 1);
    assert("2"@.len() == 1);
}

// ---------------------------------------------------------------------------
// Implementation.
/// An urgency level read from its name (`low`/`0`, `critical`/`2`, else 1).
pub fn parse_urgency(value: &str) -> (r: u8)
    ensures
        r == urgency_level(value@),
{
    if str_eq(value, "low") || str_eq(value, "0") {
        0
    } else if str_eq(value, "critical") || str_eq(value, "2") {
        2
    } else {
        1
    }
}

/// The name of an urgency level.
pub fn urgency_name(value: u8) -> (r: &'static str)
    ensures
        r@ == urgency_label(value),
{
    if value == 0 {
        "low"
    } else if value == 2 {
        "critical"
    } else {
        "normal"
    }
}

fn flag_text(b: bool) -> (r: String)
    ensures
        r@ == flag(b),
{
    if b {
        String::from_str("1")
    } else {
        String::from_str("0")
    }
}

impl NotificationData {
    pub fn copy(&self) -> (r: Self)
        ensures
            r@ == self@,
    {
        NotificationData {
            id: self.id,
            app_name: self.app_name.clone(),
            title: self.title.clone(),
            body: self.body.clone(),
            icon: self.icon.clone(),
            urgency: self.urgency,
            urgency_name: self.urgency_name.clone(),
        }
    }
}

impl Slot {
    /// A slot whose keys were never written.
    pub fn unset() -> (r: Self)
        ensures
            r@ == (SlotView {
                id: seq![],
                app_name: seq![],
                summary: seq![],
                title: seq![],
                body: seq![],
                icon: seq![],
                urgency: seq![],
                urgency_name: seq![],
                visible: seq![],
            }),
    {
        Slot {
            id: String::new(),
            app_name: String::new(),
            summary: String::new(),
            title: String::new(),
            body: String::new(),
            icon: String::new(),
            urgency: String::new(),
            urgency_name: String::new(),
            visible: String::new(),
        }
    }

    /// The texts stored for a notification.
    pub fn write(d: &NotificationData, visible: bool) -> (r: Self)
        ensures
            r@ == written(d@, visible),
    {
        Slot {
            id: u64_to_string(d.id as u64),
            app_name: d.app_name.clone(),
            summary: d.title.clone(),
            title: d.title.clone(),
            body: d.body.clone(),
            icon: d.icon.clone(),
            urgency: u64_to_string(d.urgency as u64),
            urgency_name: d.urgency_name.clone(),
            visible: flag_text(visible),
        }
    }

    /// A cleared slot.
    pub fn clear() -> (r: Self)
        ensures
            r@ == cleared(),
    {
        let empty = NotificationData {
            id: 0,
            app_name: String::new(),
            title: String::new(),
            body: String::new(),
            icon: String::new(),
            urgency: 1,
            urgency_name: String::from_str("normal"),
        };
        Self::write(&empty, false)
    }

    pub fn copy(&self) -> (r: Self)
        ensures
            r@ == self@,
    {
        Slot {
            id: self.id.clone(),
            app_name: self.app_name.clone(),
            summary: self.summary.clone(),
            title: self.title.clone(),
            body: self.body.clone(),
            icon: self.icon.clone(),
            urgency: self.urgency.clone(),
            urgency_name: self.urgency_name.clone(),
            visible: self.visible.clone(),
        }
    }

    /// The number the id text stands for, zero when it is not a number.
    pub fn stored_id(&self) -> (r: u32)
        ensures
            r == stored_id(self@.id),
    {
        match crate::text::parse_u32(self.id.as_str()) {
            Some(v) => v,
            None => 0,
        }
    }

    /// Whether the slot is marked visible.
    pub fn is_shown(&self) -> (r: bool)
        ensures
            r == shown(self@),
    {
        str_eq(self.visible.as_str(), "1")
    }

    /// The notification the slot holds, if its id is a non-zero number.
    pub fn read(&self) -> (r: Option<NotificationData>)
        ensures
            r matches Some(d) ==> read(self@) == Some(d@),
            r is None ==> read(self@) is None,
    {
        let id = self.stored_id();
        if id == 0 {
            return None;
        }
        let urgency = match crate::text::parse_unsigned_max(self.urgency.as_str(), 255) {
            Some(v) => v as u8,
            None => 1,
        };
        Some(
            NotificationData {
                id,
                app_name: self.app_name.clone(),
                title: self.title.clone(),
                body: self.body.clone(),
                icon: self.icon.clone(),
                urgency,
                urgency_name: self.urgency_name.clone(),
            },
        )
    }
}

/// Number of visible entries.
fn count_visible(v: &Vec<Slot>) -> (r: u64)
    ensures
        r == count_shown(slots_view(v@)),
{
    let ghost sv = slots_view(v@);
    let mut n: u64 = 0;
    let mut i: usize = 0;
    while i < v.len()
        invariant
            sv == slots_view(v@),
            i <= v.len(),
            n == count_shown(sv.take(i as int)),
            n <= i,
        decreases v.len() - i,
    {
        proof {
            assert(sv.take(i + 1).drop_last() =~= sv.take(i as int));
        }
        if v[i].is_shown() {
            n += 1;
        }
        i += 1;
    }
    assert(sv.take(v.len() as int) =~= sv);
    n
}

/// A counter text advanced by one.
fn bump(s: &String) -> (r: String)
    ensures
        r@ == bumped(s@),
{
    let v = match parse_u64(s.as_str()) {
        Some(v) => v,
        None => 0,
    };
    let next = if v < u64::MAX {
        v + 1
    } else {
        v
    };
    u64_to_string(next)
}

impl EventFields {
    /// No event yet: every text empty.
    pub fn unset() -> (r: Self)
        ensures
            r@ == (EventView {
                kind: seq![],
                id: seq![],
                app_name: seq![],
                summary: seq![],
                title: seq![],
                body: seq![],
                icon: seq![],
                urgency: seq![],
                urgency_name: seq![],
                history_index: seq![],
            }),
    {
        EventFields {
            kind: String::new(),
            id: String::new(),
            app_name: String::new(),
            summary: String::new(),
            title: String::new(),
            body: String::new(),
            icon: String::new(),
            urgency: String::new(),
            urgency_name: String::new(),
            history_index: String::new(),
        }
    }

    /// The event texts for an event of `kind`.
    pub fn make(kind: &str, d: &Option<NotificationData>, index: usize) -> (r: Self)
        ensures
            r@ == event_for(
                kind@,
                match d {
                    Some(x) => Some(x@),
                    None => None,
                },
                index as nat,
            ),
    {
        match d {
            Some(d) => EventFields {
                kind: String::from_str(kind),
                id: u64_to_string(d.id as u64),
                app_name: d.app_name.clone(),
                summary: d.title.clone(),
                title: d.title.clone(),
                body: d.body.clone(),
                icon: d.icon.clone(),
                urgency: u64_to_string(d.urgency as u64),
                urgency_name: d.urgency_name.clone(),
                history_index: u64_to_string(index as u64),
            },
            None => {
                let r = EventFields {
                    kind: String::from_str(kind),
                    id: String::from_str("0"),
                    app_name: String::new(),
                    summary: String::new(),
                    title: String::new(),
                    body: String::new(),
                    icon: String::new(),
                    urgency: String::from_str("1"),
                    urgency_name: String::from_str("normal"),
                    history_index: u64_to_string(index as u64),
                };
                r
            },
        }
    }
}

/// The visible notifications of `slots`, packed at the front of as many
/// slots, the rest cleared.
fn pack_visible(slots: &Vec<Slot>) -> (r: Vec<Slot>)
    ensures
        slots_view(r@) == packed(active_notes(slots_view(slots@)), slots@.len()),
{
    let ghost sv = slots_view(slots@);
    let mut notes: Vec<NotificationData> = Vec::new();
    let mut i: usize = 0;
    while i < slots.len()
        invariant
            sv == slots_view(slots@),
            i <= slots.len(),
            notes@.map_values(|d: NotificationData| d@) == active_notes(sv.take(i as int)),
        decreases slots.len() - i,
    {
        proof {
            assert(sv.take(i + 1).drop_last() =~= sv.take(i as int));
        }
        if slots[i].is_shown() {
            if let Some(d) = slots[i].read() {
                let ghost before = notes@;
                notes.push(d);
                assert(notes@.map_values(|d: NotificationData| d@) =~= before.map_values(
                    |d: NotificationData| d@,
                ).push(d@));
            }
        }
        i += 1;
    }
    assert(sv.take(slots.len() as int) =~= sv);
    let ghost nv = active_notes(sv);
    proof {
        lemma_active_notes_len(sv);
    }
    let mut out: Vec<Slot> = Vec::new();
    let mut j: usize = 0;
    while j < slots.len()
        invariant
            sv == slots_view(slots@),
            nv == active_notes(sv),
            nv.len() <= sv.len(),
            notes@.map_values(|d: NotificationData| d@) == nv,
            j <= slots.len(),
            out.len() == j,
            forall|k: int| 0 <= k < j ==> #[trigger] out@[k]@ == packed(nv, sv.len())[k],
        decreases slots.len() - j,
    {
        if j < notes.len() {
            assert(notes@[j as int]@ == nv[j as int]);
            out.push(Slot::write(&notes[j], true));
        } else {
            out.push(Slot::clear());
        }
        j += 1;
    }
    assert(slots_view(out@) =~= packed(nv, sv.len()));
    out
}

proof fn lemma_active_notes_len(s: Seq<SlotView>)
    ensures
        active_notes(s).len() <= s.len(),
    decreases s.len(),
{
    if s.len() > 0 {
        lemma_active_notes_len(s.drop_last());
    }
}

/// When a notification with the given timeout should be hidden, in
/// milliseconds: the default for -1, the timeout itself when positive, never
/// otherwise.
pub open spec fn hide_delay(timeout_ms: i32) -> Option<u64> {
    if timeout_ms == -1 {
        Some(DEFAULT_TIMEOUT_MS)
    } else if timeout_ms > 0 {
        Some(timeout_ms as u64)
    } else {
        None
    }
}

pub fn auto_hide_delay(timeout_ms: i32) -> (r: Option<u64>)
    ensures
        r == hide_delay(timeout_ms),
{
    if timeout_ms == -1 {
        Some(DEFAULT_TIMEOUT_MS)
    } else if timeout_ms > 0 {
        Some(timeout_ms as u64)
    } else {
        None
    }
}

/// Whether a control value asks for the action: non-empty, not `0`, not
/// `false`.
pub open spec fn triggered(value: Seq<char>) -> bool {
    value.len() > 0 && value != "0"@ && value != "false"@
}

pub fn is_triggered(value: &str) -> (r: bool)
    ensures
        r == triggered(value@),
{
    !value.is_empty() && !str_eq(value, "0") && !str_eq(value, "false")
}

/// What a change of a history control key asks for.
#[derive(Debug, PartialEq, Eq)]
pub enum HistoryRequest {
    Clear,
    Delete(usize),
}

pub open spec fn is_clear_key(name: Seq<char>) -> bool {
    name == "notification.history_clear"@ || name == "notification.history.clear"@
}

pub open spec fn is_delete_key(name: Seq<char>) -> bool {
    name == "notification.history_delete"@ || name == "notification.history.delete"@
}

/// The history request that a signal change makes, if any.
pub open spec fn history_request_for(name: Seq<char>, value: Seq<char>) -> Option<HistoryRequest> {
    if is_clear_key(name) && triggered(value) {
        Some(HistoryRequest::Clear)
    } else if is_delete_key(name) && value != "0"@ && value.len() > 0 && parse_unsigned(
        value,
        usize::MAX as nat,
    ) is Some {
        Some(HistoryRequest::Delete(parse_unsigned(value, usize::MAX as nat)->0 as usize))
    } else {
        None
    }
}

/// Reads a change of `name` to `value` as a request on the history: a
/// triggered clear key empties it, a delete key with an index deletes that
/// entry.
pub fn history_request(name: &str, value: &str) -> (r: Option<HistoryRequest>)
    ensures
        r == history_request_for(name@, value@),
{
    let clear_key = str_eq(name, "notification.history_clear") || str_eq(
        name,
        "notification.history.clear",
    );
    if clear_key && is_triggered(value) {
        return Some(HistoryRequest::Clear);
    }
    let delete_key = str_eq(name, "notification.history_delete") || str_eq(
        name,
        "notification.history.delete",
    );
    if delete_key && !str_eq(value, "0") && !value.is_empty() {
        if let Some(idx) = crate::text::parse_usize(value) {
            return Some(HistoryRequest::Delete(idx));
        }
    }
    None
}

/// Whether `path` names a file in the icon cache directory `dir`: it is
/// absolute and lies under `dir`, compared as text by whole path components
/// (`dir` itself, or `dir` followed by a separator, or `dir` ending in one
/// and followed by more).
pub open spec fn cached_icon(path: Seq<char>, dir: Seq<char>) -> bool {
    &&& path.len() > 0
    &&& path[0] == '/'
    &&& path.len() >= dir.len()
    &&& path.take(dir.len() as int) == dir
    &&& (path.len() == dir.len() || (dir.len() > 0 && dir.last() == '/') || path[dir.len() as int] == '/')
}

/// Whether an icon path is one of the cached copies under `dir`.
pub fn is_cached_icon_path(path: &str, dir: &str) -> (r: bool)
    ensures
        r == cached_icon(path@, dir@),
{
    let p = crate::text::chars_vec(path);
    let d = crate::text::chars_vec(dir);
    if p.len() == 0 || p[0] != '/' || p.len() < d.len() {
        return false;
    }
    let mut i: usize = 0;
    while i < d.len()
        invariant
            p@ == path@,
            d@ == dir@,
            d.len() <= p.len(),
            i <= d.len(),
            p@.take(i as int) == d@.take(i as int),
        decreases d.len() - i,
    {
        if p[i] != d[i] {
            assert(p@.take(d.len() as int)[i as int] != d@[i as int]);
            return false;
        }
        assert(p@.take(i + 1) =~= p@.take(i as int).push(p@[i as int]));
        assert(d@.take(i + 1) =~= d@.take(i as int).push(d@[i as int]));
        i += 1;
    }
    assert(d@.take(d.len() as int) =~= d@);
    p.len() == d.len() || (d.len() > 0 && d[d.len() - 1] == '/') || p[d.len()] == '/'
}

/// The store after a signal value changed: cleared or with an entry
/// deleted when the change is a history request, else as it was.
pub open spec fn after_control(s: StoreView, name: Seq<char>, value: Seq<char>) -> StoreView {
    match history_request_for(name, value) {
        Some(HistoryRequest::Clear) => after_clear_history(s),
        Some(HistoryRequest::Delete(i)) => after_delete_history(s, i as nat),
        None => s,
    }
}

/// The control keys a handled request sets back to `0`.
pub open spec fn control_resets(name: Seq<char>, value: Seq<char>) -> Seq<(Seq<char>, Seq<char>)> {
    match history_request_for(name, value) {
        Some(HistoryRequest::Clear) => seq![
            ("notification.history_clear"@, "0"@),
            ("notification.history.clear"@, "0"@),
        ],
        Some(HistoryRequest::Delete(_)) => seq![
            ("notification.history_delete"@, "0"@),
            ("notification.history.delete"@, "0"@),
        ],
        None => seq![],
    }
}

/// A triggered clear key clears the history and sets both clear keys back
/// to `0`; a delete key naming an entry deletes it and sets both delete keys
/// back to `0`; and setting a key back to `0` is no request, so the reset
/// does not act again.
pub proof fn law_history_control(s: StoreView, name: Seq<char>, value: Seq<char>)
    ensures
        is_clear_key(name) && triggered(value) ==> after_control(s, name, value) == after_clear_history(s)
            && control_resets(name, value) == seq![
            ("notification.history_clear"@, "0"@),
            ("notification.history.clear"@, "0"@),
        ],
        (is_delete_key(name) && value != "0"@ && value.len() > 0 && parse_unsigned(value, usize::MAX as nat)
            is Some) ==> after_control(s, name, value) == after_delete_history(
            s,
            parse_unsigned(value, usize::MAX as nat)->0,
        ) && control_resets(name, value) == seq![
            ("notification.history_delete"@, "0"@),
            ("notification.history.delete"@, "0"@),
        ],
        history_request_for(name, "0"@) is None,
        history_request_for(name, value) is None ==> after_control(s, name, value) == s && control_resets(
            name,
            value,
        ).len() == 0,
{
    reveal_strlit("notification.history_clear");
    reveal_strlit("notification.history.clear");
    reveal_strlit("notification.history_delete");
    reveal_strlit("notification.history.delete");
    assert("notification.history_clear"@[21] == 'c');
    assert("notification.history.clear"@[21] == 'c');
    assert("notification.history_delete"@[21] == 'd');
    assert("notification.history.delete"@[21] == 'd');
}

/// The notification that the configuration sends itself.
pub open spec fn local_note(
    id: u32,
    title: Seq<char>,
    body: Seq<char>,
    icon: Option<Seq<char>>,
    urgency: Option<Seq<char>>,
) -> NoteView {
    let u = urgency_level(
        match urgency {
            Some(x) => x,
            None => "normal"@,
        },
    );
    NoteView {
        id,
        app_name: "lush"@,
        title,
        body,
        icon: match icon {
            Some(x) => x,
            None => seq![],
        },
        urgency: u,
        urgency_name: urgency_label(u),
    }
}

impl NotificationStore {
    /// A store in which no key has been written.
    pub fn new() -> (r: Self)
        ensures
            well_formed(r@),
            forall|i: int| 0 <= i < 3 ==> #[trigger] r@.slots[i].id.len() == 0,
            forall|i: int| 0 <= i < 32 ==> #[trigger] r@.history[i].id.len() == 0,
    {
        let mut slots: Vec<Slot> = Vec::new();
        let mut i: usize = 0;
        while i < MAX_NOTIFICATION_SLOTS
            invariant
                i <= 3,
                slots.len() == i,
                forall|k: int| 0 <= k < i ==> #[trigger] slots@[k]@.id.len() == 0,
            decreases 3 - i,
        {
            slots.push(Slot::unset());
            i += 1;
        }
        let mut history: Vec<Slot> = Vec::new();
        let mut j: usize = 0;
        while j < MAX_HISTORY_SLOTS
            invariant
                j <= 32,
                history.len() == j,
                forall|k: int| 0 <= k < j ==> #[trigger] history@[k]@.id.len() == 0,
            decreases 32 - j,
        {
            history.push(Slot::unset());
            j += 1;
        }
        NotificationStore {
            slots,
            history,
            primary: Slot::unset(),
            event: EventFields::unset(),
            event_seq: String::new(),
            changed: String::new(),
            has: String::new(),
            active_count: String::new(),
            history_count: String::new(),
        }
    }

    fn update_counts(&mut self)
        ensures
            final(self)@ == (StoreView {
                active_count: decimal(count_shown(old(self)@.slots)),
                history_count: decimal(count_shown(old(self)@.history)),
                ..old(self)@
            }),
    {
        let active = count_visible(&self.slots);
        self.active_count = u64_to_string(active);
        let history = count_visible(&self.history);
        self.history_count = u64_to_string(history);
    }

    fn emit_event(&mut self, kind: &str, d: &Option<NotificationData>, index: usize)
        ensures
            final(self)@ == (StoreView {
                event: event_for(
                    kind@,
                    match d {
                        Some(x) => Some(x@),
                        None => None,
                    },
                    index as nat,
                ),
                event_seq: bumped(old(self)@.event_seq),
                ..old(self)@
            }),
    {
        self.event = EventFields::make(kind, d, index);
        self.event_seq = bump(&self.event_seq);
    }

    fn emit_changed(&mut self)
        ensures
            final(self)@ == (StoreView { changed: bumped(old(self)@.changed), ..old(self)@ }),
    {
        self.changed = bump(&self.changed);
    }

    fn sync_primary(&mut self)
        requires
            old(self).slots.len() > 0,
        ensures
            final(self)@ == (StoreView {
                primary: synced_primary(old(self)@.slots[0], old(self)@.primary),
                ..old(self)@
            }),
    {
        if self.slots[0].is_shown() {
            if let Some(d) = self.slots[0].read() {
                self.primary = Slot::write(&d, true);
                return;
            }
        }
        self.primary.visible = String::from_str("0");
    }

    /// Shows a notification: it takes slot 1 and history entry 1, the older
    /// ones move down and the oldest falls off; counts, the primary
    /// notification, the event and the change counter follow.
    pub fn push_notification(&mut self, data: NotificationData)
        requires
            well_formed(old(self)@),
        ensures
            final(self)@ == after_push(old(self)@, data@),
            well_formed(final(self)@),
    {
        let ghost pre = self@;
        let mut slots: Vec<Slot> = Vec::new();
        slots.push(Slot::write(&data, true));
        slots.push(self.slots[0].copy());
        slots.push(self.slots[1].copy());
        assert(slots_view(slots@) =~= seq![written(data@, true)] + pre.slots.take(2));
        let mut history: Vec<Slot> = Vec::new();
        history.push(Slot::write(&data, true));
        let mut i: usize = 0;
        while i < 31
            invariant
                i <= 31,
                self@ == pre,
                well_formed(pre),
                history.len() == i + 1,
                slots_view(history@) =~= seq![written(data@, true)] + pre.history.take(i as int),
            decreases 31 - i,
        {
            let c = self.history[i].copy();
            assert(c@ == pre.history[i as int]);
            let ghost before = history@;
            history.push(c);
            assert(slots_view(history@) =~= slots_view(before).push(c@));
            assert(pre.history.take(i + 1) =~= pre.history.take(i as int).push(pre.history[i as int]));
            i += 1;
        }
        self.slots = slots;
        self.history = history;
        self.sync_primary();
        self.update_counts();
        let event_data = Some(data.copy());
        self.emit_event("pushed", &event_data, 0);
        self.has = String::from_str("1");
        self.emit_changed();
    }

    /// Closes notification `id`: every slot holding it is cleared and the
    /// visible ones that remain are packed at the front; the primary
    /// notification then follows slot 1.
    pub fn close_notification_by_id(&mut self, id: u32)
        requires
            well_formed(old(self)@),
        ensures
            final(self)@ == after_close(old(self)@, id),
            well_formed(final(self)@),
    {
        let ghost pre = self@;
        let ghost p = has_id(id);
        let mut hit: Option<usize> = None;
        let mut closed: Option<NotificationData> = None;
        let mut kept: Vec<Slot> = Vec::new();
        let mut i: usize = 0;
        while i < MAX_NOTIFICATION_SLOTS
            invariant
                i <= 3,
                self@ == pre,
                well_formed(pre),
                p == has_id(id),
                kept.len() == i,
                forall|k: int| 0 <= k < i ==> #[trigger] kept@[k]@ == without_id(pre.slots, id)[k],
                hit is None ==> forall|k: int| 0 <= k < i ==> !p(#[trigger] pre.slots[k]),
                hit matches Some(f) ==> f < i && crate::seqs::is_first(pre.slots, p, f as int) && match closed {
                    Some(d) => read(pre.slots[f as int]) == Some(d@),
                    None => read(pre.slots[f as int]) is None,
                },
            decreases 3 - i,
        {
            assert(pre.slots[i as int] == self.slots@[i as int]@);
            if self.slots[i].stored_id() == id {
                if hit.is_none() {
                    hit = Some(i);
                    closed = self.slots[i].read();
                }
                kept.push(Slot::clear());
            } else {
                kept.push(self.slots[i].copy());
            }
            i += 1;
        }
        assert(slots_view(kept@) =~= without_id(pre.slots, id));
        match hit {
            Some(f) => {
                proof {
                    lemma_first_match_some(pre.slots, p, f as int);
                }
                self.slots = pack_visible(&kept);
                self.update_counts();
                self.emit_event("closed", &closed, 0);
                self.emit_changed();
            },
            None => {
                proof {
                    lemma_first_match_none(pre.slots, p);
                }
            },
        }
        self.sync_primary();
    }

    /// Shows a notification that the configuration sends itself, under the
    /// given id; returns after how many milliseconds it should be hidden.
    pub fn send(
        &mut self,
        id: u32,
        title: &str,
        body: &str,
        icon: Option<&str>,
        urgency: Option<&str>,
        timeout_ms: Option<i32>,
    ) -> (r: Option<u64>)
        requires
            well_formed(old(self)@),
        ensures
            final(self)@ == after_push(
                old(self)@,
                local_note(
                    id,
                    title@,
                    body@,
                    crate::selector::opt_view(icon),
                    crate::selector::opt_view(urgency),
                ),
            ),
            r == hide_delay(
                match timeout_ms {
                    Some(t) => t,
                    None => DEFAULT_TIMEOUT_MS as i32,
                },
            ),
    {
        let level = match urgency {
            Some(u) => parse_urgency(u),
            None => parse_urgency("normal"),
        };
        let data = NotificationData {
            id,
            app_name: String::from_str("lush"),
            title: String::from_str(title),
            body: String::from_str(body),
            icon: match icon {
                Some(i) => String::from_str(i),
                None => String::new(),
            },
            urgency: level,
            urgency_name: String::from_str(urgency_name(level)),
        };
        self.push_notification(data);
        auto_hide_delay(
            match timeout_ms {
                Some(t) => t,
                None => DEFAULT_TIMEOUT_MS as i32,
            },
        )
    }

    /// Empties the history now.
    pub fn clear_history_now(&mut self)
        requires
            well_formed(old(self)@),
        ensures
            final(self)@ == after_clear_history(old(self)@),
            well_formed(final(self)@),
    {
        self.clear_history();
    }

    /// Deletes history entry `index` (counted from one) now.
    pub fn delete_history_now(&mut self, index: usize)
        requires
            well_formed(old(self)@),
        ensures
            final(self)@ == after_delete_history(old(self)@, index as nat),
            well_formed(final(self)@),
    {
        self.delete_history_slot(index);
    }

    /// Acts on a change of a signal value: a history request (see
    /// [`history_request`]) clears the history or deletes the entry, and the
    /// result is the control keys of that request set back to `0`; any
    /// other change leaves the store as it is and sets nothing.
    pub fn apply_control(&mut self, name: &str, value: &str) -> (r: Vec<(String, String)>)
        requires
            well_formed(old(self)@),
        ensures
            well_formed(final(self)@),
            final(self)@ == after_control(old(self)@, name@, value@),
            pairs_view(r@) == control_resets(name@, value@),
    {
        match history_request(name, value) {
            Some(HistoryRequest::Clear) => {
                self.clear_history_now();
                let mut v: Vec<(String, String)> = Vec::new();
                assert(pairs_view(v@) =~= seq![]);
                push_pair_text(&mut v, "notification.history_clear", "0");
                push_pair_text(&mut v, "notification.history.clear", "0");
                v
            },
            Some(HistoryRequest::Delete(i)) => {
                self.delete_history_now(i);
                let mut v: Vec<(String, String)> = Vec::new();
                assert(pairs_view(v@) =~= seq![]);
                push_pair_text(&mut v, "notification.history_delete", "0");
                push_pair_text(&mut v, "notification.history.delete", "0");
                v
            },
            None => {
                let v: Vec<(String, String)> = Vec::new();
                assert(pairs_view(v@) =~= seq![]);
                v
            },
        }
    }

    /// Empties the history.
    pub fn clear_history(&mut self)
        requires
            well_formed(old(self)@),
        ensures
            final(self)@ == after_clear_history(old(self)@),
            well_formed(final(self)@),
    {
        let ghost pre = self@;
        let mut history: Vec<Slot> = Vec::new();
        let mut i: usize = 0;
        while i < MAX_HISTORY_SLOTS
            invariant
                i <= 32,
                history.len() == i,
                forall|k: int| 0 <= k < i ==> #[trigger] history@[k]@ == cleared(),
            decreases 32 - i,
        {
            history.push(Slot::clear());
            i += 1;
        }
        assert(slots_view(history@) =~= Seq::new(pre.history.len(), |i: int| cleared()));
        self.history = history;
        self.update_counts();
        self.emit_event("history_cleared", &None, 0);
        self.emit_changed();
    }

    /// Deletes history entry `idx` (counted from one): later entries move up
    /// and the last is cleared. An index out of range changes nothing.
    pub fn delete_history_slot(&mut self, idx: usize)
        requires
            well_formed(old(self)@),
        ensures
            final(self)@ == after_delete_history(old(self)@, idx as nat),
            well_formed(final(self)@),
    {
        if idx == 0 || idx > MAX_HISTORY_SLOTS {
            return;
        }
        let ghost pre = self@;
        let ghost target = pre.history.remove(idx - 1).push(cleared());
        let mut history: Vec<Slot> = Vec::new();
        let mut i: usize = 0;
        while i < MAX_HISTORY_SLOTS
            invariant
                i <= 32,
                1 <= idx <= 32,
                self@ == pre,
                well_formed(pre),
                target == pre.history.remove(idx - 1).push(cleared()),
                history.len() == i,
                forall|k: int| 0 <= k < i ==> #[trigger] history@[k]@ == target[k],
            decreases 32 - i,
        {
            if i == MAX_HISTORY_SLOTS - 1 {
                history.push(Slot::clear());
            } else if i < idx - 1 {
                history.push(self.history[i].copy());
            } else {
                history.push(self.history[i + 1].copy());
            }
            i += 1;
        }
        assert(slots_view(history@) =~= target);
        self.history = history;
        self.update_counts();
        self.emit_event("history_deleted", &None, idx);
        self.emit_changed();
    }
}

// ---------------------------------------------------------------------------
// Hints and signal keys.
/// The image a notification shows: its `image-path` hint, else its
/// `image_path` hint, else the application icon.
pub open spec fn image_path_of(app_icon: Seq<char>, hints: Seq<(String, PropValue)>) -> Seq<char> {
    match named(hints, "image-path"@) {
        Some(PropValue::Str(s)) => s@,
        _ => match named(hints, "image_path"@) {
            Some(PropValue::Str(s)) => s@,
            _ => app_icon,
        },
    }
}

fn hint_string(hints: &Vec<(String, PropValue)>, key: &str) -> (r: Option<String>)
    ensures
        r matches Some(s) ==> named(hints@, key@) matches Some(PropValue::Str(x)) && s@ == x@,
        r is None ==> !(named(hints@, key@) matches Some(PropValue::Str(_))),
{
    match find_named(hints, key) {
        Some(PropValue::Str(s)) => Some(s.clone()),
        _ => None,
    }
}

/// The image a notification shows.
pub fn extract_image_path(app_icon: &str, hints: &Vec<(String, PropValue)>) -> (r: String)
    ensures
        r@ == image_path_of(app_icon@, hints@),
{
    match hint_string(hints, "image-path") {
        Some(s) => s,
        None => match hint_string(hints, "image_path") {
            Some(s) => s,
            None => owned(app_icon),
        },
    }
}

/// The urgency hint: a byte as it is, a wider integer cut to its low byte.
pub open spec fn urgency_hint(hints: Seq<(String, PropValue)>) -> Option<u8> {
    match named(hints, "urgency"@) {
        Some(PropValue::U8(v)) => Some(v),
        Some(PropValue::U32(v)) => Some(v as u8),
        Some(PropValue::I32(v)) => Some(v as u8),
        _ => None,
    }
}

/// The urgency hint.
pub fn extract_urgency(hints: &Vec<(String, PropValue)>) -> (r: Option<u8>)
    ensures
        r == urgency_hint(hints@),
{
    match find_named(hints, "urgency") {
        Some(PropValue::U8(v)) => Some(*v),
        Some(PropValue::U32(v)) => Some(*v as u8),
        Some(PropValue::I32(v)) => Some(*v as u8),
        _ => None,
    }
}

/// The key of a field of an on-screen slot (counted from one).
pub open spec fn slot_key_of(slot: nat, field: Seq<char>) -> Seq<char> {
    "notification.slot"@ + decimal(slot) + "."@ + field
}

/// The key of a field of a history entry (counted from one).
pub open spec fn history_key_of(slot: nat, field: Seq<char>) -> Seq<char> {
    "notification.history"@ + decimal(slot) + "."@ + field
}

/// The key of a field of an on-screen slot.
pub fn slot_key(slot: usize, field: &str) -> (r: String)
    ensures
        r@ == slot_key_of(slot as nat, field@),
{
    let mut k = String::from_str("notification.slot");
    let n = u64_to_string(slot as u64);
    k.append(n.as_str());
    k.append(".");
    k.append(field);
    k
}

/// The key of a field of a history entry.
pub fn history_key(slot: usize, field: &str) -> (r: String)
    ensures
        r@ == history_key_of(slot as nat, field@),
{
    let mut k = String::from_str("notification.history");
    let n = u64_to_string(slot as u64);
    k.append(n.as_str());
    k.append(".");
    k.append(field);
    k
}

/// The keys and values of one slot under a key prefix.
pub open spec fn slot_pairs(prefix: Seq<char>, s: SlotView) -> Seq<(Seq<char>, Seq<char>)> {
    seq![
        (prefix + "id"@, s.id),
        (prefix + "app_name"@, s.app_name),
        (prefix + "summary"@, s.summary),
        (prefix + "title"@, s.title),
        (prefix + "body"@, s.body),
        (prefix + "icon"@, s.icon),
        (prefix + "urgency"@, s.urgency),
        (prefix + "urgency_name"@, s.urgency_name),
        (prefix + "visible"@, s.visible),
    ]
}

/// The keys and values of numbered slots under a base key.
pub open spec fn numbered_pairs(base: Seq<char>, ss: Seq<SlotView>) -> Seq<(Seq<char>, Seq<char>)>
    decreases ss.len(),
{
    if ss.len() == 0 {
        seq![]
    } else {
        numbered_pairs(base, ss.drop_last()) + slot_pairs(base + decimal(ss.len()) + "."@, ss.last())
    }
}

/// Every key of the notification state and its value, in a fixed order:
/// the slots, the history, the primary notification, the last event and the
/// counters.
pub open spec fn store_pairs(s: StoreView) -> Seq<(Seq<char>, Seq<char>)> {
    numbered_pairs("notification.slot"@, s.slots) + numbered_pairs("notification.history"@, s.history)
        + slot_pairs("notification."@, s.primary) + seq![
        ("notification.event"@, s.event.kind),
        ("notification.event.id"@, s.event.id),
        ("notification.event.app_name"@, s.event.app_name),
        ("notification.event.summary"@, s.event.summary),
        ("notification.event.title"@, s.event.title),
        ("notification.event.body"@, s.event.body),
        ("notification.event.icon"@, s.event.icon),
        ("notification.event.urgency"@, s.event.urgency),
        ("notification.event.urgency_name"@, s.event.urgency_name),
        ("notification.event.history_index"@, s.event.history_index),
        ("notification.event_seq"@, s.event_seq),
        ("notification.changed"@, s.changed),
        ("notification.has"@, s.has),
        ("notification.active_count"@, s.active_count),
        ("notification.history_count"@, s.history_count),
    ]
}

fn push_slot_pairs(v: &mut Vec<(String, String)>, prefix: &String, s: &Slot)
    ensures
        pairs_view(final(v)@) == pairs_view(old(v)@) + slot_pairs(prefix@, s@),
{
    let ghost start = pairs_view(v@);
    let mut k = prefix.clone();
    k.append("id");
    push_pair_text(v, k.as_str(), s.id.as_str());
    let mut k = prefix.clone();
    k.append("app_name");
    push_pair_text(v, k.as_str(), s.app_name.as_str());
    let mut k = prefix.clone();
    k.append("summary");
    push_pair_text(v, k.as_str(), s.summary.as_str());
    let mut k = prefix.clone();
    k.append("title");
    push_pair_text(v, k.as_str(), s.title.as_str());
    let mut k = prefix.clone();
    k.append("body");
    push_pair_text(v, k.as_str(), s.body.as_str());
    let mut k = prefix.clone();
    k.append("icon");
    push_pair_text(v, k.as_str(), s.icon.as_str());
    let mut k = prefix.clone();
    k.append("urgency");
    push_pair_text(v, k.as_str(), s.urgency.as_str());
    let mut k = prefix.clone();
    k.append("urgency_name");
    push_pair_text(v, k.as_str(), s.urgency_name.as_str());
    let mut k = prefix.clone();
    k.append("visible");
    push_pair_text(v, k.as_str(), s.visible.as_str());
    assert(pairs_view(v@) =~= start + slot_pairs(prefix@, s@));
}

fn push_numbered(v: &mut Vec<(String, String)>, base: &str, ss: &Vec<Slot>)
    ensures
        pairs_view(final(v)@) == pairs_view(old(v)@) + numbered_pairs(base@, slots_view(ss@)),
{
    let ghost start = pairs_view(v@);
    let ghost sv = slots_view(ss@);
    let mut i: usize = 0;
    assert(pairs_view(v@) =~= start + numbered_pairs(base@, sv.take(0)));
    while i < ss.len()
        invariant
            i <= ss.len(),
            sv == slots_view(ss@),
            pairs_view(v@) == start + numbered_pairs(base@, sv.take(i as int)),
        decreases ss.len() - i,
    {
        proof {
            assert(sv.take(i + 1).drop_last() =~= sv.take(i as int));
            assert(sv.take(i + 1).last() == ss@[i as int]@);
        }
        let mut prefix = String::from_str(base);
        let n = u64_to_string((i + 1) as u64);
        prefix.append(n.as_str());
        prefix.append(".");
        push_slot_pairs(v, &prefix, &ss[i]);
        assert(pairs_view(v@) =~= start + numbered_pairs(base@, sv.take(i + 1)));
        i += 1;
    }
    assert(sv.take(ss.len() as int) =~= sv);
}

impl NotificationStore {
    /// Every key of the notification state and its value.
    pub fn entries(&self) -> (r: Vec<(String, String)>)
        ensures
            pairs_view(r@) == store_pairs(self@),
    {
        let mut v: Vec<(String, String)> = Vec::new();
        assert(pairs_view(v@) =~= seq![]);
        push_numbered(&mut v, "notification.slot", &self.slots);
        push_numbered(&mut v, "notification.history", &self.history);
        let prefix = String::from_str("notification.");
        push_slot_pairs(&mut v, &prefix, &self.primary);
        let e = &self.event;
        push_pair_text(&mut v, "notification.event", e.kind.as_str());
        push_pair_text(&mut v, "notification.event.id", e.id.as_str());
        push_pair_text(&mut v, "notification.event.app_name", e.app_name.as_str());
        push_pair_text(&mut v, "notification.event.summary", e.summary.as_str());
        push_pair_text(&mut v, "notification.event.title", e.title.as_str());
        push_pair_text(&mut v, "notification.event.body", e.body.as_str());
        push_pair_text(&mut v, "notification.event.icon", e.icon.as_str());
        push_pair_text(&mut v, "notification.event.urgency", e.urgency.as_str());
        push_pair_text(&mut v, "notification.event.urgency_name", e.urgency_name.as_str());
        push_pair_text(&mut v, "notification.event.history_index", e.history_index.as_str());
        push_pair_text(&mut v, "notification.event_seq", self.event_seq.as_str());
        push_pair_text(&mut v, "notification.changed", self.changed.as_str());
        push_pair_text(&mut v, "notification.has", self.has.as_str());
        push_pair_text(&mut v, "notification.active_count", self.active_count.as_str());
        push_pair_text(&mut v, "notification.history_count", self.history_count.as_str());
        assert(pairs_view(v@) =~= store_pairs(self@));
        v
    }
}

/// The number after `n`, wrapping to zero.
pub open spec fn next_number(n: u32) -> u32 {
    if n == u32::MAX {
        0
    } else {
        (n + 1) as u32
    }
}

/// The numbers notifications get: those the configuration sends from 10000
/// up, those of other programs from 1 up, each wrapping.
pub struct NotificationIds {
    pub next_local: u32,
    pub next_remote: u32,
}

impl NotificationIds {
    /// Numbering from the start.
    pub fn new() -> (r: Self)
        ensures
            r.next_local == 10000,
            r.next_remote == 1,
    {
        NotificationIds { next_local: 10000, next_remote: 1 }
    }

    /// The number for a notification the configuration sends.
    pub fn local_id(&mut self) -> (id: u32)
        ensures
            id == old(self).next_local,
            final(self).next_local == next_number(id),
            final(self).next_remote == old(self).next_remote,
    {
        let id = self.next_local;
        self.next_local = if id == u32::MAX {
            0
        } else {
            id + 1
        };
        id
    }

    /// The number for a notification of another program: the one it
    /// replaces, or else the next one.
    pub fn remote_id(&mut self, replaces_id: u32) -> (id: u32)
        ensures
            replaces_id != 0 ==> id == replaces_id && *final(self) == *old(self),
            replaces_id == 0 ==> id == old(self).next_remote && final(self).next_remote
                == next_number(id) && final(self).next_local == old(self).next_local,
    {
        if replaces_id != 0 {
            return replaces_id;
        }
        let id = self.next_remote;
        self.next_remote = if id == u32::MAX {
            0
        } else {
            id + 1
        };
        id
    }
}

/// A notification of another program, as the daemon keeps it: its urgency
/// hint (normal without one) and the image its hints name, else its icon.
pub fn incoming_notification(
    id: u32,
    app_name: String,
    app_icon: &str,
    summary: String,
    body: String,
    hints: &Vec<(String, PropValue)>,
) -> (r: NotificationData)
    ensures
        r@ == (NoteView {
            id,
            app_name: app_name@,
            title: summary@,
            body: body@,
            icon: image_path_of(app_icon@, hints@),
            urgency: match urgency_hint(hints@) {
                Some(u) => u,
                None => 1,
            },
            urgency_name: urgency_label(
                match urgency_hint(hints@) {
                    Some(u) => u,
                    None => 1,
                },
            ),
        }),
{
    let urgency = match extract_urgency(hints) {
        Some(u) => u,
        None => 1,
    };
    NotificationData {
        id,
        app_name,
        title: summary,
        body,
        icon: extract_image_path(app_icon, hints),
        urgency,
        urgency_name: String::from_str(urgency_name(urgency)),
    }
}

} // verus!
