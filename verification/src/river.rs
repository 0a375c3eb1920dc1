//! River: the focused-tags command, and the toplevel list kept from the
//! foreign-toplevel protocol's events. Wayland objects are known here by
//! their numeric ids.
use vstd::prelude::*;

use crate::compositor::{entries_view, CompositorSnapshot, EntryView, FocusedWindowSnapshot, ToplevelEntry};
use crate::hyprland::opt_string;
use crate::order::texts;
use crate::selector::opt_view;
use crate::text::{
    contains, contains_str, decimal, eq_fold, eq_ignore_ascii_case, lower_seq, owned,
    parse_unsigned, parse_u32, parse_usize, str_eq, to_ascii_lowercase, trim, trim_str,
    u64_to_string,
};

verus! {

// ---------------------------------------------------------------------------
// Control commands.
/// The arguments of the command that shows a workspace: its tag mask.
pub fn focus_workspace_args(index_1_based: u32) -> (r: Vec<String>)
    requires
        1 <= index_1_based <= 32,
    ensures
        texts(r@) == seq!["set-focused-tags"@, decimal((1u32 << ((index_1_based - 1) as u32)) as nat)],
{
    let mask = 1u32 << (index_1_based - 1);
    let mut v: Vec<String> = Vec::new();
    v.push(String::from_str("set-focused-tags"));
    v.push(u64_to_string(mask as u64));
    assert(texts(v@) =~= seq!["set-focused-tags"@, decimal(mask as nat)]);
    v
}

/// The arguments of the command that shows the focused view's tags.
pub fn focus_view_tags_args() -> (r: Vec<String>)
    ensures
        texts(r@) == seq!["focus-view-tags"@],
{
    let mut v: Vec<String> = Vec::new();
    v.push(String::from_str("focus-view-tags"));
    assert(texts(v@) =~= seq!["focus-view-tags"@]);
    v
}

/// The outcome of a control command from its callback: success, or the
/// failure message.
pub fn command_result(failure_message: Option<&str>) -> (r: Result<(), String>)
    ensures
        r is Ok <==> failure_message is None,
        r matches Err(e) ==> e@ == "river control failure: "@ + failure_message->0@,
{
    match failure_message {
        None => Ok(()),
        Some(m) => {
            let mut e = String::from_str("river control failure: ");
            e.append(m);
            Err(e)
        },
    }
}

/// The workspace snapshot from river's status: its masks and the focused
/// view's title.
pub fn status_snapshot(focused: u32, occupied: u32, urgent: u32, focused_title: String) -> (r: CompositorSnapshot)
    ensures
        r.focused_mask == focused,
        r.occupied_mask == occupied,
        r.urgent_mask == urgent,
        r.focused_window@.title == focused_title@,
        r.focused_window@.app_id == Seq::<char>::empty(),
        r.focused_window@.identifier == Seq::<char>::empty(),
{
    CompositorSnapshot {
        focused_mask: focused,
        occupied_mask: occupied,
        urgent_mask: urgent,
        focused_window: FocusedWindowSnapshot {
            title: focused_title,
            app_id: String::new(),
            identifier: String::new(),
        },
    }
}

// ---------------------------------------------------------------------------
// Toplevel state.
/// The state value that marks a toplevel as activated.
pub open spec fn activated() -> u32 {
    2
}

/// Whether a toplevel's state values include "activated".
pub fn state_contains_activated(values: &[u32]) -> (r: bool)
    ensures
        r == values@.contains(activated()),
{
    let mut i: usize = 0;
    while i < values.len()
        invariant
            i <= values.len(),
            forall|j: int| 0 <= j < i ==> values@[j] != activated(),
        decreases values.len() - i,
    {
        if values[i] == 2 {
            assert(values@[i as int] == activated());
            return true;
        }
        i += 1;
    }
    false
}

/// What is known of one toplevel window.
#[derive(Debug)]
pub struct ToplevelInfo {
    pub title: String,
    pub app_id: String,
    pub identifier: String,
    pub outputs: Vec<u64>,
    pub focused: bool,
    pub pending_focused: Option<bool>,
    pub focused_epoch: u64,
}

pub struct InfoView {
    pub title: Seq<char>,
    pub app_id: Seq<char>,
    pub identifier: Seq<char>,
    pub outputs: Seq<u64>,
    pub focused: bool,
    pub pending_focused: Option<bool>,
    pub focused_epoch: u64,
}

impl View for ToplevelInfo {
    type V = InfoView;

    open spec fn view(&self) -> InfoView {
        InfoView {
            title: self.title@,
            app_id: self.app_id@,
            identifier: self.identifier@,
            outputs: self.outputs@,
            focused: self.focused,
            pending_focused: self.pending_focused,
            focused_epoch: self.focused_epoch,
        }
    }
}

pub open spec fn new_info() -> InfoView {
    InfoView {
        title: seq![],
        app_id: seq![],
        identifier: seq![],
        outputs: seq![],
        focused: false,
        pending_focused: None,
        focused_epoch: 0,
    }
}

impl ToplevelInfo {
    pub fn new() -> (r: Self)
        ensures
            r@ == new_info(),
    {
        ToplevelInfo {
            title: String::new(),
            app_id: String::new(),
            identifier: String::new(),
            outputs: Vec::new(),
            focused: false,
            pending_focused: None,
            focused_epoch: 0,
        }
    }
}

/// An event about one toplevel handle.
#[derive(Debug)]
pub enum HandleEvent {
    Title(String),
    AppId(String),
    OutputEnter(u64),
    OutputLeave(u64),
    State(Vec<u32>),
    Closed,
    Done,
}

/// The toplevel list of the outputs river knows.
pub struct RiverToplevelState {
    pub selector: Option<String>,
    pub output_order: Vec<u64>,
    pub output_names: Vec<(u64, String)>,
    pub output_globals: Vec<(u64, u32)>,
    pub output_by_global: Vec<(u64, u64)>,
    pub handles: Vec<(u64, ToplevelInfo)>,
    pub handle_order: Vec<u64>,
    pub last_sent: Vec<ToplevelEntry>,
    pub focus_epoch_seq: u64,
}

/// The info after an event (closing is handled apart), and whether it
/// changed what is shown; `seq` numbers the focus changes.
pub open spec fn info_after(i: InfoView, ev: HandleEvent, seq: u64) -> (InfoView, bool, u64) {
    match ev {
        HandleEvent::Title(t) => if i.title != t@ {
            (InfoView { title: t@, ..i }, true, seq)
        } else {
            (i, false, seq)
        },
        HandleEvent::AppId(a) => if i.app_id != a@ {
            (InfoView { app_id: a@, ..i }, true, seq)
        } else {
            (i, false, seq)
        },
        HandleEvent::OutputEnter(o) => if !i.outputs.contains(o) {
            (InfoView { outputs: i.outputs.push(o), ..i }, true, seq)
        } else {
            (i, false, seq)
        },
        HandleEvent::OutputLeave(o) => if i.outputs.contains(o) {
            (InfoView { outputs: i.outputs.filter(|x: u64| x != o), ..i }, true, seq)
        } else {
            (i, false, seq)
        },
        HandleEvent::State(vs) => {
            let f = vs@.contains(activated());
            if i.pending_focused != Some(f) {
                (InfoView { pending_focused: Some(f), ..i }, true, seq)
            } else {
                (i, false, seq)
            }
        },
        HandleEvent::Done => match i.pending_focused {
            Some(next) => if i.focused != next {
                let s2 = if next {
                    if seq == u64::MAX { seq } else { (seq + 1) as u64 }
                } else {
                    seq
                };
                (
                    InfoView {
                        focused: next,
                        pending_focused: None,
                        focused_epoch: if next { s2 } else { i.focused_epoch },
                        ..i
                    },
                    true,
                    s2,
                )
            } else {
                (InfoView { pending_focused: None, ..i }, false, seq)
            },
            None => (i, false, seq),
        },
        HandleEvent::Closed => (i, true, seq),
    }
}

pub open spec fn river_infos(m: Map<u64, ToplevelInfo>) -> Map<u64, InfoView> {
    m.map_values(|i: ToplevelInfo| i@)
}

fn copy_info(i: &ToplevelInfo) -> (r: ToplevelInfo)
    ensures
        r@ == i@,
{
    ToplevelInfo {
        title: i.title.clone(),
        app_id: i.app_id.clone(),
        identifier: i.identifier.clone(),
        outputs: i.outputs.clone(),
        focused: i.focused,
        pending_focused: i.pending_focused,
        focused_epoch: i.focused_epoch,
    }
}

fn contains_id(v: &Vec<u64>, id: u64) -> (r: bool)
    ensures
        r == v@.contains(id),
{
    let mut i: usize = 0;
    while i < v.len()
        invariant
            i <= v.len(),
            forall|j: int| 0 <= j < i ==> v@[j] != id,
        decreases v.len() - i,
    {
        if v[i] == id {
            assert(v@[i as int] == id);
            return true;
        }
        i += 1;
    }
    false
}

/// The info after an event, and whether it changed.
pub fn apply_handle_event(info: &ToplevelInfo, ev: &HandleEvent, seq: u64) -> (r: (ToplevelInfo, bool, u64))
    ensures
        (r.0@, r.1, r.2) == info_after(info@, *ev, seq),
{
    let mut next = copy_info(info);
    match ev {
        HandleEvent::Title(t) => {
            if !crate::text::str_eq(info.title.as_str(), t.as_str()) {
                next.title = t.clone();
                return (next, true, seq);
            }
            (next, false, seq)
        },
        HandleEvent::AppId(a) => {
            if !crate::text::str_eq(info.app_id.as_str(), a.as_str()) {
                next.app_id = a.clone();
                return (next, true, seq);
            }
            (next, false, seq)
        },
        HandleEvent::OutputEnter(o) => {
            if !contains_id(&info.outputs, *o) {
                next.outputs.push(*o);
                return (next, true, seq);
            }
            (next, false, seq)
        },
        HandleEvent::OutputLeave(o) => {
            if contains_id(&info.outputs, *o) {
                next.outputs = crate::toplevel_list::remove_id(&info.outputs, *o);
                return (next, true, seq);
            }
            (next, false, seq)
        },
        HandleEvent::State(vs) => {
            let f = state_contains_activated(vs.as_slice());
            if info.pending_focused != Some(f) {
                next.pending_focused = Some(f);
                return (next, true, seq);
            }
            (next, false, seq)
        },
        HandleEvent::Done => {
            match info.pending_focused {
                Some(n) => {
                    next.pending_focused = None;
                    if info.focused != n {
                        next.focused = n;
                        let s2 = if n {
                            seq.saturating_add(1)
                        } else {
                            seq
                        };
                        if n {
                            next.focused_epoch = s2;
                        }
                        return (next, true, s2);
                    }
                    (next, false, seq)
                },
                None => (next, false, seq),
            }
        },
        HandleEvent::Closed => (next, true, seq),
    }
}

impl RiverToplevelState {
    pub open spec fn well_formed(&self) -> bool {
        &&& crate::keyed::keys_unique(self.output_names@)
        &&& crate::keyed::keys_unique(self.output_globals@)
        &&& crate::keyed::keys_unique(self.output_by_global@)
        &&& crate::keyed::keys_unique(self.handles@)
    }

    pub open spec fn infos(&self) -> Map<u64, InfoView> {
        river_infos(crate::keyed::table(self.handles@))
    }

    /// Nothing known yet.
    pub fn new(selector: Option<String>) -> (r: Self)
        ensures
            r.well_formed(),
            r.selector == selector,
            r.output_order@.len() == 0,
            r.handle_order@.len() == 0,
            r.infos() == Map::<u64, InfoView>::empty(),
            r.last_sent@.len() == 0,
            r.focus_epoch_seq == 0,
    {
        let r = RiverToplevelState {
            selector,
            output_order: Vec::new(),
            output_names: Vec::new(),
            output_globals: Vec::new(),
            output_by_global: Vec::new(),
            handles: Vec::new(),
            handle_order: Vec::new(),
            last_sent: Vec::new(),
            focus_epoch_seq: 0,
        };
        assert(r.infos() =~= Map::<u64, InfoView>::empty());
        r
    }

    /// An output was bound under a global name.
    pub fn bind_output(&mut self, id: u64, global: u32)
        requires
            old(self).well_formed(),
        ensures
            final(self).well_formed(),
            final(self).output_order@ == if old(self).output_order@.contains(id) {
                old(self).output_order@
            } else {
                old(self).output_order@.push(id)
            },
            crate::keyed::table(final(self).output_globals@) == crate::keyed::table(old(self).output_globals@).insert(id, global),
            crate::keyed::table(final(self).output_by_global@) == crate::keyed::table(old(self).output_by_global@).insert(global as u64, id),
            final(self).output_names@ == old(self).output_names@,
            final(self).handles@ == old(self).handles@,
            final(self).handle_order@ == old(self).handle_order@,
    {
        if !contains_id(&self.output_order, id) {
            self.output_order.push(id);
        }
        crate::keyed::table_insert(&mut self.output_globals, id, global);
        crate::keyed::table_insert(&mut self.output_by_global, global as u64, id);
    }

    /// An output reported its name.
    pub fn output_name(&mut self, id: u64, name: String)
        requires
            old(self).well_formed(),
        ensures
            final(self).well_formed(),
            crate::keyed::table(final(self).output_names@) == crate::keyed::table(old(self).output_names@).insert(id, name),
            final(self).output_order@ == old(self).output_order@,
            final(self).handles@ == old(self).handles@,
            final(self).handle_order@ == old(self).handle_order@,
    {
        crate::keyed::table_insert(&mut self.output_names, id, name);
    }

    /// A global went away; when it was an output, the output is forgotten
    /// everywhere and the result says so.
    pub fn global_remove(&mut self, global: u32) -> (r: bool)
        requires
            old(self).well_formed(),
        ensures
            final(self).well_formed(),
            r == crate::keyed::table(old(self).output_by_global@).dom().contains(global as u64),
            !r ==> final(self).output_order@ == old(self).output_order@ && final(self).handles@ == old(self).handles@,
            r ==> {
                let id = crate::keyed::table(old(self).output_by_global@)[global as u64];
                &&& crate::keyed::table(final(self).output_by_global@) == crate::keyed::table(old(self).output_by_global@).remove(global as u64)
                &&& final(self).output_order@ == old(self).output_order@.filter(|x: u64| x != id)
                &&& crate::keyed::table(final(self).output_names@) == crate::keyed::table(old(self).output_names@).remove(id)
                &&& crate::keyed::table(final(self).output_globals@) == crate::keyed::table(old(self).output_globals@).remove(id)
                &&& final(self).infos().dom() == old(self).infos().dom()
                &&& forall|h: u64| #[trigger] final(self).infos().dom().contains(h) ==> final(self).infos()[h] == (InfoView {
                    outputs: old(self).infos()[h].outputs.filter(|x: u64| x != id),
                    ..old(self).infos()[h]
                })
            },
            final(self).handle_order@ == old(self).handle_order@,
    {
        let pos = match crate::keyed::find_key(&self.output_by_global, global as u64) {
            Some(p) => p,
            None => return false,
        };
        let id = self.output_by_global[pos].1;
        crate::keyed::table_remove(&mut self.output_by_global, global as u64);
        self.output_order = crate::toplevel_list::remove_id(&self.output_order, id);
        crate::keyed::table_remove(&mut self.output_names, id);
        crate::keyed::table_remove(&mut self.output_globals, id);
        let ghost before = self.handles@;
        let ghost obg = self.output_by_global@;
        let ghost oord = self.output_order@;
        let ghost onames = self.output_names@;
        let ghost oglob = self.output_globals@;
        let ghost horder = self.handle_order@;
        assert(id == crate::keyed::table(old(self).output_by_global@)[global as u64]);
        let mut i: usize = 0;
        while i < self.handles.len()
            invariant
                i <= self.handles.len(),
                self.output_by_global@ == obg,
                self.output_order@ == oord,
                self.output_names@ == onames,
                self.output_globals@ == oglob,
                self.handle_order@ == horder,
                crate::keyed::keys_unique(obg),
                crate::keyed::keys_unique(onames),
                crate::keyed::keys_unique(oglob),
                self.handles.len() == before.len(),
                crate::keyed::keys_unique(before),
                forall|j: int| 0 <= j < self.handles.len() ==> #[trigger] self.handles@[j].0 == before[j].0,
                forall|j: int| 0 <= j < i ==> #[trigger] self.handles@[j].1@ == (InfoView {
                    outputs: before[j].1@.outputs.filter(|x: u64| x != id),
                    ..before[j].1@
                }),
                forall|j: int| i <= j < self.handles.len() ==> #[trigger] self.handles@[j] == before[j],
            decreases self.handles.len() - i,
        {
            let key = self.handles[i].0;
            let mut info = copy_info(&self.handles[i].1);
            info.outputs = crate::toplevel_list::remove_id(&self.handles[i].1.outputs, id);
            self.handles.set(i, (key, info));
            i += 1;
        }
        proof {
            assert(crate::keyed::keys_unique(self.handles@));
            let t = crate::keyed::table(self.handles@);
            let t0 = crate::keyed::table(before);
            assert forall|h: u64| #[trigger] crate::keyed::has_key(self.handles@, h) == crate::keyed::has_key(before, h) by {
                if crate::keyed::has_key(before, h) {
                    let j = choose|j: int| 0 <= j < before.len() && #[trigger] before[j].0 == h;
                    assert(self.handles@[j].0 == h);
                }
                if crate::keyed::has_key(self.handles@, h) {
                    let j = choose|j: int| 0 <= j < self.handles@.len() && #[trigger] self.handles@[j].0 == h;
                    assert(before[j].0 == h);
                }
            }
            assert(self.infos().dom() =~= old(self).infos().dom());
            assert forall|h: u64| #[trigger] self.infos().dom().contains(h) implies self.infos()[h] == (InfoView {
                outputs: old(self).infos()[h].outputs.filter(|x: u64| x != id),
                ..old(self).infos()[h]
            }) by {
                let j = crate::keyed::key_pos(self.handles@, h);
                crate::keyed::lemma_table_at(self.handles@, j);
                crate::keyed::lemma_table_at(before, j);
            }
        }
        true
    }

    /// A toplevel appeared: it joins the order once.
    pub fn toplevel(&mut self, id: u64)
        requires
            old(self).well_formed(),
        ensures
            final(self).well_formed(),
            old(self).infos().dom().contains(id) ==> final(self).handle_order@ == old(self).handle_order@
                && final(self).infos() == old(self).infos(),
            !old(self).infos().dom().contains(id) ==> final(self).handle_order@ == old(self).handle_order@.push(id)
                && final(self).infos() == old(self).infos().insert(id, new_info()),
            final(self).output_order@ == old(self).output_order@,
            final(self).output_names@ == old(self).output_names@,
    {
        match crate::keyed::find_key(&self.handles, id) {
            Some(_) => {},
            None => {
                self.handle_order.push(id);
                let ghost before = self.handles@;
                let info = ToplevelInfo::new();
                proof {
                    crate::keyed::lemma_table_push(before, id, info);
                }
                self.handles.push((id, info));
                assert(self.infos() =~= old(self).infos().insert(id, new_info()));
            },
        }
    }

    /// A toplevel reported an event; the result says whether what is shown
    /// may have changed. Closing forgets the toplevel.
    pub fn handle_event(&mut self, id: u64, ev: HandleEvent) -> (r: bool)
        requires
            old(self).well_formed(),
        ensures
            final(self).well_formed(),
            final(self).output_order@ == old(self).output_order@,
            final(self).output_names@ == old(self).output_names@,
            ev is Closed ==> r && final(self).infos() == old(self).infos().remove(id) && final(self).handle_order@
                == old(self).handle_order@.filter(|x: u64| x != id) && final(self).focus_epoch_seq == old(self).focus_epoch_seq,
            !(ev is Closed) ==> {
                let base = if old(self).infos().dom().contains(id) { old(self).infos()[id] } else { new_info() };
                let (next, changed, seq) = info_after(base, ev, old(self).focus_epoch_seq);
                &&& r == changed
                &&& final(self).infos() == old(self).infos().insert(id, next)
                &&& final(self).focus_epoch_seq == seq
                &&& final(self).handle_order@ == old(self).handle_order@
            },
    {
        let pos = match crate::keyed::find_key(&self.handles, id) {
            Some(i) => i,
            None => {
                let ghost before = self.handles@;
                let info = ToplevelInfo::new();
                proof {
                    crate::keyed::lemma_table_push(before, id, info);
                }
                self.handles.push((id, info));
                self.handles.len() - 1
            },
        };
        let ghost mid = self.handles@;
        assert(mid[pos as int].0 == id);
        proof {
            crate::keyed::lemma_table_at(mid, pos as int);
        }
        if let HandleEvent::Closed = ev {
            proof {
                crate::keyed::lemma_table_remove(mid, pos as int);
            }
            self.handles.remove(pos);
            self.handle_order = crate::toplevel_list::remove_id(&self.handle_order, id);
            assert(self.infos() =~= old(self).infos().remove(id));
            return true;
        }
        let (next, changed, seq) = apply_handle_event(&self.handles[pos].1, &ev, self.focus_epoch_seq);
        proof {
            crate::keyed::lemma_table_update(mid, pos as int, next);
        }
        self.handles.set(pos, (id, next));
        self.focus_epoch_seq = seq;
        proof {
            let base = if old(self).infos().dom().contains(id) { old(self).infos()[id] } else { new_info() };
            assert(mid[pos as int].1@ == base);
            assert(self.infos() =~= old(self).infos().insert(id, info_after(base, ev, old(self).focus_epoch_seq).0));
        }
        changed
    }
}

// ---------------------------------------------------------------------------
// The published list.
pub open spec fn named_fold(target: Seq<char>) -> spec_fn((u64, String)) -> bool {
    |p: (u64, String)| eq_fold(p.1@, target)
}

pub open spec fn named_lower(target: Seq<char>) -> spec_fn((u64, String)) -> bool {
    |p: (u64, String)| lower_seq(p.1@) == target
}

pub open spec fn named_containing(target: Seq<char>) -> spec_fn((u64, String)) -> bool {
    |p: (u64, String)| contains(lower_seq(p.1@), target)
}

pub open spec fn global_named(g: u64) -> spec_fn((u64, u32)) -> bool {
    |p: (u64, u32)| p.1 as u64 == g
}

/// The id of the first pair that matches.
pub open spec fn id_found<V>(s: Seq<(u64, V)>, p: spec_fn((u64, V)) -> bool) -> Option<u64> {
    match crate::seqs::first_match(s, p) {
        Some(i) => Some(s[i].0),
        None => None,
    }
}

/// The output the selector designates (the focused one by default): for a
/// blank selector or "focused" the output named like the focused one; for a
/// number the output at that index, or with that global name; otherwise the
/// output whose lower-cased name equals, else contains, the lower-cased
/// selector.
pub open spec fn selected_output_id(
    sel: Option<Seq<char>>,
    focused: Option<Seq<char>>,
    order: Seq<u64>,
    names: Seq<(u64, String)>,
    globals: Seq<(u64, u32)>,
) -> Option<u64> {
    let s = trim(
        match sel {
            Some(x) => x,
            None => "focused"@,
        },
    );
    if s.len() == 0 || eq_fold(s, "focused"@) {
        match focused {
            None => None,
            Some(f) => id_found(names, named_fold(f)),
        }
    } else {
        match parse_unsigned(s, usize::MAX as nat) {
            Some(ix) => if ix < order.len() {
                Some(order[ix as int])
            } else {
                None
            },
            None => match parse_unsigned(s, u32::MAX as nat) {
                Some(g) => id_found(globals, global_named(g as u64)),
                None => match id_found(names, named_lower(lower_seq(s))) {
                    Some(i) => Some(i),
                    None => id_found(names, named_containing(lower_seq(s))),
                },
            },
        }
    }
}

fn find_name(names: &Vec<(u64, String)>, target: &str, mode: u8) -> (r: Option<u64>)
    ensures
        mode == 0 ==> r == id_found(names@, named_fold(target@)),
        mode == 1 ==> r == id_found(names@, named_lower(target@)),
        mode >= 2 ==> r == id_found(names@, named_containing(target@)),
{
    let ghost p = if mode == 0 {
        named_fold(target@)
    } else if mode == 1 {
        named_lower(target@)
    } else {
        named_containing(target@)
    };
    let mut i: usize = 0;
    while i < names.len()
        invariant
            i <= names.len(),
            p == if mode == 0 {
                named_fold(target@)
            } else if mode == 1 {
                named_lower(target@)
            } else {
                named_containing(target@)
            },
            forall|j: int| 0 <= j < i ==> !p(#[trigger] names@[j]),
        decreases names.len() - i,
    {
        let n = names[i].1.as_str();
        let hit = if mode == 0 {
            eq_ignore_ascii_case(n, target)
        } else if mode == 1 {
            crate::selector::selector_name_eq(n, target)
        } else {
            crate::selector::selector_name_contains(n, target)
        };
        if hit {
            proof {
                crate::seqs::lemma_first_match_some(names@, p, i as int);
            }
            return Some(names[i].0);
        }
        i += 1;
    }
    proof {
        crate::seqs::lemma_first_match_none(names@, p);
    }
    None
}

fn find_global(globals: &Vec<(u64, u32)>, g: u32) -> (r: Option<u64>)
    ensures
        r == id_found(globals@, global_named(g as u64)),
{
    let ghost p = global_named(g as u64);
    let mut i: usize = 0;
    while i < globals.len()
        invariant
            i <= globals.len(),
            p == global_named(g as u64),
            forall|j: int| 0 <= j < i ==> !p(#[trigger] globals@[j]),
        decreases globals.len() - i,
    {
        if globals[i].1 == g {
            proof {
                crate::seqs::lemma_first_match_some(globals@, p, i as int);
            }
            return Some(globals[i].0);
        }
        i += 1;
    }
    proof {
        crate::seqs::lemma_first_match_none(globals@, p);
    }
    None
}

/// One toplevel's entry for the list, with the focus epoch that breaks ties
/// between focused entries: none when it is not on the selected output or
/// has neither title nor application id.
pub open spec fn river_entry(i: InfoView, sel: Option<u64>) -> Option<(EntryView, u64)> {
    if sel matches Some(o) && !i.outputs.contains(o) {
        None
    } else if trim(i.title).len() == 0 && trim(i.app_id).len() == 0 {
        None
    } else {
        Some(
            (
                EntryView {
                    title: trim(i.title),
                    app_id: trim(i.app_id),
                    identifier: trim(i.identifier),
                    workspace_id: None,
                    workspace_mask: 0,
                    focused: i.focused,
                },
                if i.focused { i.focused_epoch } else { 0 },
            ),
        )
    }
}

/// The entries of the toplevels in order, with their epochs.
pub open spec fn river_entries(order: Seq<u64>, m: Map<u64, InfoView>, sel: Option<u64>) -> Seq<(EntryView, u64)>
    decreases order.len(),
{
    if order.len() == 0 {
        seq![]
    } else {
        river_entries(order.drop_last(), m, sel) + if m.dom().contains(order.last()) {
            match river_entry(m[order.last()], sel) {
                Some(e) => seq![e],
                None => seq![],
            }
        } else {
            seq![]
        }
    }
}

/// The index of the last largest value.
pub open spec fn last_max(s: Seq<u64>) -> int
    decreases s.len(),
{
    if s.len() <= 1 {
        0
    } else {
        let k = last_max(s.drop_last());
        if s.last() >= s[k] {
            s.len() - 1
        } else {
            k
        }
    }
}

pub open spec fn focused_count(es: Seq<(EntryView, u64)>) -> nat
    decreases es.len(),
{
    if es.len() == 0 {
        0
    } else {
        focused_count(es.drop_last()) + if es.last().0.focused { 1nat } else { 0nat }
    }
}

/// The list to publish: when several entries claim focus, only the most
/// recently focused one (the last of the latest) keeps it.
pub open spec fn published(es: Seq<(EntryView, u64)>) -> Seq<EntryView> {
    let keep = last_max(es.map_values(|e: (EntryView, u64)| e.1));
    Seq::new(
        es.len(),
        |i: int|
            if focused_count(es) > 1 && i != keep {
                EntryView { focused: false, ..es[i].0 }
            } else {
                es[i].0
            },
    )
}

proof fn lemma_last_max_bounds(s: Seq<u64>)
    requires
        s.len() > 0,
    ensures
        0 <= last_max(s) < s.len(),
    decreases s.len(),
{
    if s.len() > 1 {
        lemma_last_max_bounds(s.drop_last());
    }
}

impl RiverToplevelState {
    /// The id of the output the selector designates, given the name of the
    /// focused output.
    pub fn resolve_selected_output_id(&self, focused_output: Option<&str>) -> (r: Option<u64>)
        ensures
            r == selected_output_id(
                match self.selector {
                    Some(x) => Some(x@),
                    None => None,
                },
                opt_view(focused_output),
                self.output_order@,
                self.output_names@,
                self.output_globals@,
            ),
    {
        let raw = match &self.selector {
            Some(x) => x.as_str(),
            None => "focused",
        };
        let s = trim_str(raw);
        if s.as_str().is_empty() || eq_ignore_ascii_case(s.as_str(), "focused") {
            return match focused_output {
                None => None,
                Some(f) => find_name(&self.output_names, f, 0),
            };
        }
        if let Some(ix) = parse_usize(s.as_str()) {
            if ix < self.output_order.len() {
                return Some(self.output_order[ix]);
            }
            return None;
        }
        if let Some(g) = parse_u32(s.as_str()) {
            return find_global(&self.output_globals, g);
        }
        let target = to_ascii_lowercase(s.as_str());
        match find_name(&self.output_names, target.as_str(), 1) {
            Some(i) => Some(i),
            None => find_name(&self.output_names, target.as_str(), 2),
        }
    }

    /// The list to publish, given the name of the focused output.
    pub fn filtered_snapshot(&self, focused_output: Option<&str>) -> (r: Vec<ToplevelEntry>)
        requires
            self.well_formed(),
        ensures
            entries_view(r@) == published(
                river_entries(
                    self.handle_order@,
                    self.infos(),
                    selected_output_id(
                        match self.selector {
                            Some(x) => Some(x@),
                            None => None,
                        },
                        opt_view(focused_output),
                        self.output_order@,
                        self.output_names@,
                        self.output_globals@,
                    ),
                ),
            ),
    {
        let selected = self.resolve_selected_output_id(focused_output);
        let ghost m = self.infos();
        let mut out: Vec<ToplevelEntry> = Vec::new();
        let mut epochs: Vec<u64> = Vec::new();
        let mut count: usize = 0;
        let mut i: usize = 0;
        let ghost target = river_entries(self.handle_order@, m, selected);
        while i < self.handle_order.len()
            invariant
                i <= self.handle_order.len(),
                self.well_formed(),
                m == self.infos(),
                out.len() == epochs.len(),
                count <= out.len(),
                count <= i,
                river_entries(self.handle_order@.take(i as int), m, selected).len() == out.len(),
                forall|j: int| 0 <= j < out.len() ==> #[trigger] out@[j]@ == river_entries(self.handle_order@.take(i as int), m, selected)[j].0,
                forall|j: int| 0 <= j < out.len() ==> #[trigger] epochs@[j] == river_entries(self.handle_order@.take(i as int), m, selected)[j].1,
                count == focused_count(river_entries(self.handle_order@.take(i as int), m, selected)),
            decreases self.handle_order.len() - i,
        {
            let ghost es0 = river_entries(self.handle_order@.take(i as int), m, selected);
            proof {
                assert(self.handle_order@.take(i + 1).drop_last() =~= self.handle_order@.take(i as int));
            }
            let id = self.handle_order[i];
            let ghost es1 = river_entries(self.handle_order@.take(i + 1), m, selected);
            assert(es1 == es0 + if m.dom().contains(id) {
                match river_entry(m[id], selected) {
                    Some(e) => seq![e],
                    None => Seq::<(EntryView, u64)>::empty(),
                }
            } else {
                Seq::<(EntryView, u64)>::empty()
            });
            if let Some(k) = crate::keyed::find_key(&self.handles, id) {
                assert(m[id] == self.handles@[k as int].1@);
                let info = &self.handles[k].1;
                let on_output = match selected {
                    Some(o) => contains_id(&info.outputs, o),
                    None => true,
                };
                if on_output {
                    let title = trim_str(info.title.as_str());
                    let app_id = trim_str(info.app_id.as_str());
                    if !(title.as_str().is_empty() && app_id.as_str().is_empty()) {
                        let identifier = trim_str(info.identifier.as_str());
                        out.push(ToplevelEntry {
                            title,
                            app_id,
                            identifier,
                            workspace_id: None,
                            workspace_mask: 0,
                            focused: info.focused,
                        });
                        epochs.push(if info.focused {
                            info.focused_epoch
                        } else {
                            0
                        });
                        if info.focused {
                            count = count + 1;
                        }
                        proof {
                            assert(river_entry(m[id], selected) == Some((out@[out.len() - 1]@, epochs@[epochs.len() - 1])));
                            assert(es1 =~= es0.push(river_entry(m[id], selected)->0));
                            assert(es1.drop_last() =~= es0);
                        }
                    } else {
                        assert(es1 =~= es0);
                    }
                } else {
                    assert(es1 =~= es0);
                }
            } else {
                assert(es1 =~= es0);
            }
            i += 1;
        }
        proof {
            assert(self.handle_order@.take(self.handle_order.len() as int) =~= self.handle_order@);
            assert(out.len() == target.len());
            assert forall|q: int| 0 <= q < out.len() implies #[trigger] out@[q]@ == target[q].0 && epochs@[q] == target[q].1 by {}
        }
        if count > 1 && out.len() > 0 {
            let mut keep: usize = 0;
            let mut j: usize = 1;
            let ghost ep = target.map_values(|e: (EntryView, u64)| e.1);
            assert(ep.take(1).len() == 1);
            assert forall|q: int| 0 <= q < epochs.len() implies #[trigger] epochs@[q] == ep[q] by {
                assert(out@[q]@ == target[q].0);
                assert(ep[q] == target[q].1);
            }
            while j < epochs.len()
                invariant
                    1 <= j <= epochs.len(),
                    epochs.len() == target.len(),
                    forall|q: int| 0 <= q < epochs.len() ==> #[trigger] epochs@[q] == ep[q],
                    ep.len() == epochs.len(),
                    keep == last_max(ep.take(j as int)),
                    keep < j,
                decreases epochs.len() - j,
            {
                proof {
                    assert(ep.take(j + 1).drop_last() =~= ep.take(j as int));
                    assert(ep.take(j + 1).last() == epochs@[j as int]);
                    assert(ep.take(j + 1)[keep as int] == ep[keep as int]);
                }
                if epochs[j] >= epochs[keep] {
                    keep = j;
                }
                j += 1;
            }
            proof {
                assert(ep.take(epochs.len() as int) =~= ep);
            }
            let mut k: usize = 0;
            while k < out.len()
                invariant
                    k <= out.len(),
                    out.len() == target.len(),
                    keep == last_max(ep),
                    ep == target.map_values(|e: (EntryView, u64)| e.1),
                    focused_count(target) > 1,
                    forall|q: int| 0 <= q < k ==> #[trigger] out@[q]@ == published(target)[q],
                    forall|q: int| k <= q < out.len() ==> #[trigger] out@[q]@ == target[q].0,
                decreases out.len() - k,
            {
                if k != keep {
                    let mut e = out[k].copy();
                    e.focused = false;
                    out.set(k, e);
                }
                k += 1;
            }
        } else {
            proof {
                assert forall|q: int| 0 <= q < out.len() implies #[trigger] out@[q]@ == published(target)[q] by {}
            }
        }
        assert(entries_view(out@) =~= published(target));
        out
    }

    /// The list to publish when it differs from the last one published.
    pub fn emit_if_changed(&mut self, focused_output: Option<&str>) -> (r: Option<Vec<ToplevelEntry>>)
        requires
            old(self).well_formed(),
        ensures
            final(self).well_formed(),
            final(self).handles@ == old(self).handles@,
            final(self).handle_order@ == old(self).handle_order@,
            final(self).output_order@ == old(self).output_order@,
            final(self).output_names@ == old(self).output_names@,
            final(self).output_globals@ == old(self).output_globals@,
            final(self).selector == old(self).selector,
            ({
                let next = published(
                    river_entries(
                        old(self).handle_order@,
                        old(self).infos(),
                        selected_output_id(
                            match old(self).selector {
                                Some(x) => Some(x@),
                                None => None,
                            },
                            opt_view(focused_output),
                            old(self).output_order@,
                            old(self).output_names@,
                            old(self).output_globals@,
                        ),
                    ),
                );
                &&& entries_view(final(self).last_sent@) == next
                &&& (r is None <==> next == entries_view(old(self).last_sent@))
                &&& (r matches Some(v) ==> entries_view(v@) == next)
            }),
    {
        let next = self.filtered_snapshot(focused_output);
        let same = entries_equal_list(&next, &self.last_sent);
        if same {
            return None;
        }
        let copy = copy_entries(&next);
        self.last_sent = next;
        Some(copy)
    }
}

fn copy_entries(v: &Vec<ToplevelEntry>) -> (r: Vec<ToplevelEntry>)
    ensures
        entries_view(r@) == entries_view(v@),
{
    let mut out: Vec<ToplevelEntry> = Vec::new();
    let mut i: usize = 0;
    while i < v.len()
        invariant
            i <= v.len(),
            entries_view(out@) == entries_view(v@.take(i as int)),
        decreases v.len() - i,
    {
        let ghost before = entries_view(out@);
        let e = v[i].copy();
        out.push(e);
        assert(entries_view(out@) =~= before.push(v@[i as int]@));
        assert(v@.take(i + 1) =~= v@.take(i as int).push(v@[i as int]));
        assert(entries_view(out@) =~= entries_view(v@.take(i + 1)));
        i += 1;
    }
    assert(v@.take(v.len() as int) =~= v@);
    out
}

fn entries_equal_list(a: &Vec<ToplevelEntry>, b: &Vec<ToplevelEntry>) -> (r: bool)
    ensures
        r == (entries_view(a@) == entries_view(b@)),
{
    let sa = crate::compositor::CompositorStateSnapshot {
        workspace: CompositorSnapshot {
            focused_mask: 0,
            occupied_mask: 0,
            urgent_mask: 0,
            focused_window: FocusedWindowSnapshot::empty(),
        },
        toplevels: copy_entries(a),
    };
    let sb = crate::compositor::CompositorStateSnapshot {
        workspace: CompositorSnapshot {
            focused_mask: 0,
            occupied_mask: 0,
            urgent_mask: 0,
            focused_window: FocusedWindowSnapshot::empty(),
        },
        toplevels: copy_entries(b),
    };
    crate::compositor::same_state(&sa, &sb)
}

proof fn lemma_two_focused(es: Seq<(EntryView, u64)>, i: int, j: int)
    requires
        0 <= i < j < es.len(),
        es[i].0.focused,
        es[j].0.focused,
    ensures
        focused_count(es) >= 2,
    decreases es.len(),
{
    if j < es.len() - 1 {
        lemma_two_focused(es.drop_last(), i, j);
    } else {
        lemma_one_focused(es.drop_last(), i);
    }
}

proof fn lemma_one_focused(es: Seq<(EntryView, u64)>, i: int)
    requires
        0 <= i < es.len(),
        es[i].0.focused,
    ensures
        focused_count(es) >= 1,
    decreases es.len(),
{
    if i < es.len() - 1 {
        lemma_one_focused(es.drop_last(), i);
    }
}

/// The published list has at most one focused entry.
pub proof fn law_published_single_focus(es: Seq<(EntryView, u64)>)
    ensures
        forall|i: int, j: int|
            0 <= i < j < es.len() && #[trigger] published(es)[i].focused ==> !#[trigger] published(es)[j].focused,
{
    assert forall|i: int, j: int|
        0 <= i < j < es.len() && #[trigger] published(es)[i].focused implies !#[trigger] published(es)[j].focused by {
        if published(es)[j].focused && focused_count(es) <= 1 {
            lemma_two_focused(es, i, j);
        }
    }
}

} // verus!
