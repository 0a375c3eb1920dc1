//! The compositor data provider: the values it publishes for a state.
use vstd::prelude::*;

use crate::compositor::{
    entries_view, entry_focused, first_set_bit, lowest_workspace, CompositorStateSnapshot, EntryView,
    ToplevelEntry,
};
use crate::network::{pairs_view, push_pair_text};
use crate::seqs::{first_match, lemma_first_match_none, lemma_first_match_some};
use crate::text::{decimal, eq_fold, eq_ignore_ascii_case, is_blank, owned, trim, trim_str, u64_to_string};

verus! {

/// The application ids that toplevels titled like the focused window
/// carry: none yet, one (up to ASCII case), or a conflict.
pub open spec fn title_apps(es: Seq<EntryView>, t: Seq<char>) -> (Option<Seq<char>>, bool)
    decreases es.len(),
{
    if es.len() == 0 {
        (None, false)
    } else {
        let prev = title_apps(es.drop_last(), t);
        let e = es.last();
        if prev.1 || !eq_fold(trim(e.title), t) || trim(e.app_id).len() == 0 {
            prev
        } else {
            match prev.0 {
                None => (Some(trim(e.app_id)), false),
                Some(x) => if eq_fold(x, trim(e.app_id)) {
                    prev
                } else {
                    (None, true)
                },
            }
        }
    }
}

/// The application id of the toplevels whose title matches the focused
/// title, when they agree on one.
pub open spec fn app_for_title(title: Seq<char>, es: Seq<EntryView>) -> Option<Seq<char>> {
    if trim(title).len() == 0 {
        None
    } else {
        let r = title_apps(es, trim(title));
        if r.1 {
            None
        } else {
            r.0
        }
    }
}

/// The application id for a focused title.
pub fn app_id_for_focused_title(title: &str, toplevels: &Vec<ToplevelEntry>) -> (r: Option<String>)
    ensures
        crate::hyprland::opt_string(r) == app_for_title(title@, entries_view(toplevels@)),
{
    let t = trim_str(title);
    if t.as_str().is_empty() {
        return None;
    }
    let ghost es = entries_view(toplevels@);
    let mut unique: Option<String> = None;
    let mut i: usize = 0;
    while i < toplevels.len()
        invariant
            i <= toplevels.len(),
            es == entries_view(toplevels@),
            t@ == trim(title@),
            title_apps(es.take(i as int), t@) == (crate::hyprland::opt_string(unique), false),
        decreases toplevels.len() - i,
    {
        proof {
            assert(es.take(i + 1).drop_last() =~= es.take(i as int));
            assert(es.take(i + 1).last() == toplevels@[i as int]@);
        }
        let et = trim_str(toplevels[i].title.as_str());
        let ea = trim_str(toplevels[i].app_id.as_str());
        if eq_ignore_ascii_case(et.as_str(), t.as_str()) && !ea.as_str().is_empty() {
            match &unique {
                None => {
                    unique = Some(ea);
                },
                Some(existing) => {
                    if !eq_ignore_ascii_case(existing.as_str(), ea.as_str()) {
                        proof {
                            lemma_conflict_stays(es, t@, i + 1);
                        }
                        return None;
                    }
                },
            }
        }
        i += 1;
    }
    assert(es.take(toplevels.len() as int) =~= es);
    unique
}

proof fn lemma_conflict_stays(es: Seq<EntryView>, t: Seq<char>, k: int)
    requires
        0 <= k <= es.len(),
        title_apps(es.take(k), t).1,
    ensures
        title_apps(es, t).1,
    decreases es.len() - k,
{
    if k < es.len() {
        assert(es.take(k + 1).drop_last() =~= es.take(k));
        lemma_conflict_stays(es, t, k + 1);
    } else {
        assert(es.take(k) =~= es);
    }
}

/// The title and application id the provider reports as focused: those of
/// the first focused toplevel (trimmed); without toplevels, those of the
/// workspace source (an empty application id looked up by title); with
/// toplevels of which none is focused, empty.
pub open spec fn focused_texts(s: CompositorStateSnapshot) -> (Seq<char>, Seq<char>) {
    let es = entries_view(s.toplevels@);
    match first_match(es, entry_focused()) {
        Some(i) => (trim(es[i].title), trim(es[i].app_id)),
        None => if es.len() == 0 {
            let title = s.workspace.focused_window@.title;
            (
                title,
                if trim(s.workspace.focused_window@.app_id).len() == 0 {
                    match app_for_title(title, es) {
                        Some(a) => a,
                        None => seq![],
                    }
                } else {
                    s.workspace.focused_window@.app_id
                },
            )
        } else {
            (seq![], seq![])
        },
    }
}

/// The keys and values published for a state, in order.
pub open spec fn compositor_pairs(name: Seq<char>, s: CompositorStateSnapshot) -> Seq<(Seq<char>, Seq<char>)> {
    let w = s.workspace;
    let fw = decimal(lowest_workspace(w.focused_mask) as nat);
    let (title, app) = focused_texts(s);
    seq![
        ("data.compositor.name"@, name),
        ("data.compositor.focused_mask"@, decimal(w.focused_mask as nat)),
        ("data.compositor.occupied_mask"@, decimal(w.occupied_mask as nat)),
        ("data.compositor.urgent_mask"@, decimal(w.urgent_mask as nat)),
        ("data.compositor.focused_workspace"@, fw),
        ("data.compositor.focused_window.workspace"@, fw),
        ("data.compositor.focused_window.title"@, title),
        ("data.compositor.focused_window.app_id"@, app),
        ("data.compositor.summary"@, "focused="@ + decimal(w.focused_mask as nat) + " occupied="@ + decimal(
            w.occupied_mask as nat,
        ) + " urgent="@ + decimal(w.urgent_mask as nat)),
    ]
}

/// The published focused workspace (and the focused window's workspace) is
/// the number, counted from one, of the lowest bit set in the focused mask,
/// and zero when no bit is set; the occupied and urgent masks play no part.
pub proof fn law_published_focused_workspace(name: Seq<char>, s: CompositorStateSnapshot, n: u32)
    requires
        (n == 0 && s.workspace.focused_mask == 0) || (1 <= n <= 32 && (s.workspace.focused_mask >> ((n
            - 1) as u32)) & 1u32 == 1u32 && forall|j: u32|
            j < n - 1 ==> #[trigger] ((s.workspace.focused_mask >> j) & 1u32) == 0u32),
    ensures
        compositor_pairs(name, s)[4] == ("data.compositor.focused_workspace"@, decimal(n as nat)),
        compositor_pairs(name, s)[5] == ("data.compositor.focused_window.workspace"@, decimal(n as nat)),
{
    broadcast use vstd::std_specs::bits::axiom_u32_trailing_zeros;

    let m = s.workspace.focused_mask;
    if n != 0 {
        let k = (n - 1) as u32;
        let t = m.trailing_zeros();
        if m == 0 {
            assert((m >> k) & 1u32 == 0u32);
        }
        assert(t < 32);
        if t < k {
            assert((m >> t) & 1u32 == 0u32);
        }
        if t > k {
            assert((m >> k) & 1u32 == 0u32);
        }
        assert(lowest_workspace(m) == n);
    }
}

fn focused_strings(s: &CompositorStateSnapshot) -> (r: (String, String))
    ensures
        (r.0@, r.1@) == focused_texts(*s),
{
    let ghost es = entries_view(s.toplevels@);
    let mut i: usize = 0;
    while i < s.toplevels.len()
        invariant
            i <= s.toplevels.len(),
            es == entries_view(s.toplevels@),
            forall|j: int| 0 <= j < i ==> !(entry_focused())(#[trigger] es[j]),
        decreases s.toplevels.len() - i,
    {
        if s.toplevels[i].focused {
            proof {
                lemma_first_match_some(es, entry_focused(), i as int);
            }
            return (trim_str(s.toplevels[i].title.as_str()), trim_str(s.toplevels[i].app_id.as_str()));
        }
        i += 1;
    }
    proof {
        lemma_first_match_none(es, entry_focused());
    }
    if s.toplevels.len() == 0 {
        let title = s.workspace.focused_window.title.clone();
        let app = if is_blank(s.workspace.focused_window.app_id.as_str()) {
            match app_id_for_focused_title(title.as_str(), &s.toplevels) {
                Some(a) => a,
                None => String::new(),
            }
        } else {
            s.workspace.focused_window.app_id.clone()
        };
        (title, app)
    } else {
        (String::new(), String::new())
    }
}

/// The keys and values published for a state.
pub fn apply_snapshot(name: &str, s: &CompositorStateSnapshot) -> (r: Vec<(String, String)>)
    ensures
        pairs_view(r@) == compositor_pairs(name@, *s),
{
    let w = &s.workspace;
    let fw = u64_to_string(first_set_bit(w.focused_mask) as u64);
    let (title, app) = focused_strings(s);
    let focused = u64_to_string(w.focused_mask as u64);
    let occupied = u64_to_string(w.occupied_mask as u64);
    let urgent = u64_to_string(w.urgent_mask as u64);
    let mut summary = String::from_str("focused=");
    summary.append(focused.as_str());
    summary.append(" occupied=");
    summary.append(occupied.as_str());
    summary.append(" urgent=");
    summary.append(urgent.as_str());
    let mut v: Vec<(String, String)> = Vec::new();
    assert(pairs_view(v@) =~= seq![]);
    push_pair_text(&mut v, "data.compositor.name", name);
    push_pair_text(&mut v, "data.compositor.focused_mask", focused.as_str());
    push_pair_text(&mut v, "data.compositor.occupied_mask", occupied.as_str());
    push_pair_text(&mut v, "data.compositor.urgent_mask", urgent.as_str());
    push_pair_text(&mut v, "data.compositor.focused_workspace", fw.as_str());
    push_pair_text(&mut v, "data.compositor.focused_window.workspace", fw.as_str());
    push_pair_text(&mut v, "data.compositor.focused_window.title", title.as_str());
    push_pair_text(&mut v, "data.compositor.focused_window.app_id", app.as_str());
    push_pair_text(&mut v, "data.compositor.summary", summary.as_str());
    assert(pairs_view(v@) =~= compositor_pairs(name@, *s));
    v
}

/// The keys and values published before any state arrives.
pub open spec fn initial_compositor_pairs(name: Seq<char>) -> Seq<(Seq<char>, Seq<char>)> {
    seq![
        ("data.compositor.name"@, name),
        ("data.compositor.focused_mask"@, "0"@),
        ("data.compositor.occupied_mask"@, "0"@),
        ("data.compositor.urgent_mask"@, "0"@),
        ("data.compositor.focused_workspace"@, "0"@),
        ("data.compositor.summary"@, "focused=0 occupied=0 urgent=0"@),
        ("data.compositor.focused_window.title"@, seq![]),
        ("data.compositor.focused_window.app_id"@, seq![]),
        ("data.compositor.focused_window.workspace"@, "0"@),
    ]
}

/// The keys and values published before any state arrives.
pub fn initial_pairs(name: &str) -> (r: Vec<(String, String)>)
    ensures
        pairs_view(r@) == initial_compositor_pairs(name@),
{
    let mut v: Vec<(String, String)> = Vec::new();
    assert(pairs_view(v@) =~= seq![]);
    push_pair_text(&mut v, "data.compositor.name", name);
    push_pair_text(&mut v, "data.compositor.focused_mask", "0");
    push_pair_text(&mut v, "data.compositor.occupied_mask", "0");
    push_pair_text(&mut v, "data.compositor.urgent_mask", "0");
    push_pair_text(&mut v, "data.compositor.focused_workspace", "0");
    push_pair_text(&mut v, "data.compositor.summary", "focused=0 occupied=0 urgent=0");
    proof {
        reveal_strlit("");
    }
    assert(""@ =~= Seq::<char>::empty());
    push_pair_text(&mut v, "data.compositor.focused_window.title", "");
    push_pair_text(&mut v, "data.compositor.focused_window.app_id", "");
    push_pair_text(&mut v, "data.compositor.focused_window.workspace", "0");
    assert(pairs_view(v@) =~= initial_compositor_pairs(name@));
    v
}

} // verus!
