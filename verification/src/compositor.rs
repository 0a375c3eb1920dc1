//! What the bar knows of the compositor: workspace bit masks, the focused
//! window and the list of toplevel windows, and how a merged state is made
//! consistent (exactly one focused entry, or none).
use vstd::prelude::*;

use crate::seqs::{
    first_match, is_first, lemma_first_match_exists, lemma_first_match_none, lemma_first_match_some,
    lemma_only_match_none_two,
    lemma_only_match_some, only_match,
};
use crate::text::{eq_fold, eq_ignore_ascii_case, is_blank, str_eq, trim, trim_str};

verus! {

broadcast use vstd::std_specs::bits::axiom_u32_trailing_zeros;

/// The window that has keyboard focus, as the workspace source reports it.
#[derive(Debug)]
pub struct FocusedWindowSnapshot {
    pub title: String,
    pub app_id: String,
    pub identifier: String,
}

/// Workspaces as bit masks (bit `n - 1` stands for workspace `n`).
#[derive(Debug)]
pub struct CompositorSnapshot {
    pub focused_mask: u32,
    pub occupied_mask: u32,
    pub urgent_mask: u32,
    pub focused_window: FocusedWindowSnapshot,
}

/// One toplevel window.
#[derive(Debug)]
pub struct ToplevelEntry {
    pub title: String,
    pub app_id: String,
    pub identifier: String,
    pub workspace_id: Option<u32>,
    pub workspace_mask: u32,
    pub focused: bool,
}

/// Workspaces together with the toplevel windows.
#[derive(Debug)]
pub struct CompositorStateSnapshot {
    pub workspace: CompositorSnapshot,
    pub toplevels: Vec<ToplevelEntry>,
}

/// Plain view of a focused window.
pub struct FocusedView {
    pub title: Seq<char>,
    pub app_id: Seq<char>,
    pub identifier: Seq<char>,
}

/// Plain view of a toplevel entry.
pub struct EntryView {
    pub title: Seq<char>,
    pub app_id: Seq<char>,
    pub identifier: Seq<char>,
    pub workspace_id: Option<u32>,
    pub workspace_mask: u32,
    pub focused: bool,
}

impl View for FocusedWindowSnapshot {
    type V = FocusedView;

    open spec fn view(&self) -> FocusedView {
        FocusedView { title: self.title@, app_id: self.app_id@, identifier: self.identifier@ }
    }
}

impl View for ToplevelEntry {
    type V = EntryView;

    open spec fn view(&self) -> EntryView {
        EntryView {
            title: self.title@,
            app_id: self.app_id@,
            identifier: self.identifier@,
            workspace_id: self.workspace_id,
            workspace_mask: self.workspace_mask,
            focused: self.focused,
        }
    }
}

pub open spec fn entries_view(es: Seq<ToplevelEntry>) -> Seq<EntryView> {
    es.map_values(|e: ToplevelEntry| e@)
}

impl FocusedWindowSnapshot {
    /// A focused window with empty title, app id and identifier.
    pub fn empty() -> (r: Self)
        ensures
            r@.title == Seq::<char>::empty(),
            r@.app_id == Seq::<char>::empty(),
            r@.identifier == Seq::<char>::empty(),
    {
        FocusedWindowSnapshot { title: String::new(), app_id: String::new(), identifier: String::new() }
    }

    pub fn copy(&self) -> (r: Self)
        ensures
            r@ == self@,
    {
        FocusedWindowSnapshot {
            title: self.title.clone(),
            app_id: self.app_id.clone(),
            identifier: self.identifier.clone(),
        }
    }
}

impl ToplevelEntry {
    pub fn copy(&self) -> (r: Self)
        ensures
            r@ == self@,
    {
        ToplevelEntry {
            title: self.title.clone(),
            app_id: self.app_id.clone(),
            identifier: self.identifier.clone(),
            workspace_id: self.workspace_id,
            workspace_mask: self.workspace_mask,
            focused: self.focused,
        }
    }
}

/// Workspace number (counted from one) of the lowest set bit; zero for an
/// empty mask.
pub open spec fn lowest_workspace(mask: u32) -> u32 {
    if mask == 0 {
        0
    } else {
        (mask.trailing_zeros() + 1) as u32
    }
}

/// Lowest set bit of `mask`, counted from one; zero when no bit is set.
pub fn first_set_bit(mask: u32) -> (r: u32)
    ensures
        r == lowest_workspace(mask),
        mask == 0 <==> r == 0,
        r <= 32,
        r > 0 ==> (mask >> ((r - 1) as u32)) & 1u32 == 1u32,
        r > 0 ==> forall|j: u32| j < r - 1 ==> #[trigger] ((mask >> j) & 1u32) == 0u32,
{
    if mask == 0 {
        0
    } else {
        mask.trailing_zeros() + 1
    }
}

impl CompositorSnapshot {
    /// The focused workspace number, from the lowest bit of the focused mask.
    pub fn focused_workspace(&self) -> (r: u32)
        ensures
            r == lowest_workspace(self.focused_mask),
    {
        first_set_bit(self.focused_mask)
    }
}

/// The mask of one workspace number is read back as that number.
pub proof fn law_single_workspace_round_trip(n: u32)
    requires
        1 <= n <= 32,
    ensures
        lowest_workspace(1u32 << ((n - 1) as u32)) == n,
{
    let k = (n - 1) as u32;
    let m = 1u32 << k;
    assert(m != 0) by (bit_vector)
        requires
            k < 32,
            m == 1u32 << k,
    ;
    let t = m.trailing_zeros();
    assert(t < 32);
    assert((m >> t) & 1u32 == 1u32);
    assert forall|j: u32| j < t implies #[trigger] ((m >> j) & 1u32) == 0u32 by {}
    assert(t == k) by (bit_vector)
        requires
            k < 32,
            m == 1u32 << k,
            t < 32,
            (m >> t) & 1u32 == 1u32,
    ;
}

// ---------------------------------------------------------------------------
// Resolving the one focused toplevel.
pub open spec fn entry_focused() -> spec_fn(EntryView) -> bool {
    |e: EntryView| e.focused
}

/// Entry whose trimmed, non-empty identifier equals `id` (already trimmed).
pub open spec fn entry_has_identifier(id: Seq<char>) -> spec_fn(EntryView) -> bool {
    |e: EntryView| trim(e.identifier).len() > 0 && trim(e.identifier) == id
}

/// Entry whose trimmed, non-empty title equals `title` up to ASCII case.
pub open spec fn entry_has_title(title: Seq<char>) -> spec_fn(EntryView) -> bool {
    |e: EntryView| trim(e.title).len() > 0 && eq_fold(trim(e.title), title)
}

/// Focus by the entries' own flags, else by the focused window's identifier.
pub open spec fn focus_by_flag_or_id(es: Seq<EntryView>, f: FocusedView) -> Option<int> {
    match first_match(es, entry_focused()) {
        Some(i) => Some(i),
        None => if trim(f.identifier).len() > 0 {
            first_match(es, entry_has_identifier(trim(f.identifier)))
        } else {
            None
        },
    }
}

/// On river, focus by the one entry whose title matches the focused title.
pub open spec fn focus_by_title(es: Seq<EntryView>, f: FocusedView, river: bool) -> Option<int> {
    if !river || trim(f.title).len() == 0 {
        None
    } else {
        only_match(es, entry_has_title(trim(f.title)))
    }
}

/// The index of the focused toplevel that a merged state settles on.
pub open spec fn resolved_focus(es: Seq<EntryView>, f: FocusedView, river: bool) -> Option<int> {
    match focus_by_flag_or_id(es, f) {
        Some(i) => Some(i),
        None => focus_by_title(es, f, river),
    }
}

/// The first entry flagged as focused.
fn first_flagged(entries: &Vec<ToplevelEntry>) -> (r: Option<usize>)
    ensures
        r matches Some(i) ==> first_match(entries_view(entries@), entry_focused()) == Some(
            i as int,
        ),
        r is None ==> first_match(entries_view(entries@), entry_focused()) is None,
        r matches Some(i) ==> i < entries.len(),
{
    let ghost es = entries_view(entries@);
    let mut i: usize = 0;
    while i < entries.len()
        invariant
            es == entries_view(entries@),
            i <= entries.len(),
            forall|j: int| 0 <= j < i ==> !(entry_focused())(#[trigger] es[j]),
        decreases entries.len() - i,
    {
        if entries[i].focused {
            proof {
                lemma_first_match_some(es, entry_focused(), i as int);
            }
            return Some(i);
        }
        i += 1;
    }
    proof {
        lemma_first_match_none(es, entry_focused());
    }
    None
}

/// Index of the first toplevel flagged as focused, else of the first whose
/// identifier matches the focused window's (trimmed, non-empty) identifier.
pub fn resolve_focus_index(entries: &Vec<ToplevelEntry>, focused: &FocusedWindowSnapshot) -> (r:
    Option<usize>)
    ensures
        r matches Some(i) ==> focus_by_flag_or_id(entries_view(entries@), focused@) == Some(
            i as int,
        ),
        r is None ==> focus_by_flag_or_id(entries_view(entries@), focused@) is None,
        r matches Some(i) ==> i < entries.len(),
{
    let ghost es = entries_view(entries@);
    if let Some(i) = first_flagged(entries) {
        return Some(i);
    }
    let by_id = trim_str(focused.identifier.as_str());
    if by_id.as_str().is_empty() {
        return None;
    }
    let ghost p = entry_has_identifier(by_id@);
    let mut i: usize = 0;
    while i < entries.len()
        invariant
            es == entries_view(entries@),
            p == entry_has_identifier(by_id@),
            first_match(es, entry_focused()) is None,
            by_id@ == trim(focused.identifier@),
            by_id@.len() > 0,
            i <= entries.len(),
            forall|j: int| 0 <= j < i ==> !p(#[trigger] es[j]),
        decreases entries.len() - i,
    {
        let id = trim_str(entries[i].identifier.as_str());
        if !is_blank(id.as_str()) && str_eq(id.as_str(), by_id.as_str()) {
            proof {
                assert(trim(id@) == id@) by {
                    crate::text::lemma_trim_idempotent(entries[i as int].identifier@);
                }
                lemma_first_match_some(es, p, i as int);
            }
            return Some(i);
        }
        proof {
            crate::text::lemma_trim_idempotent(entries[i as int].identifier@);
        }
        i += 1;
    }
    proof {
        lemma_first_match_none(es, p);
    }
    None
}

/// Whether the entry's trimmed title is non-empty and equals `title` up to
/// ASCII case.
fn title_matches(entry: &ToplevelEntry, title: &String) -> (r: bool)
    ensures
        r == (entry_has_title(title@))(entry@),
{
    let entry_title = trim_str(entry.title.as_str());
    proof {
        crate::text::lemma_trim_idempotent(entry.title@);
    }
    !is_blank(entry_title.as_str()) && eq_ignore_ascii_case(entry_title.as_str(), title.as_str())
}

#[verifier::rlimit(50)]
/// On river only: index of the single toplevel whose trimmed title equals the
/// focused title up to ASCII case; none when there is none or more than one.
pub fn resolve_river_focus_index(
    entries: &Vec<ToplevelEntry>,
    focused: &FocusedWindowSnapshot,
    river_backend: bool,
) -> (r: Option<usize>)
    ensures
        r matches Some(i) ==> focus_by_title(entries_view(entries@), focused@, river_backend)
            == Some(i as int),
        r is None ==> focus_by_title(entries_view(entries@), focused@, river_backend) is None,
        r matches Some(i) ==> i < entries.len(),
{
    if !river_backend {
        return None;
    }
    let title = trim_str(focused.title.as_str());
    if title.as_str().is_empty() {
        return None;
    }
    let ghost es = entries_view(entries@);
    let ghost p = entry_has_title(title@);
    let mut found: Option<usize> = None;
    let mut i: usize = 0;
    while i < entries.len()
        invariant
            es == entries_view(entries@),
            p == entry_has_title(title@),
            title@ == trim(focused.title@),
            title@.len() > 0,
            river_backend,
            es.len() == entries.len(),
            i <= entries.len(),
            found matches Some(k) ==> k < i && p(es[k as int]) && forall|j: int|
                0 <= j < i && j != k ==> !p(#[trigger] es[j]),
            found is None ==> forall|j: int| 0 <= j < i ==> !p(#[trigger] es[j]),
        decreases entries.len() - i,
    {
        let matches = title_matches(&entries[i], &title);
        assert(es[i as int] == entries[i as int]@);
        if matches {
            if let Some(k) = found {
                proof {
                    lemma_only_match_none_two(es, p, k as int, i as int);
                }
                return None;
            }
            found = Some(i);
        }
        i += 1;
    }
    match found {
        Some(k) => {
            proof {
                lemma_only_match_some(es, p, k as int);
            }
            Some(k)
        },
        None => {
            proof {
                assert(only_match(es, p) is None);
            }
            None
        },
    }
}

/// Marks the entry at `focused_idx` as the only focused one.
pub fn set_single_focused(entries: &mut Vec<ToplevelEntry>, focused_idx: usize)
    ensures
        final(entries).len() == old(entries).len(),
        forall|i: int|
            0 <= i < final(entries).len() ==> {
                let e = #[trigger] final(entries)[i];
                let o = old(entries)[i];
                &&& e.title@ == o.title@
                &&& e.app_id@ == o.app_id@
                &&& e.identifier@ == o.identifier@
                &&& e.workspace_id == o.workspace_id
                &&& e.workspace_mask == o.workspace_mask
                &&& e.focused == (i == focused_idx)
            },
{
    let mut i: usize = 0;
    while i < entries.len()
        invariant
            entries.len() == old(entries).len(),
            i <= entries.len(),
            forall|k: int|
                0 <= k < entries.len() ==> {
                    let e = #[trigger] entries[k];
                    let o = old(entries)[k];
                    &&& e.title@ == o.title@
                    &&& e.app_id@ == o.app_id@
                    &&& e.identifier@ == o.identifier@
                    &&& e.workspace_id == o.workspace_id
                    &&& e.workspace_mask == o.workspace_mask
                    &&& (k < i ==> e.focused == (k == focused_idx))
                    &&& (k >= i ==> e.focused == o.focused)
                },
        decreases old(entries).len() - i,
    {
        let mut e = entries[i].copy();
        e.focused = i == focused_idx;
        entries.set(i, e);
        i += 1;
    }
}

/// Clears every entry's focus flag.
fn clear_focus(entries: &mut Vec<ToplevelEntry>)
    ensures
        final(entries).len() == old(entries).len(),
        forall|i: int|
            0 <= i < final(entries).len() ==> {
                let e = #[trigger] final(entries)[i];
                let o = old(entries)[i];
                &&& e.title@ == o.title@
                &&& e.app_id@ == o.app_id@
                &&& e.identifier@ == o.identifier@
                &&& e.workspace_id == o.workspace_id
                &&& e.workspace_mask == o.workspace_mask
                &&& !e.focused
            },
{
    let mut i: usize = 0;
    while i < entries.len()
        invariant
            entries.len() == old(entries).len(),
            i <= entries.len(),
            forall|k: int|
                0 <= k < entries.len() ==> {
                    let e = #[trigger] entries[k];
                    let o = old(entries)[k];
                    &&& e.title@ == o.title@
                    &&& e.app_id@ == o.app_id@
                    &&& e.identifier@ == o.identifier@
                    &&& e.workspace_id == o.workspace_id
                    &&& e.workspace_mask == o.workspace_mask
                    &&& (k < i ==> !e.focused)
                    &&& (k >= i ==> e.focused == o.focused)
                },
        decreases old(entries).len() - i,
    {
        let mut e = entries[i].copy();
        e.focused = false;
        entries.set(i, e);
        i += 1;
    }
}

/// The entries of `b` are those of `a` with only the focus flags changed.
pub open spec fn same_but_focus(a: Seq<EntryView>, b: Seq<EntryView>) -> bool {
    &&& a.len() == b.len()
    &&& forall|i: int|
        0 <= i < a.len() ==> {
            let x = #[trigger] a[i];
            let y = b[i];
            &&& x.title == y.title
            &&& x.app_id == y.app_id
            &&& x.identifier == y.identifier
            &&& x.workspace_id == y.workspace_id
            &&& x.workspace_mask == y.workspace_mask
        }
}

/// The state that `normalize_state` leaves: `post` is `pre` made consistent.
pub open spec fn normalized(
    pre_es: Seq<EntryView>,
    pre_f: FocusedView,
    post_es: Seq<EntryView>,
    post_f: FocusedView,
    river: bool,
) -> bool {
    &&& same_but_focus(pre_es, post_es)
    &&& match resolved_focus(pre_es, pre_f, river) {
        Some(k) => {
            &&& forall|i: int| 0 <= i < post_es.len() ==> #[trigger] post_es[i].focused == (i == k)
            &&& post_f.title == pre_es[k].title
            &&& post_f.app_id == pre_es[k].app_id
            &&& post_f.identifier == pre_es[k].identifier
        },
        None => {
            &&& forall|i: int| 0 <= i < post_es.len() ==> !#[trigger] post_es[i].focused
            &&& river ==> post_f == pre_f
            &&& !river ==> post_f.title.len() == 0 && post_f.app_id.len() == 0
                && post_f.identifier.len() == 0
        },
    }
}

/// Makes a merged state consistent: the entry that the flags, the focused
/// identifier or (on river) the unique focused title designate becomes the
/// only focused entry and the focused window is copied from it; without such
/// an entry no entry is focused and, except on river, the focused window is
/// cleared. Workspace masks are left alone.
pub fn normalize_state(state: &mut CompositorStateSnapshot, river_backend: bool)
    ensures
        normalized(
            entries_view(old(state).toplevels@),
            old(state).workspace.focused_window@,
            entries_view(final(state).toplevels@),
            final(state).workspace.focused_window@,
            river_backend,
        ),
        final(state).workspace.focused_mask == old(state).workspace.focused_mask,
        final(state).workspace.occupied_mask == old(state).workspace.occupied_mask,
        final(state).workspace.urgent_mask == old(state).workspace.urgent_mask,
        consistent_state(*final(state)),
{
    let ghost pre_es = entries_view(state.toplevels@);
    let ghost pre_f = state.workspace.focused_window@;
    let resolved = match resolve_focus_index(&state.toplevels, &state.workspace.focused_window) {
        Some(i) => Some(i),
        None => resolve_river_focus_index(
            &state.toplevels,
            &state.workspace.focused_window,
            river_backend,
        ),
    };
    if let Some(idx) = resolved {
        proof {
            assert(resolved_focus(pre_es, pre_f, river_backend) == Some(idx as int));
        }
        set_single_focused(&mut state.toplevels, idx);
        let title = state.toplevels[idx].title.clone();
        let app_id = state.toplevels[idx].app_id.clone();
        let identifier = state.toplevels[idx].identifier.clone();
        state.workspace.focused_window.title = title;
        state.workspace.focused_window.app_id = app_id;
        state.workspace.focused_window.identifier = identifier;
        proof {
            assert(same_but_focus(pre_es, entries_view(state.toplevels@)));
            law_normalized_single_focus(
                pre_es,
                pre_f,
                entries_view(state.toplevels@),
                state.workspace.focused_window@,
                river_backend,
            );
        }
        return;
    }
    clear_focus(&mut state.toplevels);
    if !river_backend {
        state.workspace.focused_window = FocusedWindowSnapshot::empty();
    }
    proof {
        assert(same_but_focus(pre_es, entries_view(state.toplevels@)));
        assert(state.workspace.focused_window@ == pre_f || !river_backend);
        law_normalized_single_focus(
            pre_es,
            pre_f,
            entries_view(state.toplevels@),
            state.workspace.focused_window@,
            river_backend,
        );
    }
}

/// After normalization at most one toplevel is focused, and when one is,
/// the focused window names it.
pub proof fn law_normalized_single_focus(
    pre_es: Seq<EntryView>,
    pre_f: FocusedView,
    post_es: Seq<EntryView>,
    post_f: FocusedView,
    river: bool,
)
    requires
        normalized(pre_es, pre_f, post_es, post_f, river),
    ensures
        forall|i: int, j: int|
            0 <= i < post_es.len() && 0 <= j < post_es.len() && post_es[i].focused && post_es[j].focused ==> i == j,
        forall|i: int|
            0 <= i < post_es.len() && #[trigger] post_es[i].focused ==> post_f.title == post_es[i].title
                && post_f.app_id == post_es[i].app_id && post_f.identifier == post_es[i].identifier,
{
}

proof fn lemma_same_entries(a: Seq<EntryView>, b: Seq<EntryView>)
    requires
        same_but_focus(a, b),
        forall|i: int| 0 <= i < a.len() ==> #[trigger] a[i].focused == b[i].focused,
    ensures
        a == b,
{
    assert forall|i: int| 0 <= i < a.len() implies #[trigger] a[i] == b[i] by {
        let x = a[i];
        let y = b[i];
        assert(x.focused == y.focused);
    }
    assert(a =~= b);
}

/// Normalizing a normalized state changes nothing.
pub proof fn law_normalize_idempotent(
    pre_es: Seq<EntryView>,
    pre_f: FocusedView,
    mid_es: Seq<EntryView>,
    mid_f: FocusedView,
    post_es: Seq<EntryView>,
    post_f: FocusedView,
    river: bool,
)
    requires
        normalized(pre_es, pre_f, mid_es, mid_f, river),
        normalized(mid_es, mid_f, post_es, post_f, river),
    ensures
        post_es == mid_es,
        post_f == mid_f,
{
    match resolved_focus(pre_es, pre_f, river) {
        Some(k) => {
            assert(0 <= k < pre_es.len()) by {
                match focus_by_flag_or_id(pre_es, pre_f) {
                    Some(i) => {
                        if first_match(pre_es, entry_focused()) is Some {
                            let w = choose|w: int| 0 <= w < pre_es.len() && entry_focused()(#[trigger] pre_es[w]);
                            lemma_first_match_exists(pre_es, entry_focused(), w);
                        } else {
                            let p = entry_has_identifier(trim(pre_f.identifier));
                            let w = choose|w: int| 0 <= w < pre_es.len() && p(#[trigger] pre_es[w]);
                            lemma_first_match_exists(pre_es, p, w);
                        }
                    },
                    None => {},
                }
            }
            assert(mid_es[k].focused);
            assert forall|j: int| 0 <= j < k implies !entry_focused()(#[trigger] mid_es[j]) by {}
            lemma_first_match_some(mid_es, entry_focused(), k);
            assert(resolved_focus(mid_es, mid_f, river) == Some(k));
            lemma_same_entries(mid_es, post_es);
            assert(post_f =~= mid_f);
        },
        None => {
            assert(first_match(mid_es, entry_focused()) is None);
            let idp = entry_has_identifier(trim(mid_f.identifier));
            if river {
                assert(mid_f == pre_f);
                assert(first_match(pre_es, entry_focused()) is None) by {
                    if exists|w: int| 0 <= w < pre_es.len() && entry_focused()(#[trigger] pre_es[w]) {
                        let w = choose|w: int| 0 <= w < pre_es.len() && entry_focused()(#[trigger] pre_es[w]);
                        lemma_first_match_exists(pre_es, entry_focused(), w);
                    }
                }
                if trim(mid_f.identifier).len() > 0 {
                    assert(first_match(pre_es, idp) is None);
                    assert forall|j: int| 0 <= j < mid_es.len() implies !idp(#[trigger] mid_es[j]) by {
                        if idp(mid_es[j]) {
                            assert(idp(pre_es[j]));
                            lemma_first_match_exists(pre_es, idp, j);
                        }
                    }
                    lemma_first_match_none(mid_es, idp);
                }
                let tp = entry_has_title(trim(mid_f.title));
                if trim(mid_f.title).len() > 0 {
                    assert forall|j: int| 0 <= j < mid_es.len() implies #[trigger] tp(mid_es[j]) == tp(pre_es[j]) by {}
                    assert(only_match(pre_es, tp) is None);
                    if exists|i: int|
                        0 <= i < mid_es.len() && tp(#[trigger] mid_es[i]) && forall|j: int|
                            0 <= j < mid_es.len() && tp(#[trigger] mid_es[j]) ==> j == i {
                        let i = choose|i: int|
                            0 <= i < mid_es.len() && tp(#[trigger] mid_es[i]) && forall|j: int|
                                0 <= j < mid_es.len() && tp(#[trigger] mid_es[j]) ==> j == i;
                        assert(tp(pre_es[i]));
                        assert forall|j: int| 0 <= j < pre_es.len() && tp(#[trigger] pre_es[j]) implies j == i by {
                            assert(tp(mid_es[j]));
                        }
                        lemma_only_match_some(pre_es, tp, i);
                    }
                }
                assert(resolved_focus(mid_es, mid_f, river) is None);
            } else {
                assert(trim(mid_f.identifier).len() == 0) by {
                    assert(mid_f.identifier =~= Seq::<char>::empty());
                    crate::text::lemma_trim_bounds(mid_f.identifier);
                }
                assert(resolved_focus(mid_es, mid_f, river) is None);
                assert(post_f.title =~= mid_f.title);
                assert(post_f.app_id =~= mid_f.app_id);
                assert(post_f.identifier =~= mid_f.identifier);
            }
            lemma_same_entries(mid_es, post_es);
        },
    }
}

/// Where the backend detection found a compositor.
#[derive(Debug, Clone, Copy, PartialEq, Eq, Structural)]
pub enum BackendKind {
    Hyprland,
    River,
    Sway,
    Unknown,
}

/// The backend in use from what answers: river first, then Hyprland, then
/// Sway.
pub fn active_backend(river: bool, hyprland: bool, sway: bool) -> (r: BackendKind)
    ensures
        r == if river {
            BackendKind::River
        } else if hyprland {
            BackendKind::Hyprland
        } else if sway {
            BackendKind::Sway
        } else {
            BackendKind::Unknown
        },
{
    if river {
        BackendKind::River
    } else if hyprland {
        BackendKind::Hyprland
    } else if sway {
        BackendKind::Sway
    } else {
        BackendKind::Unknown
    }
}

/// The compositor's name: the backend's, else guessed from the desktop
/// name in `XDG_CURRENT_DESKTOP` (any case), else "unknown".
pub open spec fn compositor_name(backend: BackendKind, desktop: Option<Seq<char>>) -> Seq<char> {
    match backend {
        BackendKind::Hyprland => "hyprland"@,
        BackendKind::River => "river"@,
        BackendKind::Sway => "sway"@,
        BackendKind::Unknown => match desktop {
            Some(d) => if crate::text::contains(crate::text::lower_seq(d), "hypr"@) {
                "hyprland"@
            } else if crate::text::contains(crate::text::lower_seq(d), "niri"@) {
                "niri"@
            } else {
                "unknown"@
            },
            None => "unknown"@,
        },
    }
}

/// The compositor's name.
pub fn detected_name(backend: BackendKind, desktop: Option<&str>) -> (r: &'static str)
    ensures
        r@ == compositor_name(backend, crate::selector::opt_view(desktop)),
{
    match backend {
        BackendKind::Hyprland => return "hyprland",
        BackendKind::River => return "river",
        BackendKind::Sway => return "sway",
        BackendKind::Unknown => {},
    }
    if let Some(raw) = desktop {
        let lowered = crate::text::to_ascii_lowercase(raw);
        if crate::text::contains_str(lowered.as_str(), "hypr") {
            return "hyprland";
        }
        if crate::text::contains_str(lowered.as_str(), "niri") {
            return "niri";
        }
    }
    "unknown"
}

/// The workspace number a focus request uses: clamped to 1..=32.
pub fn clamp_workspace(index_1_based: u32) -> (r: u32)
    ensures
        r == if index_1_based < 1 { 1 } else if index_1_based > 32 { 32 } else { index_1_based },
{
    if index_1_based < 1 {
        1
    } else if index_1_based > 32 {
        32
    } else {
        index_1_based
    }
}

/// The error for a compositor that cannot focus a workspace.
pub fn unsupported_focus_message(name: &str) -> (r: String)
    ensures
        r@ == "focus workspace is not implemented for compositor '"@ + name@ + "'"@,
{
    let mut m = String::from_str("focus workspace is not implemented for compositor '");
    m.append(name);
    m.append("'");
    m
}

/// Where a request to show a workspace goes: the backend in use with the
/// workspace clamped to 1..=32; with no known backend, the error that names
/// the compositor the desktop reports.
pub fn focus_workspace(index_1_based: u32, backend: BackendKind, desktop: Option<&str>) -> (r: Result<
    (BackendKind, u32),
    String,
>)
    ensures
        backend != BackendKind::Unknown ==> r == Ok::<(BackendKind, u32), String>(
            (backend, if index_1_based < 1 {
                1
            } else if index_1_based > 32 {
                32
            } else {
                index_1_based
            }),
        ),
        backend == BackendKind::Unknown ==> (r matches Err(e) && e@
            == "focus workspace is not implemented for compositor '"@ + compositor_name(
            backend,
            crate::selector::opt_view(desktop),
        ) + "'"@),
{
    let idx = clamp_workspace(index_1_based);
    match backend {
        BackendKind::Unknown => Err(unsupported_focus_message(detected_name(backend, desktop))),
        _ => Ok((backend, idx)),
    }
}

/// What arrives from one of the two streams that make up the state.
pub enum StateUpdate {
    Workspace(CompositorSnapshot),
    Toplevels(Vec<ToplevelEntry>),
}

pub open spec fn snapshot_eq(a: CompositorSnapshot, b: CompositorSnapshot) -> bool {
    &&& a.focused_mask == b.focused_mask
    &&& a.occupied_mask == b.occupied_mask
    &&& a.urgent_mask == b.urgent_mask
    &&& a.focused_window@ == b.focused_window@
}

/// Two states hold the same values.
pub open spec fn state_eq(a: CompositorStateSnapshot, b: CompositorStateSnapshot) -> bool {
    snapshot_eq(a.workspace, b.workspace) && entries_view(a.toplevels@) == entries_view(b.toplevels@)
}

fn strings_equal(a: &String, b: &String) -> (r: bool)
    ensures
        r == (a@ == b@),
{
    str_eq(a.as_str(), b.as_str())
}

fn entries_equal(a: &Vec<ToplevelEntry>, b: &Vec<ToplevelEntry>) -> (r: bool)
    ensures
        r == (entries_view(a@) == entries_view(b@)),
{
    if a.len() != b.len() {
        proof {
            if entries_view(a@) == entries_view(b@) {
                assert(entries_view(a@).len() == a.len());
            }
        }
        return false;
    }
    let mut i: usize = 0;
    while i < a.len()
        invariant
            a.len() == b.len(),
            i <= a.len(),
            forall|j: int| 0 <= j < i ==> #[trigger] a@[j]@ == b@[j]@,
        decreases a.len() - i,
    {
        let x = &a[i];
        let y = &b[i];
        let same = strings_equal(&x.title, &y.title) && strings_equal(&x.app_id, &y.app_id)
            && strings_equal(&x.identifier, &y.identifier) && x.workspace_id == y.workspace_id
            && x.workspace_mask == y.workspace_mask && x.focused == y.focused;
        if !same {
            proof {
                if entries_view(a@) == entries_view(b@) {
                    assert(entries_view(a@)[i as int] == entries_view(b@)[i as int]);
                }
            }
            return false;
        }
        i += 1;
    }
    assert(entries_view(a@) =~= entries_view(b@));
    true
}

/// Whether two states hold the same values.
pub fn same_state(a: &CompositorStateSnapshot, b: &CompositorStateSnapshot) -> (r: bool)
    ensures
        r == state_eq(*a, *b),
{
    a.workspace.focused_mask == b.workspace.focused_mask && a.workspace.occupied_mask
        == b.workspace.occupied_mask && a.workspace.urgent_mask == b.workspace.urgent_mask
        && strings_equal(&a.workspace.focused_window.title, &b.workspace.focused_window.title)
        && strings_equal(&a.workspace.focused_window.app_id, &b.workspace.focused_window.app_id)
        && strings_equal(&a.workspace.focused_window.identifier, &b.workspace.focused_window.identifier)
        && entries_equal(&a.toplevels, &b.toplevels)
}

impl CompositorStateSnapshot {
    /// A state with empty masks, no focused window and no toplevels.
    pub fn empty() -> (r: Self)
        ensures
            r.workspace.focused_mask == 0,
            r.workspace.occupied_mask == 0,
            r.workspace.urgent_mask == 0,
            r.workspace.focused_window@ == (FocusedView { title: seq![], app_id: seq![], identifier: seq![] }),
            r.toplevels@.len() == 0,
    {
        CompositorStateSnapshot {
            workspace: CompositorSnapshot {
                focused_mask: 0,
                occupied_mask: 0,
                urgent_mask: 0,
                focused_window: FocusedWindowSnapshot::empty(),
            },
            toplevels: Vec::new(),
        }
    }

    /// An independent copy with the same values.
    pub fn copy(&self) -> (r: Self)
        ensures
            state_eq(r, *self),
    {
        let mut t: Vec<ToplevelEntry> = Vec::new();
        let mut i: usize = 0;
        while i < self.toplevels.len()
            invariant
                i <= self.toplevels.len(),
                entries_view(t@) == entries_view(self.toplevels@.take(i as int)),
            decreases self.toplevels.len() - i,
        {
            let ghost before = entries_view(t@);
            let e = self.toplevels[i].copy();
            t.push(e);
            assert(entries_view(t@) =~= before.push(self.toplevels@[i as int]@));
            assert(self.toplevels@.take(i + 1) =~= self.toplevels@.take(i as int).push(self.toplevels@[i as int]));
            assert(entries_view(t@) =~= entries_view(self.toplevels@.take(i + 1)));
            i += 1;
        }
        assert(self.toplevels@.take(self.toplevels.len() as int) =~= self.toplevels@);
        CompositorStateSnapshot {
            workspace: CompositorSnapshot {
                focused_mask: self.workspace.focused_mask,
                occupied_mask: self.workspace.occupied_mask,
                urgent_mask: self.workspace.urgent_mask,
                focused_window: self.workspace.focused_window.copy(),
            },
            toplevels: t,
        }
    }
}

/// A state fit to publish: at most one toplevel is focused, and the
/// focused window names the one that is.
pub open spec fn consistent_state(st: CompositorStateSnapshot) -> bool {
    let es = entries_view(st.toplevels@);
    let f = st.workspace.focused_window@;
    &&& forall|i: int, j: int| 0 <= i < es.len() && 0 <= j < es.len() && es[i].focused && es[j].focused ==> i == j
    &&& forall|i: int|
        0 <= i < es.len() && #[trigger] es[i].focused ==> f.title == es[i].title && f.app_id == es[i].app_id
            && f.identifier == es[i].identifier
}

/// One step of merging the workspace and toplevel streams: the update
/// replaces its half of the state, the state is normalized, and the result
/// is what to publish, or nothing when it equals the last one published.
pub fn merge_update(
    state: &mut CompositorStateSnapshot,
    update: StateUpdate,
    last: &Option<CompositorStateSnapshot>,
    river_backend: bool,
) -> (r: Option<CompositorStateSnapshot>)
    ensures
        match update {
            StateUpdate::Workspace(w) => normalized(
                entries_view(old(state).toplevels@),
                w.focused_window@,
                entries_view(final(state).toplevels@),
                final(state).workspace.focused_window@,
                river_backend,
            ) && final(state).workspace.focused_mask == w.focused_mask
                && final(state).workspace.occupied_mask == w.occupied_mask
                && final(state).workspace.urgent_mask == w.urgent_mask,
            StateUpdate::Toplevels(es) => normalized(
                entries_view(es@),
                old(state).workspace.focused_window@,
                entries_view(final(state).toplevels@),
                final(state).workspace.focused_window@,
                river_backend,
            ) && final(state).workspace.focused_mask == old(state).workspace.focused_mask
                && final(state).workspace.occupied_mask == old(state).workspace.occupied_mask
                && final(state).workspace.urgent_mask == old(state).workspace.urgent_mask,
        },
        match last {
            Some(l) => state_eq(*final(state), *l) ==> r is None,
            None => true,
        },
        (match last {
            Some(l) => !state_eq(*final(state), *l),
            None => true,
        }) ==> (r matches Some(p) && state_eq(p, *final(state))),
        consistent_state(*final(state)),
        r matches Some(p) ==> consistent_state(p) && match last {
            Some(l) => !state_eq(p, *l),
            None => true,
        },
{
    match update {
        StateUpdate::Workspace(w) => {
            state.workspace = w;
        },
        StateUpdate::Toplevels(es) => {
            state.toplevels = es;
        },
    }
    let ghost pre_es = entries_view(state.toplevels@);
    let ghost pre_f = state.workspace.focused_window@;
    normalize_state(state, river_backend);
    proof {
        law_normalized_single_focus(
            pre_es,
            pre_f,
            entries_view(state.toplevels@),
            state.workspace.focused_window@,
            river_backend,
        );
    }
    match last {
        Some(l) => {
            if same_state(state, l) {
                return None;
            }
        },
        None => {},
    }
    let p = state.copy();
    proof {
        assert(entries_view(p.toplevels@) == entries_view(state.toplevels@));
        assert(p.workspace.focused_window@ == state.workspace.focused_window@);
    }
    Some(p)
}

} // verus!
