//! The toplevel windows from the `ext-foreign-toplevel-list` protocol: what
//! each handle reported, in the order handles appeared.
use vstd::prelude::*;

use crate::compositor::{entries_view, EntryView, ToplevelEntry};
use crate::keyed::{find_key, has_key, keys_unique, lemma_table_push, lemma_table_remove, lemma_table_update, table};
use crate::text::{is_blank, trim, trim_str};

verus! {

/// What a handle has reported.
#[derive(Debug)]
pub struct ListInfo {
    pub title: String,
    pub app_id: String,
    pub identifier: String,
}

pub struct ListView {
    pub title: Seq<char>,
    pub app_id: Seq<char>,
    pub identifier: Seq<char>,
}

impl View for ListInfo {
    type V = ListView;

    open spec fn view(&self) -> ListView {
        ListView { title: self.title@, app_id: self.app_id@, identifier: self.identifier@ }
    }
}

pub open spec fn blank_info() -> ListView {
    ListView { title: seq![], app_id: seq![], identifier: seq![] }
}

impl ListInfo {
    pub fn blank() -> (r: Self)
        ensures
            r@ == blank_info(),
    {
        ListInfo { title: String::new(), app_id: String::new(), identifier: String::new() }
    }
}

/// An event about one handle.
#[derive(Debug)]
pub enum ListEvent {
    Title(String),
    AppId(String),
    Identifier(String),
    Closed,
    Done,
}

/// The handles known and the order they appeared in.
pub struct ToplevelState {
    pub handles: Vec<(u64, ListInfo)>,
    pub order: Vec<u64>,
}

/// The toplevel entry of a handle: its trimmed texts, unless both title and
/// application id are blank.
pub open spec fn list_entry(i: ListView) -> Seq<EntryView> {
    if trim(i.title).len() == 0 && trim(i.app_id).len() == 0 {
        seq![]
    } else {
        seq![
            EntryView {
                title: trim(i.title),
                app_id: trim(i.app_id),
                identifier: trim(i.identifier),
                workspace_id: None,
                workspace_mask: 0,
                focused: false,
            },
        ]
    }
}

/// The entries of the handles in order, skipping ids without a handle.
pub open spec fn list_snapshot(order: Seq<u64>, m: Map<u64, ListInfo>) -> Seq<EntryView>
    decreases order.len(),
{
    if order.len() == 0 {
        seq![]
    } else {
        list_snapshot(order.drop_last(), m) + if m.dom().contains(order.last()) {
            list_entry(m[order.last()]@)
        } else {
            seq![]
        }
    }
}

/// The info of a handle after an event (closing aside).
pub open spec fn list_info_after(i: ListView, ev: ListEvent) -> ListView {
    match ev {
        ListEvent::Title(t) => ListView { title: t@, ..i },
        ListEvent::AppId(a) => ListView { app_id: a@, ..i },
        ListEvent::Identifier(d) => ListView { identifier: d@, ..i },
        _ => i,
    }
}

pub open spec fn info_views(m: Map<u64, ListInfo>) -> Map<u64, ListView> {
    m.map_values(|i: ListInfo| i@)
}

impl ToplevelState {
    pub open spec fn well_formed(&self) -> bool {
        keys_unique(self.handles@)
    }

    pub open spec fn infos(&self) -> Map<u64, ListView> {
        info_views(table(self.handles@))
    }

    /// No handle known.
    pub fn new() -> (r: Self)
        ensures
            r.well_formed(),
            r.order@.len() == 0,
            r.infos() == Map::<u64, ListView>::empty(),
    {
        let r = ToplevelState { handles: Vec::new(), order: Vec::new() };
        assert(r.infos() =~= Map::<u64, ListView>::empty());
        r
    }

    /// A handle appeared: it joins the order once.
    pub fn toplevel(&mut self, id: u64)
        requires
            old(self).well_formed(),
        ensures
            final(self).well_formed(),
            old(self).infos().dom().contains(id) ==> final(self).order@ == old(self).order@ && final(self).infos()
                == old(self).infos(),
            !old(self).infos().dom().contains(id) ==> final(self).order@ == old(self).order@.push(id)
                && final(self).infos() == old(self).infos().insert(id, blank_info()),
    {
        match find_key(&self.handles, id) {
            Some(_) => {},
            None => {
                self.order.push(id);
                let ghost before = self.handles@;
                let info = ListInfo::blank();
                proof {
                    assert(!has_key(before, id));
                    lemma_table_push(before, id, info);
                }
                self.handles.push((id, info));
                assert(self.infos() =~= old(self).infos().insert(id, blank_info()));
            },
        }
    }

    /// A handle reported an event; closing forgets it.
    pub fn event(&mut self, id: u64, ev: ListEvent)
        requires
            old(self).well_formed(),
        ensures
            final(self).well_formed(),
            ev is Closed ==> final(self).infos() == old(self).infos().remove(id) && final(self).order@
                == old(self).order@.filter(|x: u64| x != id),
            !(ev is Closed) ==> final(self).order@ == old(self).order@ && final(self).infos() == old(self).infos().insert(
                id,
                list_info_after(
                    if old(self).infos().dom().contains(id) {
                        old(self).infos()[id]
                    } else {
                        blank_info()
                    },
                    ev,
                ),
            ),
    {
        let pos = match find_key(&self.handles, id) {
            Some(i) => i,
            None => {
                let ghost before = self.handles@;
                let info = ListInfo::blank();
                proof {
                    lemma_table_push(before, id, info);
                }
                self.handles.push((id, info));
                self.handles.len() - 1
            },
        };
        let ghost mid = self.handles@;
        assert(mid[pos as int].0 == id);
        proof {
            crate::keyed::lemma_table_at(mid, pos as int);
        }
        match ev {
            ListEvent::Closed => {
                proof {
                    lemma_table_remove(mid, pos as int);
                }
                self.handles.remove(pos);
                self.order = remove_id(&self.order, id);
                assert(self.infos() =~= old(self).infos().remove(id));
            },
            ListEvent::Done => {
                assert(self.infos() =~= old(self).infos().insert(id, list_info_after(
                    if old(self).infos().dom().contains(id) { old(self).infos()[id] } else { blank_info() },
                    ListEvent::Done,
                )));
            },
            ListEvent::Title(t) => {
                let ghost tv = t@;
                let info = ListInfo {
                    title: t,
                    app_id: self.handles[pos].1.app_id.clone(),
                    identifier: self.handles[pos].1.identifier.clone(),
                };
                proof {
                    lemma_table_update(mid, pos as int, info);
                }
                self.handles.set(pos, (id, info));
                assert(self.infos() =~= old(self).infos().insert(id, ListView { title: tv, ..(if old(self).infos().dom().contains(id) { old(self).infos()[id] } else { blank_info() }) }));
            },
            ListEvent::AppId(a) => {
                let ghost av = a@;
                let info = ListInfo {
                    title: self.handles[pos].1.title.clone(),
                    app_id: a,
                    identifier: self.handles[pos].1.identifier.clone(),
                };
                proof {
                    lemma_table_update(mid, pos as int, info);
                }
                self.handles.set(pos, (id, info));
                assert(self.infos() =~= old(self).infos().insert(id, ListView { app_id: av, ..(if old(self).infos().dom().contains(id) { old(self).infos()[id] } else { blank_info() }) }));
            },
            ListEvent::Identifier(d) => {
                let ghost dv = d@;
                let info = ListInfo {
                    title: self.handles[pos].1.title.clone(),
                    app_id: self.handles[pos].1.app_id.clone(),
                    identifier: d,
                };
                proof {
                    lemma_table_update(mid, pos as int, info);
                }
                self.handles.set(pos, (id, info));
                assert(self.infos() =~= old(self).infos().insert(id, ListView { identifier: dv, ..(if old(self).infos().dom().contains(id) { old(self).infos()[id] } else { blank_info() }) }));
            },
        }
    }

    /// The entries to publish: the handles in order, skipping those with
    /// neither title nor application id.
    pub fn snapshot(&self) -> (r: Vec<ToplevelEntry>)
        requires
            self.well_formed(),
        ensures
            entries_view(r@) == list_snapshot(self.order@, table(self.handles@)),
    {
        let mut out: Vec<ToplevelEntry> = Vec::new();
        let mut i: usize = 0;
        assert(entries_view(out@) =~= seq![]);
        while i < self.order.len()
            invariant
                i <= self.order.len(),
                self.well_formed(),
                entries_view(out@) == list_snapshot(self.order@.take(i as int), table(self.handles@)),
            decreases self.order.len() - i,
        {
            proof {
                assert(self.order@.take(i + 1).drop_last() =~= self.order@.take(i as int));
            }
            let ghost before = entries_view(out@);
            if let Some(k) = find_key(&self.handles, self.order[i]) {
                let info = &self.handles[k].1;
                let title = trim_str(info.title.as_str());
                let app_id = trim_str(info.app_id.as_str());
                if !(title.as_str().is_empty() && app_id.as_str().is_empty()) {
                    let identifier = trim_str(info.identifier.as_str());
                    out.push(ToplevelEntry {
                        title,
                        app_id,
                        identifier,
                        workspace_id: None,
                        workspace_mask: 0,
                        focused: false,
                    });
                }
                assert(entries_view(out@) =~= before + list_entry(table(self.handles@)[self.order@[i as int]]@));
            } else {
                assert(entries_view(out@) =~= before + Seq::<EntryView>::empty());
            }
            i += 1;
        }
        assert(self.order@.take(self.order.len() as int) =~= self.order@);
        out
    }
}

/// The ids without the given one.
pub fn remove_id(order: &Vec<u64>, id: u64) -> (r: Vec<u64>)
    ensures
        r@ == order@.filter(|x: u64| x != id),
{
    let mut out: Vec<u64> = Vec::new();
    let mut i: usize = 0;
    while i < order.len()
        invariant
            i <= order.len(),
            out@ == order@.take(i as int).filter(|x: u64| x != id),
        decreases order.len() - i,
    {
        proof {
            assert(order@.take(i + 1) =~= order@.take(i as int).push(order@[i as int]));
            order@.take(i as int).lemma_filter_push(order@[i as int], |x: u64| x != id);
        }
        if order[i] != id {
            out.push(order[i]);
        }
        i += 1;
    }
    assert(order@.take(order.len() as int) =~= order@);
    out
}

} // verus!
