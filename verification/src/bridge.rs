//! The bookkeeping between the Lua configuration and the running shell:
//! which data providers are in use and how often, on-screen-display
//! bindings, and which windows are visible.
use vstd::prelude::*;

use crate::parser::{
    assoc_get, assoc_put, get_text_pair, keyed_by, lemma_assoc_get_put, put_text, text_pairs_view,
};

use crate::commands::AppCommand;
use crate::provider::{default_seconds, provider_name, provider_named, Provider, ProviderStartOptions};
use crate::selector::opt_view;
use crate::text::{is_blank, owned, str_eq, trim, trim_str};

verus! {

// ---------------------------------------------------------------------------
// Data providers in use.
/// Where a provider's state is kept.
pub open spec fn slot_index(p: Provider) -> int {
    match p {
        Provider::Cpu => 0,
        Provider::Memory => 1,
        Provider::Network => 2,
        Provider::Disk => 3,
        Provider::Battery => 4,
        Provider::Audio => 5,
        Provider::Bluetooth => 6,
        Provider::Mpris => 7,
        Provider::Compositor => 8,
    }
}

fn index_of(p: Provider) -> (r: usize)
    ensures
        r == slot_index(p),
{
    match p {
        Provider::Cpu => 0,
        Provider::Memory => 1,
        Provider::Network => 2,
        Provider::Disk => 3,
        Provider::Battery => 4,
        Provider::Audio => 5,
        Provider::Bluetooth => 6,
        Provider::Mpris => 7,
        Provider::Compositor => 8,
    }
}

fn provider_at(i: usize) -> (r: Provider)
    requires
        i < 9,
    ensures
        slot_index(r) == i,
{
    match i {
        0 => Provider::Cpu,
        1 => Provider::Memory,
        2 => Provider::Network,
        3 => Provider::Disk,
        4 => Provider::Battery,
        5 => Provider::Audio,
        6 => Provider::Bluetooth,
        7 => Provider::Mpris,
        _ => Provider::Compositor,
    }
}

/// One provider's use: how many users, its settings, and whether it runs.
#[derive(Debug)]
pub struct DataProviderState {
    pub refs: u32,
    pub interval_seconds: u32,
    pub network_iface: Option<String>,
    pub disk_path: Option<String>,
    pub compositor_output: Option<String>,
    pub running: bool,
}

pub struct UseView {
    pub refs: u32,
    pub interval_seconds: u32,
    pub network_iface: Option<Seq<char>>,
    pub disk_path: Option<Seq<char>>,
    pub compositor_output: Option<Seq<char>>,
    pub running: bool,
}

pub open spec fn ostr(v: Option<String>) -> Option<Seq<char>> {
    match v {
        Some(s) => Some(s@),
        None => None,
    }
}

impl View for DataProviderState {
    type V = UseView;

    open spec fn view(&self) -> UseView {
        UseView {
            refs: self.refs,
            interval_seconds: self.interval_seconds,
            network_iface: ostr(self.network_iface),
            disk_path: ostr(self.disk_path),
            compositor_output: ostr(self.compositor_output),
            running: self.running,
        }
    }
}

impl DataProviderState {
    fn unused() -> (r: Self)
        ensures
            r@ == unused_view(),
    {
        DataProviderState {
            refs: 0,
            interval_seconds: 0,
            network_iface: None,
            disk_path: None,
            compositor_output: None,
            running: false,
        }
    }
}

pub open spec fn unused_view() -> UseView {
    UseView {
        refs: 0,
        interval_seconds: 0,
        network_iface: None,
        disk_path: None,
        compositor_output: None,
        running: false,
    }
}

/// The use of every provider, one entry per provider.
pub struct DataProviders {
    pub slots: Vec<DataProviderState>,
}

/// What a call of `data_use` asks of the caller.
#[derive(Debug)]
pub enum UseOutcome {
    /// First user while the bus is attached: start the provider with these
    /// options, then record it with `record_started`.
    Start(ProviderStartOptions),
    /// First user before the bus is attached: it starts with the others.
    Registered,
    /// Another user of a running (or waiting) provider.
    Shared,
    /// The network provider already runs for another interface.
    IgnoredIface { active: Option<String>, requested: String },
    /// The disk provider already runs for another path.
    IgnoredPath { active: Option<String>, requested: String },
    /// The compositor provider already runs for another output.
    IgnoredOutput { active: Option<String>, requested: String },
}

/// The state of a provider after a new user, from its state before.
pub open spec fn after_use(
    s: UseView,
    p: Provider,
    interval: Option<u32>,
    iface: Option<Seq<char>>,
    path: Option<Seq<char>>,
    output: Option<Seq<char>>,
) -> UseView {
    let refs = if s.refs == u32::MAX { s.refs } else { (s.refs + 1) as u32 };
    if refs == 1 {
        let wanted = match interval {
            Some(i) => i,
            None => default_seconds(p),
        };
        UseView {
            refs,
            interval_seconds: if wanted < 1 { 1 } else { wanted },
            network_iface: if p == Provider::Network { iface } else { s.network_iface },
            disk_path: if p == Provider::Disk {
                match path {
                    Some(x) => Some(x),
                    None => Some("/"@),
                }
            } else {
                s.disk_path
            },
            compositor_output: if p == Provider::Compositor { output } else { s.compositor_output },
            running: s.running,
        }
    } else {
        UseView { refs, ..s }
    }
}

/// The state of a provider after a user leaves: when the last one leaves a
/// running provider, it stops and forgets its interface, path and output.
pub open spec fn after_unuse(s: UseView) -> UseView {
    if s.refs == 0 {
        s
    } else if s.refs == 1 && s.running {
        UseView {
            refs: 0,
            running: false,
            network_iface: None,
            disk_path: None,
            compositor_output: None,
            ..s
        }
    } else {
        UseView { refs: (s.refs - 1) as u32, ..s }
    }
}

/// The message for a name that is no provider.
pub open spec fn unknown_provider(name: Seq<char>) -> Seq<char> {
    "unknown data provider '"@ + name + "'"@
}

impl DataProviders {
    pub open spec fn view_of(&self, p: Provider) -> UseView {
        self.slots@[slot_index(p)]@
    }

    pub open spec fn well_formed(&self) -> bool {
        self.slots.len() == 9
    }

    /// No provider in use.
    pub fn new() -> (r: Self)
        ensures
            r.well_formed(),
            forall|p: Provider| #[trigger] r.view_of(p) == unused_view(),
    {
        let mut slots: Vec<DataProviderState> = Vec::new();
        let mut i: usize = 0;
        while i < 9
            invariant
                i <= 9,
                slots.len() == i,
                forall|j: int| 0 <= j < i ==> #[trigger] slots@[j]@ == unused_view(),
            decreases 9 - i,
        {
            slots.push(DataProviderState::unused());
            i += 1;
        }
        let r = DataProviders { slots };
        assert forall|p: Provider| #[trigger] r.view_of(p) == unused_view() by {
            assert(0 <= slot_index(p) < 9);
        }
        r
    }

    /// A provider gains a user. The first user fixes the interval (at least
    /// a second; the provider's default when none is given) and the
    /// interface, path (`/` by default) or output; later users share it,
    /// and a differing interface, path or output is reported and ignored.
    pub fn data_use(
        &mut self,
        name: &str,
        interval: Option<u32>,
        iface: Option<String>,
        path: Option<String>,
        output: Option<String>,
        bus_attached: bool,
    ) -> (r: Result<UseOutcome, String>)
        requires
            old(self).well_formed(),
        ensures
            final(self).well_formed(),
            provider_named(name@) is None ==> (r matches Err(e) && e@ == unknown_provider(name@)) && final(self).slots@ == old(self).slots@,
            provider_named(name@) matches Some(p) ==> {
                &&& r is Ok
                &&& final(self).view_of(p) == after_use(old(self).view_of(p), p, interval, ostr(iface), ostr(path), ostr(output))
                &&& forall|q: Provider| q != p ==> #[trigger] final(self).view_of(q) == old(self).view_of(q)
                &&& (r matches Ok(UseOutcome::Start(o)) <==> (old(self).view_of(p).refs == 0 && bus_attached))
                &&& (old(self).view_of(p).refs == 0 && !bus_attached ==> r matches Ok(UseOutcome::Registered))
                &&& (old(self).view_of(p).refs != 0 ==> (r matches Ok(o) && later_use_outcome(
                    o,
                    p,
                    old(self).view_of(p),
                    ostr(iface),
                    ostr(path),
                    ostr(output),
                )))
                &&& (r matches Ok(UseOutcome::Start(o)) ==> o.interval_seconds == final(self).view_of(p).interval_seconds
                    && ostr(o.network_iface) == final(self).view_of(p).network_iface
                    && ostr(o.disk_path) == final(self).view_of(p).disk_path
                    && ostr(o.compositor_output) == final(self).view_of(p).compositor_output)
            },
    {
        let p = match Provider::parse(name) {
            Some(p) => p,
            None => {
                let mut m = String::from_str("unknown data provider '");
                m.append(name);
                m.append("'");
                return Err(m);
            },
        };
        let k = index_of(p);
        let ghost before = self.slots@;
        let mut st = DataProviderState::unused();
        std::mem::swap(&mut st, &mut self.slots[k]);
        let first = st.refs == 0;
        st.refs = st.refs.saturating_add(1);
        let outcome = if st.refs == 1 {
            let wanted = match interval {
                Some(i) => i,
                None => p.default_interval(),
            };
            st.interval_seconds = if wanted < 1 {
                1
            } else {
                wanted
            };
            if p == Provider::Network {
                st.network_iface = iface;
            }
            if p == Provider::Disk {
                st.disk_path = match path {
                    Some(x) => Some(x),
                    None => Some(String::from_str("/")),
                };
            }
            if p == Provider::Compositor {
                st.compositor_output = output;
            }
            if bus_attached {
                UseOutcome::Start(
                    ProviderStartOptions {
                        interval_seconds: st.interval_seconds,
                        network_iface: clone_opt(&st.network_iface),
                        disk_path: clone_opt(&st.disk_path),
                        compositor_output: clone_opt(&st.compositor_output),
                    },
                )
            } else {
                UseOutcome::Registered
            }
        } else {
            ignored_setting(p, &st, iface, path, output)
        };
        self.slots.set(k, st);
        proof {
            assert forall|q: Provider| q != p implies #[trigger] self.view_of(q) == old(self).view_of(q) by {
                assert(slot_index(q) != slot_index(p));
            }
        }
        Ok(outcome)
    }

    /// A started provider is recorded as running.
    pub fn record_started(&mut self, p: Provider, interval_seconds: u32)
        requires
            old(self).well_formed(),
        ensures
            final(self).well_formed(),
            final(self).view_of(p) == (UseView { running: true, interval_seconds, ..old(self).view_of(p) }),
            forall|q: Provider| q != p ==> #[trigger] final(self).view_of(q) == old(self).view_of(q),
    {
        let k = index_of(p);
        let mut st = DataProviderState::unused();
        std::mem::swap(&mut st, &mut self.slots[k]);
        st.running = true;
        st.interval_seconds = interval_seconds;
        self.slots.set(k, st);
        proof {
            assert forall|q: Provider| q != p implies #[trigger] self.view_of(q) == old(self).view_of(q) by {
                assert(slot_index(q) != slot_index(p));
            }
        }
    }

    /// A provider loses a user; the result says whether the caller must now
    /// stop it.
    pub fn data_unuse(&mut self, name: &str) -> (r: Result<bool, String>)
        requires
            old(self).well_formed(),
        ensures
            final(self).well_formed(),
            provider_named(name@) is None ==> (r matches Err(e) && e@ == unknown_provider(name@)) && final(self).slots@ == old(self).slots@,
            provider_named(name@) matches Some(p) ==> {
                &&& r == Ok::<bool, String>(old(self).view_of(p).refs == 1 && old(self).view_of(p).running)
                &&& final(self).view_of(p) == after_unuse(old(self).view_of(p))
                &&& forall|q: Provider| q != p ==> #[trigger] final(self).view_of(q) == old(self).view_of(q)
            },
    {
        let p = match Provider::parse(name) {
            Some(p) => p,
            None => {
                let mut m = String::from_str("unknown data provider '");
                m.append(name);
                m.append("'");
                return Err(m);
            },
        };
        let k = index_of(p);
        let mut st = DataProviderState::unused();
        std::mem::swap(&mut st, &mut self.slots[k]);
        let mut stop = false;
        if st.refs > 0 {
            st.refs = st.refs - 1;
            if st.refs == 0 && st.running {
                st.running = false;
                st.network_iface = None;
                st.disk_path = None;
                st.compositor_output = None;
                stop = true;
            }
        }
        self.slots.set(k, st);
        proof {
            assert forall|q: Provider| q != p implies #[trigger] self.view_of(q) == old(self).view_of(q) by {
                assert(slot_index(q) != slot_index(p));
            }
        }
        Ok(stop)
    }

    /// The providers in use that do not run yet, with the options to start
    /// them: the interval at least a second and at least the default.
    pub fn start_active_data_providers(&self) -> (r: Vec<(Provider, ProviderStartOptions)>)
        requires
            self.well_formed(),
        ensures
            forall|i: int| 0 <= i < r.len() ==> {
                let (p, o) = #[trigger] r@[i];
                &&& self.view_of(p).refs > 0 && !self.view_of(p).running
                &&& o.interval_seconds == start_interval(self.view_of(p).interval_seconds, p)
                &&& ostr(o.network_iface) == self.view_of(p).network_iface
                &&& ostr(o.disk_path) == self.view_of(p).disk_path
                &&& ostr(o.compositor_output) == self.view_of(p).compositor_output
            },
            forall|p: Provider| self.view_of(p).refs > 0 && !self.view_of(p).running ==> exists|i: int|
                0 <= i < r.len() && (#[trigger] r@[i]).0 == p,
            forall|i: int, j: int| 0 <= i < j < r.len() ==> r@[i].0 != r@[j].0,
    {
        let mut out: Vec<(Provider, ProviderStartOptions)> = Vec::new();
        let mut k: usize = 0;
        while k < 9
            invariant
                k <= 9,
                self.well_formed(),
                forall|i: int| 0 <= i < out.len() ==> {
                    let (p, o) = #[trigger] out@[i];
                    &&& slot_index(p) < k
                    &&& self.view_of(p).refs > 0 && !self.view_of(p).running
                    &&& o.interval_seconds == start_interval(self.view_of(p).interval_seconds, p)
                    &&& ostr(o.network_iface) == self.view_of(p).network_iface
                    &&& ostr(o.disk_path) == self.view_of(p).disk_path
                    &&& ostr(o.compositor_output) == self.view_of(p).compositor_output
                },
                forall|p: Provider| slot_index(p) < k && self.view_of(p).refs > 0 && !self.view_of(p).running ==> exists|i: int|
                    0 <= i < out.len() && (#[trigger] out@[i]).0 == p,
                forall|i: int, j: int| 0 <= i < j < out.len() ==> slot_index(out@[i].0) < slot_index(out@[j].0),
            decreases 9 - k,
        {
            let p = provider_at(k);
            let st = &self.slots[k];
            if st.refs > 0 && !st.running {
                let d = p.default_interval();
                let base = if st.interval_seconds < 1 {
                    1
                } else {
                    st.interval_seconds
                };
                let interval = if base < d {
                    d
                } else {
                    base
                };
                let o = ProviderStartOptions {
                    interval_seconds: interval,
                    network_iface: clone_opt(&st.network_iface),
                    disk_path: clone_opt(&st.disk_path),
                    compositor_output: clone_opt(&st.compositor_output),
                };
                let ghost before = out@;
                out.push((p, o));
                proof {
                    assert(out@[out.len() - 1].0 == p);
                    assert forall|q: Provider| slot_index(q) < k + 1 && self.view_of(q).refs > 0 && !self.view_of(q).running implies exists|i: int|
                        0 <= i < out.len() && (#[trigger] out@[i]).0 == q by {
                        if slot_index(q) < k {
                            let i = choose|i: int| 0 <= i < before.len() && (#[trigger] before[i]).0 == q;
                            assert(out@[i] == before[i]);
                        } else {
                            assert(q == p);
                            assert(out@[out.len() - 1].0 == q);
                        }
                    }
                }
            } else {
                proof {
                    assert forall|q: Provider| slot_index(q) < k + 1 && self.view_of(q).refs > 0 && !self.view_of(q).running implies exists|i: int|
                        0 <= i < out.len() && (#[trigger] out@[i]).0 == q by {
                        if slot_index(q) == k {
                            assert(q == p);
                        }
                    }
                }
            }
            k += 1;
        }
        proof {
            assert forall|i: int, j: int| 0 <= i < j < out.len() implies out@[i].0 != out@[j].0 by {
                assert(slot_index(out@[i].0) < slot_index(out@[j].0));
            }
        }
        out
    }

    /// Every provider stops and loses its users; the result lists those the
    /// caller must stop.
    pub fn shutdown(&mut self) -> (r: Vec<Provider>)
        requires
            old(self).well_formed(),
        ensures
            final(self).well_formed(),
            forall|p: Provider| #[trigger] final(self).view_of(p) == (UseView {
                refs: 0,
                running: false,
                network_iface: None,
                disk_path: None,
                compositor_output: None,
                ..old(self).view_of(p)
            }),
            forall|p: Provider| old(self).view_of(p).running <==> r@.contains(p),
    {
        let mut out: Vec<Provider> = Vec::new();
        let mut k: usize = 0;
        while k < 9
            invariant
                k <= 9,
                self.slots.len() == 9,
                forall|j: int| k <= j < 9 ==> #[trigger] self.slots@[j] == old(self).slots@[j],
                forall|p: Provider| slot_index(p) < k ==> #[trigger] self.view_of(p) == (UseView {
                    refs: 0,
                    running: false,
                    network_iface: None,
                    disk_path: None,
                    compositor_output: None,
                    ..old(self).view_of(p)
                }),
                forall|p: Provider| slot_index(p) < k ==> (old(self).view_of(p).running <==> out@.contains(p)),
                forall|i: int| 0 <= i < out.len() ==> slot_index(#[trigger] out@[i]) < k,
            decreases 9 - k,
        {
            let p = provider_at(k);
            let ghost prev = self.slots@;
            assert forall|q: Provider| slot_index(q) < k implies prev[slot_index(q)]@ == (UseView {
                refs: 0,
                running: false,
                network_iface: None,
                disk_path: None,
                compositor_output: None,
                ..old(self).view_of(q)
            }) by {
                assert(self.view_of(q) == prev[slot_index(q)]@);
            }
            let mut st = DataProviderState::unused();
            std::mem::swap(&mut st, &mut self.slots[k]);
            assert(st == prev[k as int]);
            let ghost before = out@;
            if st.running {
                out.push(p);
            }
            st.running = false;
            st.refs = 0;
            st.network_iface = None;
            st.disk_path = None;
            st.compositor_output = None;
            self.slots.set(k, st);
            proof {
                assert forall|q: Provider| slot_index(q) < k + 1 implies #[trigger] self.view_of(q) == (UseView {
                    refs: 0,
                    running: false,
                    network_iface: None,
                    disk_path: None,
                    compositor_output: None,
                    ..old(self).view_of(q)
                }) by {
                    if slot_index(q) == k {
                        assert(prev[k as int] == old(self).slots@[k as int]);
                        assert(self.slots@[k as int] == st);
                        assert(st.interval_seconds == old(self).slots@[k as int].interval_seconds);
                        assert(self.view_of(q) == st@);
                    } else {
                        assert(self.slots@[slot_index(q)] == prev[slot_index(q)]);
                    }
                }
                assert forall|j: int| k + 1 <= j < 9 implies #[trigger] self.slots@[j] == old(self).slots@[j] by {
                    assert(self.slots@[j] == prev[j]);
                }
                assert forall|q: Provider| slot_index(q) < k + 1 implies (old(self).view_of(q).running <==> out@.contains(q)) by {
                    if slot_index(q) == k {
                        assert(q == p);
                        if old(self).view_of(q).running {
                            assert(out@[out.len() - 1] == q);
                        } else {
                            if out@.contains(q) {
                                let i = choose|i: int| 0 <= i < out.len() && out@[i] == q;
                                assert(slot_index(out@[i]) < k);
                            }
                        }
                    } else {
                        if out@.contains(q) && !before.contains(q) {
                            let i = choose|i: int| 0 <= i < out.len() && out@[i] == q;
                            if i < before.len() {
                                assert(before[i] == q);
                            }
                        }
                        if before.contains(q) {
                            let i = choose|i: int| 0 <= i < before.len() && before[i] == q;
                            assert(out@[i] == q);
                        }
                    }
                }
            }
            k += 1;
        }
        out
    }
}

/// The interval a provider starts with when the bus is attached: at least a
/// second, and at least its default.
pub open spec fn start_interval(configured: u32, p: Provider) -> u32 {
    let base = if configured < 1 { 1 } else { configured };
    if base < default_seconds(p) { default_seconds(p) } else { base }
}

fn clone_opt(v: &Option<String>) -> (r: Option<String>)
    ensures
        ostr(r) == ostr(*v),
{
    match v {
        Some(s) => Some(s.clone()),
        None => None,
    }
}

fn same_text(active: &Option<String>, requested: &String) -> (r: bool)
    ensures
        r == (ostr(*active) == Some(requested@)),
{
    match active {
        Some(a) => str_eq(a.as_str(), requested.as_str()),
        None => false,
    }
}

/// What a later user of a provider is answered: a differing interface (of
/// the network provider), path (of the disk provider) or output (of the
/// compositor provider) is reported with the one in use; otherwise the
/// provider is shared.
pub open spec fn later_use_outcome(
    r: UseOutcome,
    p: Provider,
    s: UseView,
    iface: Option<Seq<char>>,
    path: Option<Seq<char>>,
    output: Option<Seq<char>>,
) -> bool {
    if p == Provider::Network && iface is Some && s.network_iface != iface {
        r matches UseOutcome::IgnoredIface { active, requested } && ostr(active) == s.network_iface
            && Some(requested@) == iface
    } else if p == Provider::Disk && path is Some && s.disk_path != path {
        r matches UseOutcome::IgnoredPath { active, requested } && ostr(active) == s.disk_path
            && Some(requested@) == path
    } else if p == Provider::Compositor && output is Some && s.compositor_output != output {
        r matches UseOutcome::IgnoredOutput { active, requested } && ostr(active)
            == s.compositor_output && Some(requested@) == output
    } else {
        r is Shared
    }
}

fn ignored_setting(
    p: Provider,
    st: &DataProviderState,
    iface: Option<String>,
    path: Option<String>,
    output: Option<String>,
) -> (r: UseOutcome)
    ensures
        later_use_outcome(r, p, st@, ostr(iface), ostr(path), ostr(output)),
{
    if p == Provider::Network {
        if let Some(i) = iface {
            if !same_text(&st.network_iface, &i) {
                return UseOutcome::IgnoredIface { active: clone_opt(&st.network_iface), requested: i };
            }
        }
    }
    if p == Provider::Disk {
        if let Some(x) = path {
            if !same_text(&st.disk_path, &x) {
                return UseOutcome::IgnoredPath { active: clone_opt(&st.disk_path), requested: x };
            }
        }
    }
    if p == Provider::Compositor {
        if let Some(o) = output {
            if !same_text(&st.compositor_output, &o) {
                return UseOutcome::IgnoredOutput { active: clone_opt(&st.compositor_output), requested: o };
            }
        }
    }
    UseOutcome::Shared
}

/// A user who comes and goes leaves the count of users as it was.
pub proof fn law_use_then_unuse(
    s: UseView,
    p: Provider,
    interval: Option<u32>,
    iface: Option<Seq<char>>,
    path: Option<Seq<char>>,
    output: Option<Seq<char>>,
)
    requires
        s.refs < u32::MAX,
    ensures
        after_unuse(after_use(s, p, interval, iface, path, output)).refs == s.refs,
{
}

/// The state of a provider after `k` users left in turn.
pub open spec fn unused_times(s: UseView, k: nat) -> UseView
    decreases k,
{
    if k == 0 {
        s
    } else {
        after_unuse(unused_times(s, (k - 1) as nat))
    }
}

/// Whether a user leaving asks the caller to stop the provider (what
/// `data_unuse` returns).
pub open spec fn leave_stops(s: UseView) -> bool {
    s.refs == 1 && s.running
}

/// A running provider with `n` users keeps running while fewer than `n`
/// leave; the `n`-th leave, and only that one, stops it and forgets its
/// interface, path and output; later leaves change nothing.
pub proof fn law_leaves_until_last(s: UseView, k: nat)
    requires
        s.refs >= 1,
        s.running,
    ensures
        k < s.refs ==> unused_times(s, k) == (UseView { refs: (s.refs - k) as u32, ..s }),
        leave_stops(unused_times(s, k)) <==> k == s.refs - 1,
        k >= s.refs ==> unused_times(s, k) == (UseView {
            refs: 0,
            running: false,
            network_iface: None,
            disk_path: None,
            compositor_output: None,
            ..s
        }),
    decreases k,
{
    if k > 0 {
        law_leaves_until_last(s, (k - 1) as nat);
    }
}

/// When the last user of a running provider leaves, it stops; while users
/// remain, it keeps running.
pub proof fn law_last_user_stops(s: UseView)
    requires
        s.refs >= 1,
    ensures
        s.refs == 1 ==> !after_unuse(s).running,
        s.refs > 1 ==> after_unuse(s).running == s.running,
{
}

// ---------------------------------------------------------------------------
// Window visibility.
/// Whether each named window is visible; a name occurs once.
pub struct WindowVisibility {
    pub entries: Vec<(String, bool)>,
}

pub open spec fn vis_view(es: Seq<(String, bool)>) -> Seq<(Seq<char>, bool)> {
    es.map_values(|e: (String, bool)| (e.0@, e.1))
}

/// The visibility recorded for a name.
pub open spec fn visibility_of(es: Seq<(Seq<char>, bool)>, name: Seq<char>) -> Option<bool> {
    if exists|i: int| 0 <= i < es.len() && #[trigger] es[i].0 == name {
        Some(es[choose|i: int| 0 <= i < es.len() && #[trigger] es[i].0 == name].1)
    } else {
        None
    }
}

impl WindowVisibility {
    pub open spec fn view(&self) -> Seq<(Seq<char>, bool)> {
        vis_view(self.entries@)
    }

    /// No name occurs twice.
    pub open spec fn well_formed(&self) -> bool {
        forall|i: int, j: int| 0 <= i < j < self.entries.len() ==> self.view()[i].0 != self.view()[j].0
    }

    /// No window recorded.
    pub fn new() -> (r: Self)
        ensures
            r.well_formed(),
            forall|n: Seq<char>| visibility_of(r.view(), n) is None,
    {
        let r = WindowVisibility { entries: Vec::new() };
        assert(r.view() =~= Seq::<(Seq<char>, bool)>::empty());
        r
    }

    fn position(&self, name: &str) -> (r: Option<usize>)
        requires
            self.well_formed(),
        ensures
            r matches Some(i) ==> i < self.entries.len() && self.view()[i as int].0 == name@,
            r is None ==> forall|i: int| 0 <= i < self.entries.len() ==> self.view()[i].0 != name@,
    {
        let mut i: usize = 0;
        while i < self.entries.len()
            invariant
                i <= self.entries.len(),
                forall|j: int| 0 <= j < i ==> self.view()[j].0 != name@,
            decreases self.entries.len() - i,
        {
            if str_eq(self.entries[i].0.as_str(), name) {
                return Some(i);
            }
            i += 1;
        }
        None
    }

    /// Records whether a window is visible; the other windows keep theirs.
    pub fn set_window_visible(&mut self, name: &str, visible: bool)
        requires
            old(self).well_formed(),
        ensures
            final(self).well_formed(),
            visibility_of(final(self).view(), name@) == Some(visible),
            forall|n: Seq<char>| n != name@ ==> visibility_of(final(self).view(), n) == visibility_of(old(self).view(), n),
    {
        let ghost before = self.view();
        match self.position(name) {
            Some(i) => {
                let key = self.entries[i].0.clone();
                self.entries.set(i, (key, visible));
                assert(self.view() =~= before.update(i as int, (name@, visible)));
                proof {
                    assert(self.view()[i as int].0 == name@);
                    assert forall|n: Seq<char>| n != name@ implies visibility_of(self.view(), n) == visibility_of(before, n) by {
                        if exists|j: int| 0 <= j < before.len() && #[trigger] before[j].0 == n {
                            let j = choose|j: int| 0 <= j < before.len() && #[trigger] before[j].0 == n;
                            assert(self.view()[j].0 == n);
                        }
                        if exists|j: int| 0 <= j < self.view().len() && #[trigger] self.view()[j].0 == n {
                            let j = choose|j: int| 0 <= j < self.view().len() && #[trigger] self.view()[j].0 == n;
                            assert(before[j].0 == n);
                            let a = choose|j: int| 0 <= j < before.len() && #[trigger] before[j].0 == n;
                            let b = choose|j: int| 0 <= j < self.view().len() && #[trigger] self.view()[j].0 == n;
                            if a != b {
                                assert(before[b].0 == n);
                            }
                        }
                    }
                    let c = choose|j: int| 0 <= j < self.view().len() && #[trigger] self.view()[j].0 == name@;
                    if c != i {
                        assert(before[c].0 == name@);
                    }
                }
            },
            None => {
                self.entries.push((owned(name), visible));
                assert(self.view() =~= before.push((name@, visible)));
                proof {
                    let last = before.len() as int;
                    assert(self.view()[last].0 == name@);
                    let c = choose|j: int| 0 <= j < self.view().len() && #[trigger] self.view()[j].0 == name@;
                    assert(c == last);
                    assert forall|n: Seq<char>| n != name@ implies visibility_of(self.view(), n) == visibility_of(before, n) by {
                        if exists|j: int| 0 <= j < before.len() && #[trigger] before[j].0 == n {
                            let j = choose|j: int| 0 <= j < before.len() && #[trigger] before[j].0 == n;
                            assert(self.view()[j].0 == n);
                        }
                        if exists|j: int| 0 <= j < self.view().len() && #[trigger] self.view()[j].0 == n {
                            let j = choose|j: int| 0 <= j < self.view().len() && #[trigger] self.view()[j].0 == n;
                            assert(j != last);
                            assert(before[j].0 == n);
                            let a = choose|j: int| 0 <= j < before.len() && #[trigger] before[j].0 == n;
                            if a != j {
                                assert(before[a].0 == n);
                                assert(self.view()[a].0 == n);
                            }
                        }
                    }
                }
            },
        }
    }

    /// Whether a window is visible; a window never recorded is not.
    pub fn is_window_visible(&self, name: &str) -> (r: bool)
        requires
            self.well_formed(),
        ensures
            r == (visibility_of(self.view(), name@) == Some(true)),
    {
        match self.position(name) {
            Some(i) => {
                proof {
                    let c = choose|j: int| 0 <= j < self.view().len() && #[trigger] self.view()[j].0 == name@;
                    if c != i {
                        assert(self.view()[c].0 == name@);
                    }
                }
                self.entries[i].1
            },
            None => false,
        }
    }

    /// Applies a window command: opening shows, closing hides, toggling flips
    /// what is recorded (a window never recorded counts as hidden), and
    /// setting records the given visibility. Other windows keep theirs.
    pub fn apply_command(&mut self, cmd: &AppCommand)
        requires
            old(self).well_formed(),
        ensures
            final(self).well_formed(),
            visibility_of(final(self).view(), command_target(*cmd)) == Some(
                visible_after(*cmd, visibility_of(old(self).view(), command_target(*cmd))),
            ),
            forall|n: Seq<char>| n != command_target(*cmd) ==> visibility_of(final(self).view(), n)
                == visibility_of(old(self).view(), n),
    {
        match cmd {
            AppCommand::Open(name) => self.set_window_visible(name.as_str(), true),
            AppCommand::Close(name) => self.set_window_visible(name.as_str(), false),
            AppCommand::Toggle(name) => {
                let visible = self.is_window_visible(name.as_str());
                self.set_window_visible(name.as_str(), !visible);
            },
            AppCommand::SetVisible(name, visible) => self.set_window_visible(name.as_str(), *visible),
        }
    }

    /// The names of the windows recorded.
    pub fn window_names(&self) -> (r: Vec<String>)
        ensures
            crate::order::texts(r@) == self.view().map_values(|e: (Seq<char>, bool)| e.0),
    {
        let mut out: Vec<String> = Vec::new();
        let mut i: usize = 0;
        while i < self.entries.len()
            invariant
                i <= self.entries.len(),
                crate::order::texts(out@) == self.view().take(i as int).map_values(|e: (Seq<char>, bool)| e.0),
            decreases self.entries.len() - i,
        {
            let ghost before = crate::order::texts(out@);
            let name = self.entries[i].0.clone();
            out.push(name);
            assert(crate::order::texts(out@) =~= before.push(self.view()[i as int].0));
            assert(self.view().take(i + 1).map_values(|e: (Seq<char>, bool)| e.0) =~= self.view().take(
                i as int,
            ).map_values(|e: (Seq<char>, bool)| e.0).push(self.view()[i as int].0));
            i += 1;
        }
        assert(self.view().take(self.entries.len() as int) =~= self.view());
        out
    }
}

// ---------------------------------------------------------------------------
// On-screen displays.
/// A display shown when one of its signals changes, for a time.
#[derive(Debug)]
pub struct OsdBinding {
    pub signals: Vec<String>,
    pub timeout_ms: u64,
    pub active: bool,
}

/// The trimmed names that are not blank, in order.
pub open spec fn clean_signals(s: Seq<Seq<char>>) -> Seq<Seq<char>>
    decreases s.len(),
{
    if s.len() == 0 {
        seq![]
    } else if trim(s.last()).len() == 0 {
        clean_signals(s.drop_last())
    } else {
        clean_signals(s.drop_last()).push(trim(s.last()))
    }
}

/// What binding a display checks: a name that is not blank and at least one
/// signal that is not blank. The name and signals are trimmed and the
/// timeout is at least a millisecond.
pub fn osd_binding(name: &str, signals: &Vec<String>, timeout_ms: u64) -> (r: Result<(String, OsdBinding), String>)
    ensures
        trim(name@).len() == 0 ==> (r matches Err(e) && e@ == "osd name cannot be empty"@),
        trim(name@).len() > 0 && clean_signals(crate::order::texts(signals@)).len() == 0 ==> (r matches Err(e)
            && e@ == "osd signals cannot be empty"@),
        trim(name@).len() > 0 && clean_signals(crate::order::texts(signals@)).len() > 0 ==> (r matches Ok((n, b))
            && n@ == trim(name@) && crate::order::texts(b.signals@) == clean_signals(crate::order::texts(signals@))
            && b.timeout_ms == (if timeout_ms < 1 { 1 } else { timeout_ms }) && !b.active),
{
    let n = trim_str(name);
    if n.as_str().is_empty() {
        return Err(String::from_str("osd name cannot be empty"));
    }
    let ghost all = crate::order::texts(signals@);
    let mut kept: Vec<String> = Vec::new();
    let mut i: usize = 0;
    while i < signals.len()
        invariant
            i <= signals.len(),
            all == crate::order::texts(signals@),
            crate::order::texts(kept@) == clean_signals(all.take(i as int)),
        decreases signals.len() - i,
    {
        proof {
            assert(all.take(i + 1).drop_last() =~= all.take(i as int));
            assert(all.take(i + 1).last() == signals@[i as int]@);
        }
        let t = trim_str(signals[i].as_str());
        if !t.as_str().is_empty() {
            let ghost before = crate::order::texts(kept@);
            kept.push(t);
            assert(crate::order::texts(kept@) =~= before.push(trim(signals@[i as int]@)));
        }
        i += 1;
    }
    assert(all.take(signals.len() as int) =~= all);
    if kept.len() == 0 {
        return Err(String::from_str("osd signals cannot be empty"));
    }
    let t = if timeout_ms < 1 {
        1
    } else {
        timeout_ms
    };
    Ok((n, OsdBinding { signals: kept, timeout_ms: t, active: false }))
}

/// How long a display stays: its binding's timeout, 1200 ms without one,
/// at least a millisecond.
pub fn osd_timeout(binding: Option<&OsdBinding>) -> (r: u64)
    ensures
        r == match binding {
            Some(b) => if b.timeout_ms < 1 { 1 } else { b.timeout_ms },
            None => 1200,
        },
{
    let t = match binding {
        Some(b) => b.timeout_ms,
        None => 1200,
    };
    if t < 1 {
        1
    } else {
        t
    }
}

// ---------------------------------------------------------------------------
// Signal values set before the signal bus exists.
/// The signal values the configuration set before the signal bus was
/// attached, by name; the bus receives them when it is.
pub struct SignalValues {
    entries: Vec<(String, String)>,
}

impl View for SignalValues {
    type V = Seq<(Seq<char>, Seq<char>)>;

    closed spec fn view(&self) -> Seq<(Seq<char>, Seq<char>)> {
        text_pairs_view(self.entries@)
    }
}

impl SignalValues {
    /// No values.
    pub fn new() -> (r: Self)
        ensures
            r@ == Seq::<(Seq<char>, Seq<char>)>::empty(),
    {
        let r = SignalValues { entries: Vec::new() };
        assert(r@ =~= Seq::<(Seq<char>, Seq<char>)>::empty());
        r
    }

    /// Sets a value.
    pub fn set(&mut self, name: &str, value: &str)
        ensures
            final(self)@ == assoc_put(old(self)@, name@, value@),
    {
        put_text(&mut self.entries, String::from_str(name), String::from_str(value));
    }

    /// The value of a name, if it was set.
    pub fn get(&self, name: &str) -> (r: Option<String>)
        ensures
            crate::lua::opt_text(r) == assoc_get(self@, name@),
    {
        get_text_pair(&self.entries, name)
    }

    /// All values, in the order their names were first set.
    pub fn snapshot(&self) -> (r: Vec<(String, String)>)
        ensures
            text_pairs_view(r@) == self@,
    {
        let mut out: Vec<(String, String)> = Vec::new();
        let mut i: usize = 0;
        while i < self.entries.len()
            invariant
                i <= self.entries.len(),
                text_pairs_view(out@) == text_pairs_view(self.entries@.take(i as int)),
            decreases self.entries.len() - i,
        {
            let ghost before = text_pairs_view(out@);
            let e = (self.entries[i].0.clone(), self.entries[i].1.clone());
            out.push(e);
            assert(text_pairs_view(out@) =~= before.push(text_pairs_view(self.entries@)[i as int]));
            assert(text_pairs_view(self.entries@.take(i + 1)) =~= text_pairs_view(
                self.entries@.take(i as int),
            ).push(text_pairs_view(self.entries@)[i as int]));
            i += 1;
        }
        assert(self.entries@.take(self.entries.len() as int) =~= self.entries@);
        out
    }
}

/// A signal value reads back what was last set under its name, and setting
/// one name leaves the others as they were.
pub proof fn law_signal_read_after_write(
    values: Seq<(Seq<char>, Seq<char>)>,
    name: Seq<char>,
    value: Seq<char>,
    other: Seq<char>,
)
    ensures
        assoc_get(assoc_put(values, name, value), name) == Some(value),
        other != name ==> assoc_get(assoc_put(values, name, value), other) == assoc_get(
            values,
            other,
        ),
{
    lemma_assoc_get_put(values, name, value, other);
}

// ---------------------------------------------------------------------------
// The displays bound so far.
/// A binding as the contracts see it: its signals, its timeout, whether its
/// signals are being watched.
pub open spec fn binding_view(b: OsdBinding) -> (Seq<Seq<char>>, u64, bool) {
    (crate::order::texts(b.signals@), b.timeout_ms, b.active)
}

/// The views of named bindings.
pub open spec fn bindings_view(s: Seq<(String, OsdBinding)>) -> Seq<
    (Seq<char>, (Seq<Seq<char>>, u64, bool)),
> {
    s.map_values(|e: (String, OsdBinding)| (e.0@, binding_view(e.1)))
}

/// The bindings after each one with signals is marked as watched.
pub open spec fn all_watched(s: Seq<(Seq<char>, (Seq<Seq<char>>, u64, bool))>) -> Seq<
    (Seq<char>, (Seq<Seq<char>>, u64, bool)),
> {
    s.map_values(
        |e: (Seq<char>, (Seq<Seq<char>>, u64, bool))|
            (e.0, (e.1.0, e.1.1, e.1.2 || e.1.0.len() > 0)),
    )
}

/// A binding whose signals are to be watched and are not yet.
pub open spec fn unwatched(e: (Seq<char>, (Seq<Seq<char>>, u64, bool))) -> bool {
    !e.1.2 && e.1.0.len() > 0
}

/// The displays bound so far, by name, in the order they were first bound.
pub struct OsdBindings {
    entries: Vec<(String, OsdBinding)>,
}

impl View for OsdBindings {
    type V = Seq<(Seq<char>, (Seq<Seq<char>>, u64, bool))>;

    closed spec fn view(&self) -> Seq<(Seq<char>, (Seq<Seq<char>>, u64, bool))> {
        bindings_view(self.entries@)
    }
}

fn copy_strings(v: &Vec<String>) -> (r: Vec<String>)
    ensures
        crate::order::texts(r@) == crate::order::texts(v@),
{
    let mut out: Vec<String> = Vec::new();
    let mut i: usize = 0;
    while i < v.len()
        invariant
            i <= v.len(),
            crate::order::texts(out@) == crate::order::texts(v@.take(i as int)),
        decreases v.len() - i,
    {
        let ghost before = crate::order::texts(out@);
        out.push(v[i].clone());
        assert(crate::order::texts(out@) =~= before.push(v@[i as int]@));
        assert(crate::order::texts(v@.take(i + 1)) =~= crate::order::texts(v@.take(i as int)).push(
            v@[i as int]@,
        ));
        i += 1;
    }
    assert(v@.take(v.len() as int) =~= v@);
    out
}

impl OsdBindings {
    /// No displays bound.
    pub fn new() -> (r: Self)
        ensures
            r@.len() == 0,
    {
        let r = OsdBindings { entries: Vec::new() };
        assert(r@ =~= seq![]);
        r
    }

    /// Binds a display to signals for a time (see [`osd_binding`]); binding
    /// it again replaces its signals and timeout and watches them anew. A
    /// refused binding changes nothing.
    pub fn bind(&mut self, name: &str, signals: &Vec<String>, timeout_ms: u64) -> (r: Result<
        (),
        String,
    >)
        ensures
            trim(name@).len() == 0 ==> (r matches Err(e) && e@ == "osd name cannot be empty"@)
                && final(self)@ == old(self)@,
            trim(name@).len() > 0 && clean_signals(crate::order::texts(signals@)).len() == 0 ==> (r matches Err(e)
                && e@ == "osd signals cannot be empty"@) && final(self)@ == old(self)@,
            trim(name@).len() > 0 && clean_signals(crate::order::texts(signals@)).len() > 0 ==> r
                is Ok && final(self)@ == assoc_put(
                old(self)@,
                trim(name@),
                (
                    clean_signals(crate::order::texts(signals@)),
                    if timeout_ms < 1 {
                        1
                    } else {
                        timeout_ms
                    },
                    false,
                ),
            ),
    {
        let (n, b) = osd_binding(name, signals, timeout_ms)?;
        let ghost s = self@;
        let ghost p = keyed_by::<(Seq<Seq<char>>, u64, bool)>(n@);
        let mut i: usize = 0;
        while i < self.entries.len()
            invariant
                i <= self.entries.len(),
                s == bindings_view(self.entries@),
                s == old(self)@,
                p == keyed_by::<(Seq<Seq<char>>, u64, bool)>(n@),
                forall|j: int| 0 <= j < i ==> !p(#[trigger] s[j]),
                trim(name@).len() > 0,
                clean_signals(crate::order::texts(signals@)).len() > 0,
                n@ == trim(name@),
                binding_view(b) == (
                    clean_signals(crate::order::texts(signals@)),
                    if timeout_ms < 1 {
                        1
                    } else {
                        timeout_ms
                    },
                    false,
                ),
            decreases self.entries.len() - i,
        {
            if str_eq(self.entries[i].0.as_str(), n.as_str()) {
                proof {
                    crate::seqs::lemma_first_match_some(s, p, i as int);
                }
                let ghost kv = n@;
                let ghost bv = binding_view(b);
                self.entries.set(i, (n, b));
                assert(self@ =~= s.update(i as int, (kv, bv)));
                return Ok(());
            }
            i += 1;
        }
        proof {
            crate::seqs::lemma_first_match_none(s, p);
        }
        let ghost kv = n@;
        let ghost bv = binding_view(b);
        self.entries.push((n, b));
        assert(self@ =~= s.push((kv, bv)));
        Ok(())
    }

    /// Marks each binding whose signals are not watched yet as watched, and
    /// returns those bindings' names and signals, for the caller to watch.
    pub fn watch_pending(&mut self) -> (r: Vec<(String, Vec<String>)>)
        ensures
            final(self)@ == all_watched(old(self)@),
            r@.map_values(|e: (String, Vec<String>)| (e.0@, crate::order::texts(e.1@))) == old(
                self,
            )@.filter(|e: (Seq<char>, (Seq<Seq<char>>, u64, bool))| unwatched(e)).map_values(
                |e: (Seq<char>, (Seq<Seq<char>>, u64, bool))| (e.0, e.1.0),
            ),
    {
        let ghost s = self@;
        let ghost f = |e: (Seq<char>, (Seq<Seq<char>>, u64, bool))| unwatched(e);
        let ghost g = |e: (Seq<char>, (Seq<Seq<char>>, u64, bool))| (e.0, e.1.0);
        let ghost h = |e: (String, Vec<String>)| (e.0@, crate::order::texts(e.1@));
        let mut out: Vec<(String, Vec<String>)> = Vec::new();
        let mut i: usize = 0;
        while i < self.entries.len()
            invariant
                i <= self.entries.len(),
                s == old(self)@,
                self.entries@.len() == s.len(),
                f == (|e: (Seq<char>, (Seq<Seq<char>>, u64, bool))| unwatched(e)),
                g == (|e: (Seq<char>, (Seq<Seq<char>>, u64, bool))| (e.0, e.1.0)),
                h == (|e: (String, Vec<String>)| (e.0@, crate::order::texts(e.1@))),
                forall|j: int| 0 <= j < i ==> #[trigger] self@[j] == all_watched(s)[j],
                forall|j: int| i <= j < s.len() ==> #[trigger] self@[j] == s[j],
                out@.map_values(h) == s.take(i as int).filter(f).map_values(g),
            decreases self.entries.len() - i,
        {
            proof {
                assert(s.take(i + 1).drop_last() =~= s.take(i as int));
                reveal(Seq::filter);
                assert(self@[i as int] == s[i as int]);
            }
            let ghost before = out@.map_values(h);
            if !self.entries[i].1.active && self.entries[i].1.signals.len() > 0 {
                let name = self.entries[i].0.clone();
                let sigs = copy_strings(&self.entries[i].1.signals);
                out.push((name, sigs));
                assert(out@.map_values(h) =~= before.push(g(s[i as int])));
                let ghost old_entries = self.entries@;
                let ghost e = self.entries@[i as int];
                let key = self.entries[i].0.clone();
                let signals = copy_strings(&self.entries[i].1.signals);
                let timeout = self.entries[i].1.timeout_ms;
                self.entries.set(i, (key, OsdBinding { signals, timeout_ms: timeout, active: true }));
                assert forall|j: int| 0 <= j < s.len() && j != i implies #[trigger] self@[j]
                    == bindings_view(old_entries)[j] by {
                    assert(self.entries@[j] == old_entries[j]);
                }
            } else {
                assert(out@.map_values(h) =~= before);
            }
            assert(s.take(i + 1).filter(f).map_values(g) =~= if f(s[i as int]) {
                s.take(i as int).filter(f).map_values(g).push(g(s[i as int]))
            } else {
                s.take(i as int).filter(f).map_values(g)
            });
            i += 1;
        }
        assert(s.take(s.len() as int) =~= s);
        assert(self@ =~= all_watched(s));
        out
    }

    /// How long a display stays (see [`osd_timeout`]).
    pub fn timeout_of(&self, name: &str) -> (r: u64)
        ensures
            r == match assoc_get(self@, name@) {
                Some(b) => if b.1 < 1 {
                    1
                } else {
                    b.1
                },
                None => 1200,
            },
    {
        let ghost s = self@;
        let ghost p = keyed_by::<(Seq<Seq<char>>, u64, bool)>(name@);
        let mut i: usize = 0;
        while i < self.entries.len()
            invariant
                i <= self.entries.len(),
                s == self@,
                p == keyed_by::<(Seq<Seq<char>>, u64, bool)>(name@),
                forall|j: int| 0 <= j < i ==> !p(#[trigger] s[j]),
            decreases self.entries.len() - i,
        {
            if str_eq(self.entries[i].0.as_str(), name) {
                proof {
                    crate::seqs::lemma_first_match_some(s, p, i as int);
                }
                return osd_timeout(Some(&self.entries[i].1));
            }
            i += 1;
        }
        proof {
            crate::seqs::lemma_first_match_none(s, p);
        }
        osd_timeout(None)
    }

    /// Stops watching every binding's signals; the bindings stay.
    pub fn unwatch_all(&mut self)
        ensures
            final(self)@ == old(self)@.map_values(
                |e: (Seq<char>, (Seq<Seq<char>>, u64, bool))| (e.0, (e.1.0, e.1.1, false)),
            ),
    {
        let ghost s = self@;
        let mut i: usize = 0;
        while i < self.entries.len()
            invariant
                i <= self.entries.len(),
                s == old(self)@,
                self.entries@.len() == s.len(),
                forall|j: int| 0 <= j < i ==> #[trigger] self@[j] == (s[j].0, (s[j].1.0, s[j].1.1, false)),
                forall|j: int| i <= j < s.len() ==> #[trigger] self@[j] == s[j],
            decreases self.entries.len() - i,
        {
            let ghost old_entries = self.entries@;
            assert(self@[i as int] == s[i as int]);
            assert(bindings_view(old_entries)[i as int] == s[i as int]);
            let key = self.entries[i].0.clone();
            let signals = copy_strings(&self.entries[i].1.signals);
            let timeout = self.entries[i].1.timeout_ms;
            self.entries.set(i, (key, OsdBinding { signals, timeout_ms: timeout, active: false }));
            assert(self.entries@[i as int].0@ == old_entries[i as int].0@);
            assert(self@[i as int] == (s[i as int].0, (s[i as int].1.0, s[i as int].1.1, false)));
            assert forall|j: int| 0 <= j < s.len() && j != i implies #[trigger] self@[j]
                == bindings_view(old_entries)[j] by {
                assert(self.entries@[j] == old_entries[j]);
            }
            i += 1;
        }
        assert(self@ =~= s.map_values(
            |e: (Seq<char>, (Seq<Seq<char>>, u64, bool))| (e.0, (e.1.0, e.1.1, false)),
        ));
    }
}


/// The window a command is about.
pub open spec fn command_target(cmd: AppCommand) -> Seq<char> {
    match cmd {
        AppCommand::Open(n) => n@,
        AppCommand::Close(n) => n@,
        AppCommand::Toggle(n) => n@,
        AppCommand::SetVisible(n, _) => n@,
    }
}

/// Whether a window is visible after a command, given what was recorded.
pub open spec fn visible_after(cmd: AppCommand, before: Option<bool>) -> bool {
    match cmd {
        AppCommand::Open(_) => true,
        AppCommand::Close(_) => false,
        AppCommand::Toggle(_) => before != Some(true),
        AppCommand::SetVisible(_, v) => v,
    }
}

/// Toggling a window twice leaves it as visible as it was, once it has been
/// recorded; a window never recorded ends up hidden.
pub proof fn law_toggle_twice(name: String, before: Option<bool>)
    ensures
        visible_after(AppCommand::Toggle(name), Some(visible_after(AppCommand::Toggle(name), before)))
            == (before == Some(true)),
{
}

} // verus!
