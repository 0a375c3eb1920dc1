//! The data providers a configuration can ask for, their default intervals,
//! and the figures the processor and memory providers publish.
use vstd::prelude::*;

use crate::text::str_eq;

verus! {

/// A source of data the bar can subscribe to.
#[derive(Debug, Clone, Copy, PartialEq, Eq, Structural, Hash)]
pub enum Provider {
    Cpu,
    Memory,
    Network,
    Disk,
    Battery,
    Audio,
    Bluetooth,
    Mpris,
    Compositor,
}

/// The name of a provider in the configuration language.
pub open spec fn provider_name(p: Provider) -> Seq<char> {
    match p {
        Provider::Cpu => "cpu"@,
        Provider::Memory => "memory"@,
        Provider::Network => "network"@,
        Provider::Disk => "disk"@,
        Provider::Battery => "battery"@,
        Provider::Audio => "audio"@,
        Provider::Bluetooth => "bluetooth"@,
        Provider::Mpris => "mpris"@,
        Provider::Compositor => "compositor"@,
    }
}

/// The provider a name stands for.
pub open spec fn provider_named(s: Seq<char>) -> Option<Provider> {
    if s == "cpu"@ {
        Some(Provider::Cpu)
    } else if s == "memory"@ {
        Some(Provider::Memory)
    } else if s == "network"@ {
        Some(Provider::Network)
    } else if s == "disk"@ {
        Some(Provider::Disk)
    } else if s == "battery"@ {
        Some(Provider::Battery)
    } else if s == "audio"@ {
        Some(Provider::Audio)
    } else if s == "bluetooth"@ {
        Some(Provider::Bluetooth)
    } else if s == "mpris"@ {
        Some(Provider::Mpris)
    } else if s == "compositor"@ {
        Some(Provider::Compositor)
    } else {
        None
    }
}

/// Seconds between two collections when the configuration gives none.
pub open spec fn default_seconds(p: Provider) -> u32 {
    match p {
        Provider::Cpu => 2,
        Provider::Memory => 3,
        Provider::Network => 1,
        Provider::Disk => 10,
        Provider::Battery => 10,
        Provider::Audio => 10,
        Provider::Bluetooth => 120,
        Provider::Mpris => 20,
        Provider::Compositor => 1,
    }
}

impl Provider {
    /// The provider a name stands for (exact, lower case).
    pub fn parse(name: &str) -> (r: Option<Provider>)
        ensures
            r == provider_named(name@),
    {
        if str_eq(name, "cpu") {
            Some(Provider::Cpu)
        } else if str_eq(name, "memory") {
            Some(Provider::Memory)
        } else if str_eq(name, "network") {
            Some(Provider::Network)
        } else if str_eq(name, "disk") {
            Some(Provider::Disk)
        } else if str_eq(name, "battery") {
            Some(Provider::Battery)
        } else if str_eq(name, "audio") {
            Some(Provider::Audio)
        } else if str_eq(name, "bluetooth") {
            Some(Provider::Bluetooth)
        } else if str_eq(name, "mpris") {
            Some(Provider::Mpris)
        } else if str_eq(name, "compositor") {
            Some(Provider::Compositor)
        } else {
            None
        }
    }

    /// The provider's name.
    pub fn as_str(self) -> (r: &'static str)
        ensures
            r@ == provider_name(self),
    {
        match self {
            Provider::Cpu => "cpu",
            Provider::Memory => "memory",
            Provider::Network => "network",
            Provider::Disk => "disk",
            Provider::Battery => "battery",
            Provider::Audio => "audio",
            Provider::Bluetooth => "bluetooth",
            Provider::Mpris => "mpris",
            Provider::Compositor => "compositor",
        }
    }

    /// Seconds between two collections by default.
    pub fn default_interval(self) -> (r: u32)
        ensures
            r == default_seconds(self),
    {
        match self {
            Provider::Cpu => 2,
            Provider::Memory => 3,
            Provider::Network => 1,
            Provider::Disk => 10,
            Provider::Battery => 10,
            Provider::Audio => 10,
            Provider::Bluetooth => 120,
            Provider::Mpris => 20,
            Provider::Compositor => 1,
        }
    }
}

/// Every provider's name is read back as that provider.
pub proof fn law_provider_name_round_trip(p: Provider)
    ensures
        provider_named(provider_name(p)) == Some(p),
{
    reveal_strlit("cpu");
    reveal_strlit("memory");
    reveal_strlit("network");
    reveal_strlit("disk");
    reveal_strlit("battery");
    reveal_strlit("audio");
    reveal_strlit("bluetooth");
    reveal_strlit("mpris");
    reveal_strlit("compositor");
    assert("cpu"@.len() == 3);
    assert("memory"@.len() == 6);
    assert("network"@.len() == 7);
    assert("disk"@.len() == 4);
    assert("battery"@.len() == 7);
    assert("audio"@.len() == 5);
    assert("bluetooth"@.len() == 9);
    assert("mpris"@.len() == 5);
    assert("compositor"@.len() == 10);
    assert("network"@[0] != "battery"@[0]);
    assert("audio"@[0] != "mpris"@[0]);
}

/// Every provider waits at least a second between collections by default.
pub proof fn law_default_interval_positive(p: Provider)
    ensures
        default_seconds(p) >= 1,
{
}

/// What starting a provider is given besides the provider itself.
#[derive(Debug)]
pub struct ProviderStartOptions {
    pub interval_seconds: u32,
    pub network_iface: Option<String>,
    pub disk_path: Option<String>,
    pub compositor_output: Option<String>,
}

impl Default for ProviderStartOptions {
    fn default() -> (r: Self)
        ensures
            r.interval_seconds == 0,
            r.network_iface is None,
            r.disk_path is None,
            r.compositor_output is None,
    {
        ProviderStartOptions { interval_seconds: 0, network_iface: None, disk_path: None, compositor_output: None }
    }
}

impl ProviderStartOptions {
    /// The interval a provider runs with: the configured one, at least a
    /// second.
    pub fn effective_interval(&self) -> (r: u32)
        ensures
            r == if self.interval_seconds < 1 { 1 } else { self.interval_seconds },
    {
        if self.interval_seconds < 1 {
            1
        } else {
            self.interval_seconds
        }
    }
}

/// Why a collection runs.
#[derive(Debug, Clone, Copy, PartialEq, Eq, Structural)]
pub enum CollectReason {
    Initial,
    Event,
    Interval,
}

/// `a + b`, or the largest `u64` when that overflows.
pub open spec fn sat_add(a: u64, b: u64) -> u64 {
    if a + b > u64::MAX {
        u64::MAX
    } else {
        (a + b) as u64
    }
}

/// `a - b`, or zero when that would be negative.
pub open spec fn sat_sub(a: u64, b: u64) -> u64 {
    if a < b {
        0
    } else {
        (a - b) as u64
    }
}

pub open spec fn or_zero(v: Option<u64>) -> u64 {
    match v {
        Some(x) => x,
        None => 0,
    }
}

/// The processor time counters since boot, in ticks; the optional ones are
/// missing on older kernels.
#[derive(Debug, Clone, Copy)]
pub struct CpuTimes {
    pub user: u64,
    pub nice: u64,
    pub system: u64,
    pub idle: u64,
    pub iowait: Option<u64>,
    pub irq: Option<u64>,
    pub softirq: Option<u64>,
    pub steal: Option<u64>,
    pub guest: Option<u64>,
    pub guest_nice: Option<u64>,
}

/// User, system, idle and total ticks: user counts niced time, idle counts
/// I/O wait, the total counts everything; each sum saturates.
pub open spec fn cpu_totals(t: CpuTimes) -> (u64, u64, u64, u64) {
    let user = sat_add(t.user, t.nice);
    let system = t.system;
    let idle = sat_add(t.idle, or_zero(t.iowait));
    let total = sat_add(
        sat_add(
            sat_add(
                sat_add(sat_add(sat_add(sat_add(user, system), idle), or_zero(t.irq)), or_zero(t.softirq)),
                or_zero(t.steal),
            ),
            or_zero(t.guest),
        ),
        or_zero(t.guest_nice),
    );
    (user, system, idle, total)
}

/// `x`, or the largest `u64` when it is larger.
pub open spec fn capped(x: int) -> int {
    if x > u64::MAX {
        u64::MAX as int
    } else {
        x
    }
}

/// The total ticks are the sum of all the counters, and user and idle ticks
/// the sums of their two counters, each capped at the largest `u64`; so the
/// total is at least the user, system and idle ticks, and equals their sum
/// with the interrupt, steal and guest counters where that fits.
pub proof fn law_cpu_total_sums_counters(t: CpuTimes)
    ensures
        cpu_totals(t).0 == capped(t.user + t.nice),
        cpu_totals(t).1 == t.system,
        cpu_totals(t).2 == capped(t.idle + or_zero(t.iowait)),
        cpu_totals(t).3 == capped(
            t.user + t.nice + t.system + t.idle + or_zero(t.iowait) + or_zero(t.irq) + or_zero(t.softirq)
                + or_zero(t.steal) + or_zero(t.guest) + or_zero(t.guest_nice),
        ),
        cpu_totals(t).3 == capped(
            cpu_totals(t).0 + cpu_totals(t).1 + cpu_totals(t).2 + or_zero(t.irq) + or_zero(t.softirq)
                + or_zero(t.steal) + or_zero(t.guest) + or_zero(t.guest_nice),
        ),
        cpu_totals(t).3 >= cpu_totals(t).0,
        cpu_totals(t).3 >= cpu_totals(t).1,
        cpu_totals(t).3 >= cpu_totals(t).2,
        cpu_totals(t).0 + cpu_totals(t).1 + cpu_totals(t).2 <= u64::MAX ==> cpu_totals(t).3
            >= cpu_totals(t).0 + cpu_totals(t).1 + cpu_totals(t).2,
{
}

fn opt_or_zero(v: Option<u64>) -> (r: u64)
    ensures
        r == or_zero(v),
{
    match v {
        Some(x) => x,
        None => 0,
    }
}

/// User, system, idle and total ticks.
pub fn totals(t: &CpuTimes) -> (r: (u64, u64, u64, u64))
    ensures
        r == cpu_totals(*t),
{
    let user = t.user.saturating_add(t.nice);
    let system = t.system;
    let idle = t.idle.saturating_add(opt_or_zero(t.iowait));
    let total = user.saturating_add(system).saturating_add(idle).saturating_add(opt_or_zero(t.irq)).saturating_add(
        opt_or_zero(t.softirq),
    ).saturating_add(opt_or_zero(t.steal)).saturating_add(opt_or_zero(t.guest)).saturating_add(
        opt_or_zero(t.guest_nice),
    );
    (user, system, idle, total)
}

/// The counters kept between two processor collections.
#[derive(Debug, Clone, Copy)]
pub struct CpuTotals {
    pub total_ticks: u64,
    pub idle_ticks: u64,
}

/// The ticks that passed and the idle ticks among them since the previous
/// collection, each at least zero.
pub fn cpu_deltas(prev: CpuTotals, total_ticks: u64, idle_ticks: u64) -> (r: (u64, u64))
    ensures
        r == (sat_sub(total_ticks, prev.total_ticks), sat_sub(idle_ticks, prev.idle_ticks)),
{
    (total_ticks.saturating_sub(prev.total_ticks), idle_ticks.saturating_sub(prev.idle_ticks))
}

/// Memory in bytes: used, available, and the total, used and available
/// mebibytes; nothing when the total is zero. Available memory is the
/// kernel's estimate, or the free memory when it has none.
pub open spec fn memory_figures(total: u64, available: Option<u64>, free: u64) -> Option<(u64, u64, u64, u64, u64)> {
    let avail = match available {
        Some(a) => a,
        None => free,
    };
    if total == 0 {
        None
    } else {
        let used = sat_sub(total, avail);
        Some((used, avail, total / 1024 / 1024, used / 1024 / 1024, avail / 1024 / 1024))
    }
}

/// Used and available bytes, and total, used and available mebibytes.
pub fn memory_usage(total: u64, available: Option<u64>, free: u64) -> (r: Option<(u64, u64, u64, u64, u64)>)
    ensures
        r == memory_figures(total, available, free),
{
    let avail = match available {
        Some(a) => a,
        None => free,
    };
    if total == 0 {
        return None;
    }
    let used = total.saturating_sub(avail);
    Some((used, avail, total / 1024 / 1024, used / 1024 / 1024, avail / 1024 / 1024))
}

/// `a * b`, or the largest `u64` when that overflows.
pub open spec fn sat_mul(a: u64, b: u64) -> u64 {
    if a * b > u64::MAX {
        u64::MAX
    } else {
        (a * b) as u64
    }
}

/// Total, free and used bytes of a file system from its block counts, the
/// fragment size (or the block size when that is zero) giving the unit;
/// nothing when that unit or the total is zero.
pub open spec fn disk_figures(frsize: u64, bsize: u64, blocks: u64, bavail: u64) -> Option<(u64, u64, u64)> {
    let unit = if frsize > 0 { frsize } else { bsize };
    if unit == 0 {
        None
    } else {
        let total = sat_mul(blocks, unit);
        let free = sat_mul(bavail, unit);
        if total == 0 {
            None
        } else {
            Some((total, free, sat_sub(total, free)))
        }
    }
}

/// Total, free and used bytes of a file system.
pub fn disk_usage(frsize: u64, bsize: u64, blocks: u64, bavail: u64) -> (r: Option<(u64, u64, u64)>)
    ensures
        r == disk_figures(frsize, bsize, blocks, bavail),
{
    let unit = if frsize > 0 {
        frsize
    } else {
        bsize
    };
    if unit == 0 {
        return None;
    }
    let total = match blocks.checked_mul(unit) {
        Some(v) => v,
        None => u64::MAX,
    };
    let free = match bavail.checked_mul(unit) {
        Some(v) => v,
        None => u64::MAX,
    };
    if total == 0 {
        return None;
    }
    Some((total, free, total.saturating_sub(free)))
}

/// What the audio provider reports of the default sink.
#[derive(Debug)]
pub struct AudioSnapshot {
    pub volume: u32,
    pub muted: bool,
    pub sink: String,
}

/// Whether a new audio snapshot is sent: only when it differs from the last
/// one sent.
pub fn audio_changed(last: &Option<AudioSnapshot>, next: &AudioSnapshot) -> (r: bool)
    ensures
        r == match last {
            Some(l) => !(l.volume == next.volume && l.muted == next.muted && l.sink@ == next.sink@),
            None => true,
        },
{
    match last {
        Some(l) => !(l.volume == next.volume && l.muted == next.muted && str_eq(l.sink.as_str(), next.sink.as_str())),
        None => true,
    }
}

/// Whether the default sink is asked by its cached name, without asking the
/// server which sink is the default: unless a server refresh is forced or
/// no name is cached.
pub fn use_cached_sink(force_server_refresh: bool, cached_sink_name: &str) -> (r: bool)
    ensures
        r == (!force_server_refresh && crate::text::trim(cached_sink_name@).len() > 0),
{
    !force_server_refresh && !crate::text::is_blank(cached_sink_name)
}

} // verus!
