//! The network provider: byte counters from `/proc/net/dev`, the interface
//! of the default route from `/proc/net/route`, the wireless line of
//! `/proc/net/wireless`, and the published snapshot.
use vstd::prelude::*;

use crate::order::texts;
use crate::provider::{sat_add, CollectReason};
use crate::hyprland::opt_string;
use crate::seqs::{after, first_match, lemma_first_match_none, lemma_first_match_some};
use crate::text::{
    decimal, digit_value, find_char, is_digit, lines, owned, split_lines, split_once_char,
    split_words, str_eq, trim, trim_str, u64_to_string, words,
};

verus! {

// ---------------------------------------------------------------------------
// Reading unsigned numbers.
/// How reading a `u64` fails, scanning left to right: an empty text, a
/// character that is not a digit (a lone sign too), or a value past the
/// largest `u64`, whichever comes first.
pub open spec fn u64_error(s: Seq<char>) -> Option<Seq<char>> {
    if s.len() == 0 {
        Some("cannot parse integer from empty string"@)
    } else if s.len() == 1 && (s[0] == '+' || s[0] == '-') {
        Some("invalid digit found in string"@)
    } else {
        scan_error(if s[0] == '+' { s.drop_first() } else { s }, 0, 0)
    }
}

/// The first failure reading `s[i..]` into a value that so far is `acc`.
pub open spec fn scan_error(s: Seq<char>, i: int, acc: nat) -> Option<Seq<char>>
    decreases s.len() - i,
{
    if i < 0 || i >= s.len() {
        None
    } else if !is_digit(s[i]) {
        Some("invalid digit found in string"@)
    } else if acc * 10 + digit_value(s[i]) > u64::MAX {
        Some("number too large to fit in target type"@)
    } else {
        scan_error(s, i + 1, acc * 10 + digit_value(s[i]))
    }
}

/// The value of the digits `s[i..]` after `acc`.
pub open spec fn scan_value(s: Seq<char>, i: int, acc: nat) -> nat
    decreases s.len() - i,
{
    if i < 0 || i >= s.len() {
        acc
    } else {
        scan_value(s, i + 1, acc * 10 + digit_value(s[i]))
    }
}

/// A `u64` read from text, or why it cannot be read.
pub open spec fn read_u64(s: Seq<char>) -> Result<u64, Seq<char>> {
    match u64_error(s) {
        Some(e) => Err(e),
        None => Ok(scan_value(if s[0] == '+' { s.drop_first() } else { s }, 0, 0) as u64),
    }
}

fn char_digit(c: char) -> (d: u64)
    requires
        is_digit(c),
    ensures
        d == digit_value(c),
{
    (c as u32 - 48) as u64
}

/// Reads a `u64` as `str::parse` does, with its error messages.
pub fn parse_u64_text(s: &str) -> (r: Result<u64, String>)
    ensures
        r matches Ok(v) ==> read_u64(s@) == Ok::<u64, Seq<char>>(v),
        r matches Err(e) ==> read_u64(s@) == Err::<u64, Seq<char>>(e@),
{
    let v = crate::text::chars_vec(s);
    if v.len() == 0 {
        return Err(String::from_str("cannot parse integer from empty string"));
    }
    if v.len() == 1 && (v[0] == '+' || v[0] == '-') {
        return Err(String::from_str("invalid digit found in string"));
    }
    let start: usize = if v[0] == '+' {
        1
    } else {
        0
    };
    let ghost body = if s@[0] == '+' { s@.drop_first() } else { s@ };
    assert(body =~= v@.skip(start as int));
    let mut acc: u64 = 0;
    let mut i: usize = start;
    while i < v.len()
        invariant
            start <= i <= v.len(),
            v@ == s@,
            v.len() > 0,
            !(v.len() == 1 && (v@[0] == '+' || v@[0] == '-')),
            start == (if v@[0] == '+' { 1usize } else { 0usize }),
            body == (if s@[0] == '+' { s@.drop_first() } else { s@ }),
            body == v@.skip(start as int),
            scan_error(body, 0, 0) == scan_error(body, i - start, acc as nat),
            scan_value(body, 0, 0) == scan_value(body, i - start, acc as nat),
        decreases v.len() - i,
    {
        assert(body[i - start] == v@[i as int]);
        let c = v[i];
        if !crate::text::is_ascii_digit(c) {
            return Err(String::from_str("invalid digit found in string"));
        }
        let d = char_digit(c);
        if acc > (u64::MAX - d) / 10 {
            assert(acc * 10 + d > u64::MAX) by (nonlinear_arith)
                requires
                    acc > (u64::MAX - d) / 10,
                    d <= 9,
            ;
            return Err(String::from_str("number too large to fit in target type"));
        }
        assert(acc * 10 + d <= u64::MAX) by (nonlinear_arith)
            requires
                acc <= (u64::MAX - d) / 10,
                d <= 9,
        ;
        acc = acc * 10 + d;
        i += 1;
    }
    Ok(acc)
}

// ---------------------------------------------------------------------------
// Byte counters.
/// An interface line of `/proc/net/dev`: the trimmed name before the first
/// colon and the whitespace-separated fields after it.
pub open spec fn colon_line(line: Seq<char>) -> Option<(Seq<char>, Seq<Seq<char>>)> {
    match find_char(line, ':') {
        Some(k) => Some((trim(line.take(k)), words(line.skip(k + 1)))),
        None => None,
    }
}

/// Received and sent bytes so far and whether an interface counted.
pub struct DevSum {
    pub down: u64,
    pub up: u64,
    pub matched: bool,
}

/// Whether an interface counts: the filtered one, or any but loopback.
pub open spec fn counts_iface(iface: Seq<char>, filter: Option<Seq<char>>) -> bool {
    match filter {
        Some(f) => iface == f,
        None => iface != "lo"@,
    }
}

/// One line's effect on the sums; an unreadable counter stops the reading.
pub open spec fn dev_step(acc: Result<DevSum, Seq<char>>, line: Seq<char>, filter: Option<Seq<char>>) -> Result<DevSum, Seq<char>> {
    match acc {
        Err(e) => Err(e),
        Ok(sum) => match colon_line(line) {
            None => Ok(sum),
            Some((iface, fields)) => if !counts_iface(iface, filter) || fields.len() < 16 {
                Ok(sum)
            } else {
                match read_u64(fields[0]) {
                    Err(e) => Err(e),
                    Ok(rx) => match read_u64(fields[8]) {
                        Err(e) => Err(e),
                        Ok(tx) => Ok(DevSum { down: sat_add(sum.down, rx), up: sat_add(sum.up, tx), matched: true }),
                    },
                }
            },
        },
    }
}

pub open spec fn dev_fold(ls: Seq<Seq<char>>, filter: Option<Seq<char>>) -> Result<DevSum, Seq<char>>
    decreases ls.len(),
{
    if ls.len() == 0 {
        Ok(DevSum { down: 0, up: 0, matched: false })
    } else {
        dev_step(dev_fold(ls.drop_last(), filter), ls.last(), filter)
    }
}

/// Received and sent bytes of the interfaces of `/proc/net/dev` (after its
/// two header lines): of the filtered one, or of all but loopback.
pub open spec fn dev_totals_of(raw: Seq<char>, filter: Option<Seq<char>>) -> Result<(u64, u64), Seq<char>> {
    match dev_fold(after(lines(raw), 2), filter) {
        Err(e) => Err(e),
        Ok(sum) => if filter is Some && !sum.matched {
            Err("network interface '"@ + filter->0 + "' not found in /proc/net/dev"@)
        } else {
            Ok((sum.down, sum.up))
        },
    }
}

pub open spec fn pair_result(r: Result<(u64, u64), String>) -> Result<(u64, u64), Seq<char>> {
    match r {
        Ok(p) => Ok(p),
        Err(e) => Err(e@),
    }
}

fn dev_line(line: &str, filter: Option<&str>, sum: DevSum) -> (r: Result<DevSum, String>)
    ensures
        match r {
            Ok(s) => dev_step(Ok(sum), line@, crate::selector::opt_view(filter)) == Ok::<DevSum, Seq<char>>(s),
            Err(e) => dev_step(Ok(sum), line@, crate::selector::opt_view(filter)) == Err::<DevSum, Seq<char>>(e@),
        },
{
    let (name, rest) = match split_once_char(line, ':') {
        Some(p) => p,
        None => return Ok(sum),
    };
    let iface = trim_str(name.as_str());
    let counts = match filter {
        Some(f) => str_eq(iface.as_str(), f),
        None => !str_eq(iface.as_str(), "lo"),
    };
    let fields = split_words(rest.as_str());
    if !counts || fields.len() < 16 {
        return Ok(sum);
    }
    let rx = match parse_u64_text(fields[0].as_str()) {
        Ok(v) => v,
        Err(e) => return Err(e),
    };
    let tx = match parse_u64_text(fields[8].as_str()) {
        Ok(v) => v,
        Err(e) => return Err(e),
    };
    Ok(DevSum { down: sum.down.saturating_add(rx), up: sum.up.saturating_add(tx), matched: true })
}

/// Received and sent bytes from the text of `/proc/net/dev`.
pub fn read_totals(raw: &str, iface_filter: Option<&str>) -> (r: Result<(u64, u64), String>)
    ensures
        pair_result(r) == dev_totals_of(raw@, crate::selector::opt_view(iface_filter)),
{
    let ls = split_lines(raw);
    let ghost all = texts(ls@);
    let ghost body = after(all, 2);
    let ghost filter = crate::selector::opt_view(iface_filter);
    let mut sum = DevSum { down: 0, up: 0, matched: false };
    let mut i: usize = 2;
    if ls.len() <= 2 {
        i = ls.len();
    }
    let first = i;
    assert(body.len() == ls.len() - first);
    while i < ls.len()
        invariant
            first <= i <= ls.len(),
            first == if ls.len() <= 2 { ls.len() } else { 2 },
            all == texts(ls@),
            all == lines(raw@),
            body == after(all, 2),
            body.len() == ls.len() - first,
            forall|j: int| 0 <= j < body.len() ==> #[trigger] body[j] == all[j + first],
            filter == crate::selector::opt_view(iface_filter),
            dev_fold(body.take(i - first), filter) == Ok::<DevSum, Seq<char>>(sum),
        decreases ls.len() - i,
    {
        proof {
            assert(body.take(i - first + 1).drop_last() =~= body.take(i - first));
            assert(body[i - first] == all[i as int]);
            assert(body.take(i - first + 1).last() == ls@[i as int]@);
        }
        match dev_line(ls[i].as_str(), iface_filter, sum) {
            Ok(s) => {
                sum = s;
            },
            Err(e) => {
                proof {
                    assert(dev_fold(body.take(i - first + 1), filter) == dev_step(
                        dev_fold(body.take(i - first), filter),
                        ls@[i as int]@,
                        filter,
                    ));
                    lemma_dev_fold_err(body, filter, i - first + 1, e@);
                }
                return Err(e);
            },
        }
        i += 1;
    }
    assert(body.take(ls.len() - first) =~= body);
    if iface_filter.is_some() && !sum.matched {
        let mut m = String::from_str("network interface '");
        m.append(iface_filter.unwrap());
        m.append("' not found in /proc/net/dev");
        return Err(m);
    }
    Ok((sum.down, sum.up))
}

proof fn lemma_dev_fold_err(ls: Seq<Seq<char>>, filter: Option<Seq<char>>, k: int, e: Seq<char>)
    requires
        0 <= k <= ls.len(),
        dev_fold(ls.take(k), filter) == Err::<DevSum, Seq<char>>(e),
    ensures
        dev_fold(ls, filter) == Err::<DevSum, Seq<char>>(e),
    decreases ls.len() - k,
{
    if k < ls.len() {
        assert(ls.take(k + 1).drop_last() =~= ls.take(k));
        lemma_dev_fold_err(ls, filter, k + 1, e);
    } else {
        assert(ls.take(k) =~= ls);
    }
}

// ---------------------------------------------------------------------------
// Default route.
/// Whether a line of `/proc/net/route` is the default route: at least 11
/// columns, the destination all zeros.
pub open spec fn is_default_route(line: Seq<char>) -> bool {
    words(line).len() >= 11 && words(line)[1] == "00000000"@
}

pub open spec fn default_route_line() -> spec_fn(Seq<char>) -> bool {
    |line: Seq<char>| is_default_route(line)
}

/// The interface of the first default route after the header line.
pub open spec fn default_route_of(raw: Seq<char>) -> Option<Seq<char>> {
    let ls = after(lines(raw), 1);
    match first_match(ls, default_route_line()) {
        Some(i) => Some(words(ls[i])[0]),
        None => None,
    }
}

/// The interface of the default route, from the text of `/proc/net/route`.
pub fn default_route_iface(raw: &str) -> (r: Option<String>)
    ensures
        opt_string(r) == default_route_of(raw@),
{
    let ls = split_lines(raw);
    let ghost all = texts(ls@);
    let ghost body = after(all, 1);
    let ghost p = default_route_line();
    let first: usize = if ls.len() <= 1 {
        ls.len()
    } else {
        1
    };
    let mut i: usize = first;
    while i < ls.len()
        invariant
            first <= i <= ls.len(),
            first == if ls.len() <= 1 { ls.len() } else { 1 },
            all == texts(ls@),
            all == lines(raw@),
            body == after(all, 1),
            p == default_route_line(),
            body.len() == ls.len() - first,
            forall|j: int| 0 <= j < body.len() ==> #[trigger] body[j] == all[j + first],
            forall|j: int| 0 <= j < i - first ==> !p(#[trigger] body[j]),
        decreases ls.len() - i,
    {
        let cols = split_words(ls[i].as_str());
        assert(body[i - first] == ls@[i as int]@);
        if cols.len() >= 11 && str_eq(cols[1].as_str(), "00000000") {
            proof {
                assert(texts(cols@)[1] == cols@[1]@);
                lemma_first_match_some(body, p, i - first);
                assert(texts(cols@)[0] == cols@[0]@);
            }
            return Some(cols[0].clone());
        }
        i += 1;
    }
    proof {
        lemma_first_match_none(body, p);
    }
    None
}

// ---------------------------------------------------------------------------
// Wireless statistics.
/// The text without the dots that end it.
pub open spec fn trim_dots(s: Seq<char>) -> Seq<char>
    decreases s.len(),
{
    if s.len() > 0 && s.last() == '.' {
        trim_dots(s.drop_last())
    } else {
        s
    }
}

/// Whether a line of `/proc/net/wireless` reports the wanted interface with
/// at least three fields.
pub open spec fn is_wireless_line(line: Seq<char>, filter: Option<Seq<char>>) -> bool {
    match colon_line(line) {
        Some((iface, fields)) => fields.len() >= 3 && match filter {
            Some(f) => iface == f,
            None => true,
        },
        None => false,
    }
}

pub open spec fn wireless_line(filter: Option<Seq<char>>) -> spec_fn(Seq<char>) -> bool {
    |line: Seq<char>| is_wireless_line(line, filter)
}

/// The interface, link quality and signal level (as text, trailing dots
/// removed) of the first wireless line for the wanted interface, after the
/// two header lines.
pub open spec fn wireless_of(raw: Seq<char>, filter: Option<Seq<char>>) -> Option<(Seq<char>, Seq<char>, Seq<char>)> {
    let ls = after(lines(raw), 2);
    match first_match(ls, wireless_line(filter)) {
        Some(i) => {
            let (iface, fields) = colon_line(ls[i])->0;
            Some((iface, trim_dots(fields[1]), trim_dots(fields[2])))
        },
        None => None,
    }
}

fn strip_dots(s: &str) -> (r: String)
    ensures
        r@ == trim_dots(s@),
{
    let v = crate::text::chars_vec(s);
    let mut n = v.len();
    assert(v@.take(n as int) =~= v@);
    while n > 0 && v[n - 1] == '.'
        invariant
            v@ == s@,
            n <= v.len(),
            trim_dots(s@) == trim_dots(v@.take(n as int)),
        decreases n,
    {
        assert(v@.take(n as int).drop_last() =~= v@.take(n - 1));
        n -= 1;
    }
    assert(trim_dots(v@.take(n as int)) == v@.take(n as int));
    crate::text::string_from(&v.as_slice()[0..n])
}

pub open spec fn opt_triple(r: Option<(String, String, String)>) -> Option<(Seq<char>, Seq<char>, Seq<char>)> {
    match r {
        Some((a, b, c)) => Some((a@, b@, c@)),
        None => None,
    }
}

/// The wireless line for the wanted interface, from the text of
/// `/proc/net/wireless`: the interface, and the quality and signal columns
/// as text.
pub fn wireless_iface_stats(raw: &str, iface_filter: Option<&str>) -> (r: Option<(String, String, String)>)
    ensures
        opt_triple(r) == wireless_of(raw@, crate::selector::opt_view(iface_filter)),
{
    let ls = split_lines(raw);
    let ghost all = texts(ls@);
    let ghost body = after(all, 2);
    let ghost filter = crate::selector::opt_view(iface_filter);
    let ghost p = wireless_line(filter);
    let first: usize = if ls.len() <= 2 {
        ls.len()
    } else {
        2
    };
    let mut i: usize = first;
    while i < ls.len()
        invariant
            first <= i <= ls.len(),
            first == if ls.len() <= 2 { ls.len() } else { 2 },
            all == texts(ls@),
            all == lines(raw@),
            body == after(all, 2),
            filter == crate::selector::opt_view(iface_filter),
            p == wireless_line(filter),
            body.len() == ls.len() - first,
            forall|j: int| 0 <= j < body.len() ==> #[trigger] body[j] == all[j + first],
            forall|j: int| 0 <= j < i - first ==> !p(#[trigger] body[j]),
        decreases ls.len() - i,
    {
        assert(body[i - first] == ls@[i as int]@);
        if let Some((name, rest)) = split_once_char(ls[i].as_str(), ':') {
            let iface = trim_str(name.as_str());
            let wanted = match iface_filter {
                Some(f) => str_eq(iface.as_str(), f),
                None => true,
            };
            let fields = split_words(rest.as_str());
            if wanted && fields.len() >= 3 {
                proof {
                    lemma_first_match_some(body, p, i - first);
                    assert(texts(fields@)[1] == fields@[1]@);
                    assert(texts(fields@)[2] == fields@[2]@);
                }
                let q = strip_dots(fields[1].as_str());
                let sig = strip_dots(fields[2].as_str());
                return Some((iface, q, sig));
            }
        }
        i += 1;
    }
    proof {
        lemma_first_match_none(body, p);
    }
    None
}

// ---------------------------------------------------------------------------
// The access point NetworkManager reports.
/// What NetworkManager answers of a wireless device's active access point:
/// a query failed, no access point is active, or its SSID (as text) and
/// signal strength.
#[derive(Debug)]
pub enum ApReading {
    Failed,
    Inactive,
    Active(String, u8),
}

/// What NetworkManager answers of one device: a query failed, it is not a
/// wireless device, or its interface and active access point.
#[derive(Debug)]
pub enum DeviceReading {
    Failed,
    NotWireless,
    Wireless(String, ApReading),
}

pub open spec fn opt_ssid(r: Option<(String, String, u8)>) -> Option<(Seq<char>, Seq<char>, u8)> {
    match r {
        Some((a, b, c)) => Some((a@, b@, c)),
        None => None,
    }
}

/// The SSID and strength of an access point, when it is active and its
/// SSID is not blank, under the given interface name.
pub open spec fn ap_choice(iface: Seq<char>, ap: ApReading) -> Option<(Seq<char>, Seq<char>, u8)> {
    match ap {
        ApReading::Active(ssid, strength) => if trim(ssid@).len() > 0 {
            Some((iface, trim(ssid@), strength))
        } else {
            None
        },
        _ => None,
    }
}

/// The wireless device shown, taking the devices in order: the first
/// wireless one with an active access point whose SSID is not blank; a
/// failed query before it ends the search with nothing.
pub open spec fn device_choice(ds: Seq<DeviceReading>) -> Option<(Seq<char>, Seq<char>, u8)>
    decreases ds.len(),
{
    if ds.len() == 0 {
        None
    } else {
        match ds[0] {
            DeviceReading::Failed => None,
            DeviceReading::NotWireless => device_choice(ds.drop_first()),
            DeviceReading::Wireless(iface, ap) => match ap {
                ApReading::Failed => None,
                ApReading::Inactive => device_choice(ds.drop_first()),
                ApReading::Active(_, _) => match ap_choice(iface@, ap) {
                    Some(c) => Some(c),
                    None => device_choice(ds.drop_first()),
                },
            },
        }
    }
}

/// The access point of the interface asked for: its SSID (trimmed) and
/// strength, under that interface name.
pub fn access_point_choice(iface: &str, ap: &ApReading) -> (r: Option<(String, String, u8)>)
    ensures
        opt_ssid(r) == ap_choice(iface@, *ap),
{
    match ap {
        ApReading::Active(ssid, strength) => {
            let t = trim_str(ssid.as_str());
            if t.as_str().is_empty() {
                None
            } else {
                Some((owned(iface), t, *strength))
            }
        },
        _ => None,
    }
}

/// The wireless device shown, from the devices NetworkManager lists.
pub fn wireless_device_choice(devices: &Vec<DeviceReading>) -> (r: Option<(String, String, u8)>)
    ensures
        opt_ssid(r) == device_choice(devices@),
{
    let mut i: usize = 0;
    assert(devices@.skip(0) =~= devices@);
    while i < devices.len()
        invariant
            i <= devices.len(),
            device_choice(devices@) == device_choice(devices@.skip(i as int)),
        decreases devices.len() - i,
    {
        let ghost rest = devices@.skip(i as int);
        assert(rest[0] == devices@[i as int]);
        assert(rest.drop_first() =~= devices@.skip(i + 1));
        match &devices[i] {
            DeviceReading::Failed => return None,
            DeviceReading::NotWireless => {},
            DeviceReading::Wireless(iface, ap) => match ap {
                ApReading::Failed => return None,
                ApReading::Inactive => {},
                ApReading::Active(_, _) => {
                    let c = access_point_choice(iface.as_str(), ap);
                    if c.is_some() {
                        return c;
                    }
                },
            },
        }
        i += 1;
    }
    assert(devices@.skip(i as int) =~= seq![]);
    None
}

// ---------------------------------------------------------------------------
// Collection schedule and snapshot.
/// Whether a collection also reads the wireless state, and the interval
/// counter after it: always at start and on events, every fifteenth
/// interval otherwise.
pub open spec fn wireless_schedule(reason: CollectReason, tick: u32) -> (bool, u32) {
    match reason {
        CollectReason::Interval => {
            let t = if tick == u32::MAX { tick } else { (tick + 1) as u32 };
            (t % 15 == 0, t)
        },
        _ => (true, tick),
    }
}

/// Whether a collection also reads the wireless state.
pub fn refresh_wireless(reason: CollectReason, tick: u32) -> (r: (bool, u32))
    ensures
        r == wireless_schedule(reason, tick),
{
    match reason {
        CollectReason::Interval => {
            let t = tick.saturating_add(1);
            (t % 15 == 0, t)
        },
        _ => (true, tick),
    }
}

/// What the wireless part of a snapshot reports.
#[derive(Debug)]
pub struct WirelessSnapshot {
    pub iface_override: Option<String>,
    pub ssid: String,
    pub strength_percent: String,
    pub signal_dbm: String,
}

/// What the network provider publishes.
#[derive(Debug)]
pub struct NetworkSnapshot {
    pub iface: String,
    pub down_bps: String,
    pub up_bps: String,
    pub down_kibps: String,
    pub up_kibps: String,
    pub state: String,
    pub down_total_bytes: String,
    pub up_total_bytes: String,
    pub wireless: Option<WirelessSnapshot>,
}

/// The interface the counters are read for: the configured one, else the
/// one of the default route.
pub fn effective_iface(iface_filter: Option<&str>, route_iface: Option<String>) -> (r: Option<String>)
    ensures
        opt_string(r) == match iface_filter {
            Some(f) => Some(f@),
            None => opt_string(route_iface),
        },
{
    match iface_filter {
        Some(f) => Some(owned(f)),
        None => route_iface,
    }
}

/// The snapshot of the counters: interface (or "all"), rates in bytes and
/// KiB per second, "active" when either rate is positive, and the totals.
pub fn network_snapshot(iface: Option<&str>, down_bps: u64, up_bps: u64, down_total: u64, up_total: u64) -> (r: NetworkSnapshot)
    ensures
        r.iface@ == match iface {
            Some(i) => i@,
            None => "all"@,
        },
        r.down_bps@ == decimal(down_bps as nat),
        r.up_bps@ == decimal(up_bps as nat),
        r.down_kibps@ == decimal((down_bps / 1024) as nat),
        r.up_kibps@ == decimal((up_bps / 1024) as nat),
        r.state@ == if down_bps > 0 || up_bps > 0 { "active"@ } else { "idle"@ },
        r.down_total_bytes@ == decimal(down_total as nat),
        r.up_total_bytes@ == decimal(up_total as nat),
        r.wireless is None,
{
    NetworkSnapshot {
        iface: match iface {
            Some(i) => owned(i),
            None => String::from_str("all"),
        },
        down_bps: u64_to_string(down_bps),
        up_bps: u64_to_string(up_bps),
        down_kibps: u64_to_string(down_bps / 1024),
        up_kibps: u64_to_string(up_bps / 1024),
        state: if down_bps > 0 || up_bps > 0 {
            String::from_str("active")
        } else {
            String::from_str("idle")
        },
        down_total_bytes: u64_to_string(down_total),
        up_total_bytes: u64_to_string(up_total),
        wireless: None,
    }
}

/// The wireless part when neither NetworkManager nor the kernel reports a
/// wireless link.
pub fn no_wireless() -> (r: WirelessSnapshot)
    ensures
        r.iface_override is None,
        r.ssid@ == Seq::<char>::empty(),
        r.strength_percent@ == "0"@,
        r.signal_dbm@ == Seq::<char>::empty(),
{
    WirelessSnapshot {
        iface_override: None,
        ssid: String::new(),
        strength_percent: String::from_str("0"),
        signal_dbm: String::new(),
    }
}

/// The keys and values a snapshot sets, in order: the counters, then (with
/// a wireless part) the interface it overrides, the SSID, the strength and
/// the signal.
pub open spec fn snapshot_pairs(s: NetworkSnapshot) -> Seq<(Seq<char>, Seq<char>)> {
    seq![
        ("data.network.iface"@, s.iface@),
        ("data.network.down_bps"@, s.down_bps@),
        ("data.network.up_bps"@, s.up_bps@),
        ("data.network.down_kibps"@, s.down_kibps@),
        ("data.network.up_kibps"@, s.up_kibps@),
        ("data.network.state"@, s.state@),
        ("data.network.down_total_bytes"@, s.down_total_bytes@),
        ("data.network.up_total_bytes"@, s.up_total_bytes@),
    ] + match s.wireless {
        None => seq![],
        Some(w) => (match w.iface_override {
            Some(i) => seq![("data.network.iface"@, i@)],
            None => seq![],
        }) + seq![
            ("data.network.ssid"@, w.ssid@),
            ("data.network.wifi_strength_percent"@, w.strength_percent@),
            ("data.network.wifi_signal_dbm"@, w.signal_dbm@),
        ],
    }
}

pub open spec fn pairs_view(v: Seq<(String, String)>) -> Seq<(Seq<char>, Seq<char>)> {
    v.map_values(|p: (String, String)| (p.0@, p.1@))
}

/// Adds a key and its value.
pub fn push_pair_text(v: &mut Vec<(String, String)>, key: &str, value: &str)
    ensures
        pairs_view(final(v)@) == pairs_view(old(v)@).push((key@, value@)),
{
    v.push((owned(key), owned(value)));
    assert(pairs_view(v@) =~= pairs_view(old(v)@).push((key@, value@)));
}

fn push_pair(v: &mut Vec<(String, String)>, key: &str, value: &String)
    ensures
        pairs_view(final(v)@) == pairs_view(old(v)@).push((key@, value@)),
{
    v.push((owned(key), value.clone()));
    assert(pairs_view(v@) =~= pairs_view(old(v)@).push((key@, value@)));
}

/// The keys and values a snapshot sets on the signal bus.
pub fn apply_snapshot(snapshot: &NetworkSnapshot) -> (r: Vec<(String, String)>)
    ensures
        pairs_view(r@) == snapshot_pairs(*snapshot),
{
    let mut v: Vec<(String, String)> = Vec::new();
    assert(pairs_view(v@) =~= seq![]);
    push_pair(&mut v, "data.network.iface", &snapshot.iface);
    push_pair(&mut v, "data.network.down_bps", &snapshot.down_bps);
    push_pair(&mut v, "data.network.up_bps", &snapshot.up_bps);
    push_pair(&mut v, "data.network.down_kibps", &snapshot.down_kibps);
    push_pair(&mut v, "data.network.up_kibps", &snapshot.up_kibps);
    push_pair(&mut v, "data.network.state", &snapshot.state);
    push_pair(&mut v, "data.network.down_total_bytes", &snapshot.down_total_bytes);
    push_pair(&mut v, "data.network.up_total_bytes", &snapshot.up_total_bytes);
    let ghost base = pairs_view(v@);
    if let Some(w) = &snapshot.wireless {
        if let Some(i) = &w.iface_override {
            push_pair(&mut v, "data.network.iface", i);
        }
        let ghost mid = pairs_view(v@);
        push_pair(&mut v, "data.network.ssid", &w.ssid);
        push_pair(&mut v, "data.network.wifi_strength_percent", &w.strength_percent);
        push_pair(&mut v, "data.network.wifi_signal_dbm", &w.signal_dbm);
        assert(pairs_view(v@) =~= snapshot_pairs(*snapshot));
    } else {
        assert(pairs_view(v@) =~= snapshot_pairs(*snapshot));
    }
    v
}

} // verus!
