//! The Bluetooth provider: reading BlueZ's managed objects into the
//! adapter's and the connected devices' state, and the values published.
use vstd::prelude::*;

use crate::network::{pairs_view, push_pair_text};
use crate::variant::{find_named, named, Interfaces, PropValue, Props};
use crate::text::{decimal, normalize_ws, normalize_ws_str, str_eq, u64_to_string};

verus! {

pub open spec fn as_flag(v: Option<PropValue>) -> Option<bool> {
    match v {
        Some(PropValue::Bool(b)) => Some(b),
        _ => None,
    }
}

/// A percentage: a byte as it is, a wider integer clamped to 0..=100.
pub open spec fn as_percent(v: Option<PropValue>) -> Option<u8> {
    match v {
        Some(PropValue::U8(x)) => Some(x),
        Some(PropValue::U32(x)) => Some(if x > 100 { 100u8 } else { x as u8 }),
        Some(PropValue::I32(x)) => Some(if x < 0 { 0u8 } else if x > 100 { 100u8 } else { x as u8 }),
        _ => None,
    }
}

/// A text with its whitespace collapsed.
pub open spec fn as_text(v: Option<PropValue>) -> Option<Seq<char>> {
    match v {
        Some(PropValue::Str(s)) => Some(normalize_ws(s@)),
        _ => None,
    }
}

fn value_bool(v: Option<&PropValue>) -> (r: Option<bool>)
    ensures
        r == as_flag(crate::bluetooth::opt_prop(v)),
{
    match v {
        Some(PropValue::Bool(b)) => Some(*b),
        _ => None,
    }
}

pub open spec fn opt_prop(v: Option<&PropValue>) -> Option<PropValue> {
    match v {
        Some(x) => Some(*x),
        None => None,
    }
}

fn value_u8(v: Option<&PropValue>) -> (r: Option<u8>)
    ensures
        r == as_percent(opt_prop(v)),
{
    match v {
        Some(PropValue::U8(x)) => Some(*x),
        Some(PropValue::U32(x)) => Some(
            if *x > 100 {
                100u8
            } else {
                *x as u8
            },
        ),
        Some(PropValue::I32(x)) => Some(
            if *x < 0 {
                0u8
            } else if *x > 100 {
                100u8
            } else {
                *x as u8
            },
        ),
        _ => None,
    }
}

fn value_string(v: Option<&PropValue>) -> (r: Option<String>)
    ensures
        crate::hyprland::opt_string(r) == as_text(opt_prop(v)),
{
    match v {
        Some(PropValue::Str(s)) => Some(normalize_ws_str(s.as_str())),
        _ => None,
    }
}

/// What the provider learns from the objects so far.
pub struct BtScan {
    pub adapter: Seq<char>,
    pub powered: bool,
    pub has_adapter: bool,
    pub count: u32,
    pub name: Seq<char>,
    pub address: Seq<char>,
    pub battery: Seq<char>,
}

pub open spec fn text_or_empty(v: Option<Seq<char>>) -> Seq<char> {
    match v {
        Some(t) => t,
        None => seq![],
    }
}

pub open spec fn alias_or_name(p: Seq<(String, PropValue)>) -> Seq<char> {
    match as_text(named(p, "Alias"@)) {
        Some(t) => t,
        None => text_or_empty(as_text(named(p, "Name"@))),
    }
}

/// One object's effect: an adapter counts (powered when any adapter is,
/// named after the first), a connected device counts (the first one named,
/// with its address and battery).
#[verifier::opaque]
pub open spec fn scan_step(st: BtScan, obj: Seq<(String, Props)>) -> BtScan {
    let st1 = match named(obj, "org.bluez.Adapter1"@) {
        Some(a) => BtScan {
            has_adapter: true,
            powered: st.powered || as_flag(named(a@, "Powered"@)) == Some(true),
            adapter: if st.adapter.len() == 0 { alias_or_name(a@) } else { st.adapter },
            ..st
        },
        None => st,
    };
    match named(obj, "org.bluez.Device1"@) {
        Some(d) => if as_flag(named(d@, "Connected"@)) == Some(true) {
            let count = if st1.count == u32::MAX { st1.count } else { (st1.count + 1) as u32 };
            if st1.name.len() == 0 {
                BtScan {
                    count,
                    name: alias_or_name(d@),
                    address: text_or_empty(as_text(named(d@, "Address"@))),
                    battery: match named(obj, "org.bluez.Battery1"@) {
                        Some(b) => decimal(
                            match as_percent(named(b@, "Percentage"@)) {
                                Some(x) => x as nat,
                                None => 0,
                            },
                        ),
                        None => st1.battery,
                    },
                    ..st1
                }
            } else {
                BtScan { count, ..st1 }
            }
        } else {
            st1
        },
        None => st1,
    }
}

pub open spec fn objects_view(objs: Seq<Interfaces>) -> Seq<Seq<(String, Props)>> {
    objs.map_values(|o: Interfaces| o@)
}

/// The scan of all objects, in order.
pub open spec fn scan_all(objs: Seq<Seq<(String, Props)>>) -> BtScan
    decreases objs.len(),
{
    if objs.len() == 0 {
        BtScan {
            adapter: seq![],
            powered: false,
            has_adapter: false,
            count: 0,
            name: seq![],
            address: seq![],
            battery: seq![],
        }
    } else {
        scan_step(scan_all(objs.drop_last()), objs.last())
    }
}

/// What the provider publishes.
#[derive(Debug)]
pub struct BluetoothSnapshot {
    pub available: bool,
    pub powered: bool,
    pub connected_count: u32,
    pub connected_name: String,
    pub connected_address: String,
    pub connected_battery_percent: String,
    pub adapter: String,
    pub state: String,
    pub summary: String,
}

/// The state: unavailable without adapter, off unless powered, connected
/// with a connected device, on otherwise.
pub open spec fn bt_state(s: BtScan) -> Seq<char> {
    if !s.has_adapter {
        "unavailable"@
    } else if !s.powered {
        "off"@
    } else if s.count > 0 {
        "connected"@
    } else {
        "on"@
    }
}

/// The summary line.
pub open spec fn bt_summary(s: BtScan) -> Seq<char> {
    if !s.has_adapter {
        "bluetooth unavailable"@
    } else if !s.powered {
        "bluetooth off"@
    } else if s.count == 0 {
        "bluetooth on"@
    } else if s.name.len() == 0 {
        decimal(s.count as nat) + " connected"@
    } else if s.battery.len() == 0 {
        s.name + " ("@ + decimal(s.count as nat) + ")"@
    } else {
        s.name + " "@ + s.battery + "% ("@ + decimal(s.count as nat) + ")"@
    }
}

struct ScanState {
    adapter: String,
    powered: bool,
    has_adapter: bool,
    count: u32,
    name: String,
    address: String,
    battery: String,
}

spec fn scan_view(s: ScanState) -> BtScan {
    BtScan {
        adapter: s.adapter@,
        powered: s.powered,
        has_adapter: s.has_adapter,
        count: s.count,
        name: s.name@,
        address: s.address@,
        battery: s.battery@,
    }
}

fn alias_or_name_of(p: &Props) -> (r: String)
    ensures
        r@ == alias_or_name(p@),
{
    match value_string(find_named(p, "Alias")) {
        Some(t) => t,
        None => match value_string(find_named(p, "Name")) {
            Some(t) => t,
            None => String::new(),
        },
    }
}

fn scan_object(st: ScanState, obj: &Interfaces) -> (r: ScanState)
    ensures
        scan_view(r) == scan_step(scan_view(st), obj@),
{
    reveal(scan_step);
    let mut st = st;
    if let Some(a) = find_named(obj, "org.bluez.Adapter1") {
        st.has_adapter = true;
        st.powered = st.powered || value_bool(find_named(a, "Powered")) == Some(true);
        if st.adapter.as_str().is_empty() {
            st.adapter = alias_or_name_of(a);
        }
    }
    if let Some(d) = find_named(obj, "org.bluez.Device1") {
        if value_bool(find_named(d, "Connected")) == Some(true) {
            st.count = st.count.saturating_add(1);
            if st.name.as_str().is_empty() {
                st.name = alias_or_name_of(d);
                st.address = match value_string(find_named(d, "Address")) {
                    Some(t) => t,
                    None => String::new(),
                };
                if let Some(b) = find_named(obj, "org.bluez.Battery1") {
                    let pct = match value_u8(find_named(b, "Percentage")) {
                        Some(x) => x,
                        None => 0,
                    };
                    st.battery = u64_to_string(pct as u64);
                }
            }
        }
    }
    st
}

fn flag_text(b: bool) -> (r: &'static str)
    ensures
        r@ == if b { "1"@ } else { "0"@ },
{
    if b {
        "1"
    } else {
        "0"
    }
}

/// The snapshot of BlueZ's objects, in the order given.
pub fn collect_snapshot(objects: &Vec<Interfaces>) -> (r: BluetoothSnapshot)
    ensures
        ({
            let s = scan_all(objects_view(objects@));
            &&& r.available == s.has_adapter
            &&& r.powered == s.powered
            &&& r.connected_count == s.count
            &&& r.connected_name@ == s.name
            &&& r.connected_address@ == s.address
            &&& r.connected_battery_percent@ == s.battery
            &&& r.adapter@ == s.adapter
            &&& r.state@ == bt_state(s)
            &&& r.summary@ == bt_summary(s)
        }),
{
    let ghost ov = objects_view(objects@);
    let mut st = ScanState {
        adapter: String::new(),
        powered: false,
        has_adapter: false,
        count: 0,
        name: String::new(),
        address: String::new(),
        battery: String::new(),
    };
    let mut i: usize = 0;
    while i < objects.len()
        invariant
            i <= objects.len(),
            ov == objects_view(objects@),
            scan_view(st) == scan_all(ov.take(i as int)),
        decreases objects.len() - i,
    {
        proof {
            assert(ov.take(i + 1).drop_last() =~= ov.take(i as int));
            assert(ov.take(i + 1).last() == objects@[i as int]@);
        }
        st = scan_object(st, &objects[i]);
        i += 1;
    }
    assert(ov.take(objects.len() as int) =~= ov);
    let state = if !st.has_adapter {
        String::from_str("unavailable")
    } else if !st.powered {
        String::from_str("off")
    } else if st.count > 0 {
        String::from_str("connected")
    } else {
        String::from_str("on")
    };
    let n = u64_to_string(st.count as u64);
    let summary = if !st.has_adapter {
        String::from_str("bluetooth unavailable")
    } else if !st.powered {
        String::from_str("bluetooth off")
    } else if st.count == 0 {
        String::from_str("bluetooth on")
    } else if st.name.as_str().is_empty() {
        let mut m = n.clone();
        m.append(" connected");
        m
    } else if st.battery.as_str().is_empty() {
        let mut m = st.name.clone();
        m.append(" (");
        m.append(n.as_str());
        m.append(")");
        m
    } else {
        let mut m = st.name.clone();
        m.append(" ");
        m.append(st.battery.as_str());
        m.append("% (");
        m.append(n.as_str());
        m.append(")");
        m
    };
    BluetoothSnapshot {
        available: st.has_adapter,
        powered: st.powered,
        connected_count: st.count,
        connected_name: st.name,
        connected_address: st.address,
        connected_battery_percent: st.battery,
        adapter: st.adapter,
        state,
        summary,
    }
}

/// The snapshot when BlueZ cannot be asked.
pub fn unavailable() -> (r: BluetoothSnapshot)
    ensures
        !r.available,
        !r.powered,
        r.connected_count == 0,
        r.connected_name@.len() == 0,
        r.connected_address@.len() == 0,
        r.connected_battery_percent@.len() == 0,
        r.adapter@.len() == 0,
        r.state@ == "unavailable"@,
        r.summary@ == "bluetooth unavailable"@,
{
    BluetoothSnapshot {
        available: false,
        powered: false,
        connected_count: 0,
        connected_name: String::new(),
        connected_address: String::new(),
        connected_battery_percent: String::new(),
        adapter: String::new(),
        state: String::from_str("unavailable"),
        summary: String::from_str("bluetooth unavailable"),
    }
}

/// The keys and values published for a snapshot.
pub open spec fn bluetooth_pairs(s: BluetoothSnapshot) -> Seq<(Seq<char>, Seq<char>)> {
    seq![
        ("data.bluetooth.available"@, if s.available { "1"@ } else { "0"@ }),
        ("data.bluetooth.powered"@, if s.powered { "1"@ } else { "0"@ }),
        ("data.bluetooth.connected_count"@, decimal(s.connected_count as nat)),
        ("data.bluetooth.connected_name"@, s.connected_name@),
        ("data.bluetooth.connected_address"@, s.connected_address@),
        ("data.bluetooth.connected_battery_percent"@, s.connected_battery_percent@),
        ("data.bluetooth.adapter"@, s.adapter@),
        ("data.bluetooth.state"@, s.state@),
        ("data.bluetooth.summary"@, s.summary@),
    ]
}

/// The keys and values published for a snapshot.
pub fn apply_snapshot(s: &BluetoothSnapshot) -> (r: Vec<(String, String)>)
    ensures
        pairs_view(r@) == bluetooth_pairs(*s),
{
    let mut v: Vec<(String, String)> = Vec::new();
    assert(pairs_view(v@) =~= seq![]);
    push_pair_text(&mut v, "data.bluetooth.available", flag_text(s.available));
    push_pair_text(&mut v, "data.bluetooth.powered", flag_text(s.powered));
    let n = u64_to_string(s.connected_count as u64);
    push_pair_text(&mut v, "data.bluetooth.connected_count", n.as_str());
    push_pair_text(&mut v, "data.bluetooth.connected_name", s.connected_name.as_str());
    push_pair_text(&mut v, "data.bluetooth.connected_address", s.connected_address.as_str());
    push_pair_text(&mut v, "data.bluetooth.connected_battery_percent", s.connected_battery_percent.as_str());
    push_pair_text(&mut v, "data.bluetooth.adapter", s.adapter.as_str());
    push_pair_text(&mut v, "data.bluetooth.state", s.state.as_str());
    push_pair_text(&mut v, "data.bluetooth.summary", s.summary.as_str());
    assert(pairs_view(v@) =~= bluetooth_pairs(*s));
    v
}

} // verus!
