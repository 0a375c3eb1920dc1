//! The battery provider's decisions: whether mains power is online, and the
//! charging state it reports.
use vstd::prelude::*;

use crate::text::str_eq;

verus! {

/// Whether a power supply type is a charger.
pub open spec fn is_charger(t: Seq<char>) -> bool {
    t == "Mains"@ || t == "USB"@ || t == "USB_C"@
}

/// Whether mains power is online, from each supply's type and `online`
/// value: online as soon as a charger reports a positive value; offline when
/// chargers report only zero; unknown when none reports.
pub open spec fn mains_online(supplies: Seq<(Seq<char>, Option<u64>)>) -> Option<bool>
    decreases supplies.len(),
{
    if supplies.len() == 0 {
        None
    } else {
        let prev = mains_online(supplies.drop_last());
        let (t, online) = supplies.last();
        if prev == Some(true) || !is_charger(t) || online is None {
            prev
        } else {
            Some(online->0 > 0)
        }
    }
}

pub open spec fn supplies_view(s: Seq<(String, Option<u64>)>) -> Seq<(Seq<char>, Option<u64>)> {
    s.map_values(|p: (String, Option<u64>)| (p.0@, p.1))
}

/// Whether mains power is online.
pub fn ac_online(supplies: &Vec<(String, Option<u64>)>) -> (r: Option<bool>)
    ensures
        r == mains_online(supplies_view(supplies@)),
{
    let ghost sv = supplies_view(supplies@);
    let mut saw = false;
    let mut i: usize = 0;
    while i < supplies.len()
        invariant
            i <= supplies.len(),
            sv == supplies_view(supplies@),
            mains_online(sv.take(i as int)) == if saw { Some(false) } else { None::<bool> },
        decreases supplies.len() - i,
    {
        proof {
            assert(sv.take(i + 1).drop_last() =~= sv.take(i as int));
            assert(sv.take(i + 1).last() == sv[i as int]);
        }
        let t = supplies[i].0.as_str();
        if str_eq(t, "Mains") || str_eq(t, "USB") || str_eq(t, "USB_C") {
            if let Some(v) = supplies[i].1 {
                saw = true;
                if v > 0 {
                    proof {
                        lemma_online_stays(sv, i + 1);
                    }
                    return Some(true);
                }
            }
        }
        i += 1;
    }
    assert(sv.take(supplies.len() as int) =~= sv);
    if saw {
        Some(false)
    } else {
        None
    }
}

proof fn lemma_online_stays(s: Seq<(Seq<char>, Option<u64>)>, k: int)
    requires
        0 <= k <= s.len(),
        mains_online(s.take(k)) == Some(true),
    ensures
        mains_online(s) == Some(true),
    decreases s.len() - k,
{
    if k < s.len() {
        assert(s.take(k + 1).drop_last() =~= s.take(k));
        lemma_online_stays(s, k + 1);
    } else {
        assert(s.take(k) =~= s);
    }
}

/// The state when the kernel reports none: from the charger when it is
/// known ("full" once nearly full), else the previous state when it was a
/// known one, else "unknown".
pub open spec fn inferred_state(previous: Option<Seq<char>>, nearly_full: bool, ac: Option<bool>) -> Seq<char> {
    match ac {
        Some(online) => if nearly_full {
            "full"@
        } else if online {
            "charging"@
        } else {
            "discharging"@
        },
        None => match previous {
            Some(p) => if p == "charging"@ || p == "discharging"@ || p == "full"@ || p == "unavailable"@ {
                p
            } else {
                "unknown"@
            },
            None => "unknown"@,
        },
    }
}

/// The state when the kernel reports none.
pub fn inferred_state_when_unknown(previous_state: Option<&str>, nearly_full: bool, ac_is_online: Option<bool>) -> (r: &'static str)
    ensures
        r@ == inferred_state(crate::selector::opt_view(previous_state), nearly_full, ac_is_online),
{
    if let Some(online) = ac_is_online {
        if nearly_full {
            return "full";
        }
        return if online {
            "charging"
        } else {
            "discharging"
        };
    }
    match previous_state {
        Some(p) => if str_eq(p, "charging") {
            "charging"
        } else if str_eq(p, "discharging") {
            "discharging"
        } else if str_eq(p, "full") {
            "full"
        } else if str_eq(p, "unavailable") {
            "unavailable"
        } else {
            "unknown"
        },
        None => "unknown",
    }
}

/// The state reported: the kernel's "Charging" and "Discharging" as they
/// are; "Full" unless not yet nearly full (then charging on mains, else
/// discharging); anything else inferred. `nearly_full` says whether the
/// charge is at least 99.5 percent.
pub open spec fn battery_state_of(status: Seq<char>, nearly_full: bool, ac: Option<bool>, previous: Option<Seq<char>>) -> Seq<char> {
    if status == "Charging"@ {
        "charging"@
    } else if status == "Discharging"@ {
        "discharging"@
    } else if status == "Full"@ {
        if !nearly_full {
            if ac == Some(true) {
                "charging"@
            } else {
                "discharging"@
            }
        } else {
            "full"@
        }
    } else {
        inferred_state(previous, nearly_full, ac)
    }
}

/// The kernel's "Charging" and "Discharging" statuses are reported as they
/// are, as "charging" and "discharging", whatever the charge, the mains power
/// and the state reported before.
pub proof fn law_kernel_status_reported(nearly_full: bool, ac: Option<bool>, previous: Option<Seq<char>>)
    ensures
        battery_state_of("Charging"@, nearly_full, ac, previous) == "charging"@,
        battery_state_of("Discharging"@, nearly_full, ac, previous) == "discharging"@,
        battery_state_of("Discharging"@, nearly_full, ac, previous) != "charging"@,
{
    reveal_strlit("Charging");
    reveal_strlit("Discharging");
    reveal_strlit("charging");
    reveal_strlit("discharging");
    assert("Charging"@.len() != "Discharging"@.len());
    assert("charging"@.len() != "discharging"@.len());
}

/// A "Full" status is reported as full once the charge is nearly full,
/// whatever the mains power; before that it is charging on mains power and
/// discharging otherwise.
pub proof fn law_full_status_reported(nearly_full: bool, ac: Option<bool>, previous: Option<Seq<char>>)
    ensures
        nearly_full ==> battery_state_of("Full"@, nearly_full, ac, previous) == "full"@,
        !nearly_full && ac == Some(true) ==> battery_state_of("Full"@, nearly_full, ac, previous)
            == "charging"@,
        !nearly_full && ac != Some(true) ==> battery_state_of("Full"@, nearly_full, ac, previous)
            == "discharging"@,
{
    reveal_strlit("Charging");
    reveal_strlit("Discharging");
    reveal_strlit("Full");
    assert("Full"@.len() != "Charging"@.len());
    assert("Full"@.len() != "Discharging"@.len());
}

/// The state reported.
pub fn battery_state(status_raw: &str, nearly_full: bool, ac_is_online: Option<bool>, previous_state: Option<&str>) -> (r: &'static str)
    ensures
        r@ == battery_state_of(status_raw@, nearly_full, ac_is_online, crate::selector::opt_view(previous_state)),
{
    if str_eq(status_raw, "Charging") {
        "charging"
    } else if str_eq(status_raw, "Discharging") {
        "discharging"
    } else if str_eq(status_raw, "Full") {
        if !nearly_full {
            if ac_is_online == Some(true) {
                "charging"
            } else {
                "discharging"
            }
        } else {
            "full"
        }
    } else {
        inferred_state_when_unknown(previous_state, nearly_full, ac_is_online)
    }
}

} // verus!
