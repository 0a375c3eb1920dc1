//! Acting on a toplevel through `wlr-foreign-toplevel-management`: which
//! window a request for an application id, a title and a duplicate rank
//! designates, and the errors when none does.
use vstd::prelude::*;

use crate::order::texts;
use crate::text::{eq_fold, eq_ignore_ascii_case, is_blank, trim, trim_str};

verus! {

/// A toplevel the action worker knows: its id, title and application id.
pub struct Candidate {
    pub id: u64,
    pub title: String,
    pub app_id: String,
}

/// The trimmed texts are both non-empty and equal up to ASCII case.
pub open spec fn loose_match(entry: Seq<char>, target: Seq<char>) -> bool {
    trim(target).len() > 0 && trim(entry).len() > 0 && eq_fold(trim(entry), trim(target))
}

/// How well a toplevel matches: 1 for application id and title, 2 for the
/// application id alone, 3 for the title alone, 0 for neither.
pub open spec fn tier(c: Candidate, app_id: Seq<char>, title: Seq<char>) -> int {
    let a = loose_match(c.app_id@, app_id);
    let t = loose_match(c.title@, title);
    if a && t {
        1
    } else if a {
        2
    } else if t {
        3
    } else {
        0
    }
}

/// The ids of the toplevels of one tier, in order.
pub open spec fn tier_ids(cs: Seq<Candidate>, app_id: Seq<char>, title: Seq<char>, k: int) -> Seq<u64>
    decreases cs.len(),
{
    if cs.len() == 0 {
        seq![]
    } else {
        tier_ids(cs.drop_last(), app_id, title, k) + if tier(cs.last(), app_id, title) == k {
            seq![cs.last().id]
        } else {
            seq![]
        }
    }
}

/// The candidates of the best tier that has any.
pub open spec fn best_candidates(cs: Seq<Candidate>, app_id: Seq<char>, title: Seq<char>) -> Seq<u64> {
    if tier_ids(cs, app_id, title, 1).len() > 0 {
        tier_ids(cs, app_id, title, 1)
    } else if tier_ids(cs, app_id, title, 2).len() > 0 {
        tier_ids(cs, app_id, title, 2)
    } else {
        tier_ids(cs, app_id, title, 3)
    }
}

fn loosely_equal(entry: &str, target: &str) -> (r: bool)
    ensures
        r == loose_match(entry@, target@),
{
    let t = trim_str(target);
    let e = trim_str(entry);
    !t.as_str().is_empty() && !e.as_str().is_empty() && eq_ignore_ascii_case(e.as_str(), t.as_str())
}

/// The ids of the best-matching toplevels, in order: those that match both
/// the application id and the title, else the application id, else the
/// title.
pub fn ordered_candidates(cs: &Vec<Candidate>, app_id: &str, title: &str) -> (r: Vec<u64>)
    ensures
        r@ == best_candidates(cs@, app_id@, title@),
{
    let mut t1: Vec<u64> = Vec::new();
    let mut t2: Vec<u64> = Vec::new();
    let mut t3: Vec<u64> = Vec::new();
    let mut i: usize = 0;
    while i < cs.len()
        invariant
            i <= cs.len(),
            t1@ == tier_ids(cs@.take(i as int), app_id@, title@, 1),
            t2@ == tier_ids(cs@.take(i as int), app_id@, title@, 2),
            t3@ == tier_ids(cs@.take(i as int), app_id@, title@, 3),
        decreases cs.len() - i,
    {
        proof {
            assert(cs@.take(i + 1).drop_last() =~= cs@.take(i as int));
            assert(cs@.take(i + 1).last() == cs@[i as int]);
        }
        let a = loosely_equal(cs[i].app_id.as_str(), app_id);
        let t = loosely_equal(cs[i].title.as_str(), title);
        let ghost k = tier(cs@[i as int], app_id@, title@);
        if a && t {
            t1.push(cs[i].id);
        } else if a {
            t2.push(cs[i].id);
        } else if t {
            t3.push(cs[i].id);
        }
        assert(t1@ =~= tier_ids(cs@.take(i + 1), app_id@, title@, 1));
        assert(t2@ =~= tier_ids(cs@.take(i + 1), app_id@, title@, 2));
        assert(t3@ =~= tier_ids(cs@.take(i + 1), app_id@, title@, 3));
        i += 1;
    }
    assert(cs@.take(cs.len() as int) =~= cs@);
    if t1.len() > 0 {
        t1
    } else if t2.len() > 0 {
        t2
    } else {
        t3
    }
}

/// The candidate a duplicate rank picks: that one, or the last when the
/// rank is past the end; none without candidates.
pub open spec fn picked(candidates: Seq<u64>, rank: usize) -> Option<u64> {
    if candidates.len() == 0 {
        None
    } else if rank < candidates.len() {
        Some(candidates[rank as int])
    } else {
        Some(candidates.last())
    }
}

/// The toplevel a request acts on.
pub fn pick_candidate(candidates: &Vec<u64>, duplicate_rank: usize) -> (r: Option<u64>)
    ensures
        r == picked(candidates@, duplicate_rank),
{
    if candidates.len() == 0 {
        return None;
    }
    let last = candidates.len() - 1;
    let k = if duplicate_rank < last {
        duplicate_rank
    } else {
        last
    };
    Some(candidates[k])
}

/// What a request does to the toplevel it designates.
#[derive(Debug, Clone, Copy, PartialEq, Eq, Structural)]
pub enum ActionKind {
    Activate,
    Close,
    SetMinimized(bool),
}

/// The error once every attempt failed to find the toplevel (or, to
/// activate it, a seat).
pub open spec fn not_found_message(kind: ActionKind, app_id: Seq<char>, title: Seq<char>) -> Seq<char> {
    match kind {
        ActionKind::Activate => "wlr activate target not found or no wl_seat for app_id='"@ + app_id + "' title='"@
            + title + "'"@,
        _ => "wlr toplevel entry not found for app_id='"@ + app_id + "' title='"@ + title + "'"@,
    }
}

/// The error once every attempt failed.
pub fn not_found_error(kind: ActionKind, app_id: &str, title: &str) -> (r: String)
    ensures
        r@ == not_found_message(kind, app_id@, title@),
{
    let mut m = match kind {
        ActionKind::Activate => String::from_str("wlr activate target not found or no wl_seat for app_id='"),
        _ => String::from_str("wlr toplevel entry not found for app_id='"),
    };
    m.append(app_id);
    m.append("' title='");
    m.append(title);
    m.append("'");
    m
}

/// The toplevel one attempt acts on: the picked candidate, unless
/// activation has no seat yet.
pub fn attempt_target(
    cs: &Vec<Candidate>,
    app_id: &str,
    title: &str,
    duplicate_rank: usize,
    kind: ActionKind,
    has_seat: bool,
) -> (r: Option<u64>)
    ensures
        r == if kind == ActionKind::Activate && !has_seat {
            None
        } else {
            picked(best_candidates(cs@, app_id@, title@), duplicate_rank)
        },
{
    let candidates = ordered_candidates(cs, app_id, title);
    let pick = pick_candidate(&candidates, duplicate_rank);
    match kind {
        ActionKind::Activate => if !has_seat {
            return None;
        },
        _ => {},
    }
    pick
}

} // verus!
