//! Tables of values keyed by numeric object ids, kept as vectors of pairs in
//! which no id occurs twice, and seen as maps.
use vstd::prelude::*;

verus! {

/// No key occurs twice.
pub open spec fn keys_unique<V>(s: Seq<(u64, V)>) -> bool {
    forall|i: int, j: int| 0 <= i < s.len() && 0 <= j < s.len() && i != j ==> s[i].0 != s[j].0
}

pub open spec fn has_key<V>(s: Seq<(u64, V)>, k: u64) -> bool {
    exists|i: int| 0 <= i < s.len() && #[trigger] s[i].0 == k
}

pub open spec fn key_pos<V>(s: Seq<(u64, V)>, k: u64) -> int {
    choose|i: int| 0 <= i < s.len() && #[trigger] s[i].0 == k
}

/// The pairs as a map.
pub open spec fn table<V>(s: Seq<(u64, V)>) -> Map<u64, V> {
    Map::new(|k: u64| has_key(s, k), |k: u64| s[key_pos(s, k)].1)
}

proof fn lemma_pos_unique<V>(s: Seq<(u64, V)>, i: int)
    requires
        keys_unique(s),
        0 <= i < s.len(),
    ensures
        has_key(s, s[i].0),
        key_pos(s, s[i].0) == i,
{
    assert(s[i].0 == s[i].0);
    let p = key_pos(s, s[i].0);
    assert(0 <= p < s.len() && s[p].0 == s[i].0);
}

/// Where a key sits in a table.
pub proof fn lemma_table_at<V>(s: Seq<(u64, V)>, i: int)
    requires
        keys_unique(s),
        0 <= i < s.len(),
    ensures
        table(s).dom().contains(s[i].0),
        table(s)[s[i].0] == s[i].1,
{
    lemma_pos_unique(s, i);
}

/// Replacing a value keeps the keys.
pub proof fn lemma_table_update<V>(s: Seq<(u64, V)>, i: int, v: V)
    requires
        keys_unique(s),
        0 <= i < s.len(),
    ensures
        keys_unique(s.update(i, (s[i].0, v))),
        table(s.update(i, (s[i].0, v))) == table(s).insert(s[i].0, v),
{
    let t = s.update(i, (s[i].0, v));
    assert(keys_unique(t));
    assert forall|k: u64| #[trigger] has_key(t, k) == has_key(s, k) by {
        if has_key(s, k) {
            let j = choose|j: int| 0 <= j < s.len() && #[trigger] s[j].0 == k;
            assert(t[j].0 == k);
        }
        if has_key(t, k) {
            let j = choose|j: int| 0 <= j < t.len() && #[trigger] t[j].0 == k;
            assert(s[j].0 == k);
        }
    }
    assert forall|k: u64| has_key(t, k) implies #[trigger] t[key_pos(t, k)].1 == table(s).insert(s[i].0, v)[k] by {
        let j = key_pos(t, k);
        lemma_pos_unique(t, j);
        lemma_pos_unique(s, j);
    }
    assert(table(t) =~= table(s).insert(s[i].0, v));
}

/// Adding a new key.
pub proof fn lemma_table_push<V>(s: Seq<(u64, V)>, k: u64, v: V)
    requires
        keys_unique(s),
        !has_key(s, k),
    ensures
        keys_unique(s.push((k, v))),
        table(s.push((k, v))) == table(s).insert(k, v),
{
    let t = s.push((k, v));
    assert forall|i: int, j: int| 0 <= i < t.len() && 0 <= j < t.len() && i != j implies t[i].0 != t[j].0 by {
        if i < s.len() && j < s.len() {
            assert(t[i] == s[i] && t[j] == s[j]);
        } else if i == s.len() {
            assert(s[j].0 == t[j].0);
        } else {
            assert(s[i].0 == t[i].0);
        }
    }
    assert forall|q: u64| #[trigger] has_key(t, q) == (has_key(s, q) || q == k) by {
        if has_key(s, q) {
            let j = choose|j: int| 0 <= j < s.len() && #[trigger] s[j].0 == q;
            assert(t[j].0 == q);
        }
        if q == k {
            assert(t[s.len() as int].0 == q);
        }
        if has_key(t, q) && q != k {
            let j = choose|j: int| 0 <= j < t.len() && #[trigger] t[j].0 == q;
            assert(s[j].0 == q);
        }
    }
    assert forall|q: u64| has_key(t, q) implies #[trigger] t[key_pos(t, q)].1 == table(s).insert(k, v)[q] by {
        let j = key_pos(t, q);
        lemma_pos_unique(t, j);
        if j < s.len() {
            lemma_pos_unique(s, j);
        }
    }
    assert(table(t) =~= table(s).insert(k, v));
}

/// Removing the pair at a position.
pub proof fn lemma_table_remove<V>(s: Seq<(u64, V)>, i: int)
    requires
        keys_unique(s),
        0 <= i < s.len(),
    ensures
        keys_unique(s.remove(i)),
        table(s.remove(i)) == table(s).remove(s[i].0),
{
    let t = s.remove(i);
    let k = s[i].0;
    assert forall|a: int, b: int| 0 <= a < t.len() && 0 <= b < t.len() && a != b implies t[a].0 != t[b].0 by {
        let a2 = if a < i { a } else { a + 1 };
        let b2 = if b < i { b } else { b + 1 };
        assert(t[a] == s[a2] && t[b] == s[b2]);
    }
    assert forall|q: u64| #[trigger] has_key(t, q) == (has_key(s, q) && q != k) by {
        if has_key(t, q) {
            let j = choose|j: int| 0 <= j < t.len() && #[trigger] t[j].0 == q;
            let j2 = if j < i { j } else { j + 1 };
            assert(s[j2].0 == q);
            assert(j2 != i);
        }
        if has_key(s, q) && q != k {
            let j = choose|j: int| 0 <= j < s.len() && #[trigger] s[j].0 == q;
            assert(j != i);
            let j1 = if j < i { j } else { j - 1 };
            assert(t[j1].0 == q);
        }
    }
    assert forall|q: u64| has_key(t, q) implies #[trigger] t[key_pos(t, q)].1 == table(s).remove(k)[q] by {
        let j = key_pos(t, q);
        lemma_pos_unique(t, j);
        let j2 = if j < i { j } else { j + 1 };
        assert(t[j] == s[j2]);
        lemma_pos_unique(s, j2);
    }
    assert(table(t) =~= table(s).remove(k));
}

/// The position of a key, if it is in the table.
pub fn find_key<V>(s: &Vec<(u64, V)>, k: u64) -> (r: Option<usize>)
    requires
        keys_unique(s@),
    ensures
        r matches Some(i) ==> i < s.len() && s@[i as int].0 == k && table(s@).dom().contains(k) && table(s@)[k]
            == s@[i as int].1,
        r is None ==> !table(s@).dom().contains(k),
{
    let mut i: usize = 0;
    while i < s.len()
        invariant
            i <= s.len(),
            keys_unique(s@),
            forall|j: int| 0 <= j < i ==> s@[j].0 != k,
        decreases s.len() - i,
    {
        if s[i].0 == k {
            proof {
                lemma_table_at(s@, i as int);
            }
            return Some(i);
        }
        i += 1;
    }
    None
}

/// Sets the value of a key, adding the key when it is new.
pub fn table_insert<V>(s: &mut Vec<(u64, V)>, k: u64, v: V)
    requires
        keys_unique(old(s)@),
    ensures
        keys_unique(final(s)@),
        table(final(s)@) == table(old(s)@).insert(k, v),
{
    match find_key(s, k) {
        Some(i) => {
            proof {
                lemma_table_update(s@, i as int, v);
            }
            s.set(i, (k, v));
        },
        None => {
            proof {
                lemma_table_push(s@, k, v);
            }
            s.push((k, v));
        },
    }
}

/// Removes a key, if present.
pub fn table_remove<V>(s: &mut Vec<(u64, V)>, k: u64)
    requires
        keys_unique(old(s)@),
    ensures
        keys_unique(final(s)@),
        table(final(s)@) == table(old(s)@).remove(k),
{
    match find_key(s, k) {
        Some(i) => {
            proof {
                lemma_table_remove(s@, i as int);
            }
            s.remove(i);
        },
        None => {
            assert(table(s@) =~= table(s@).remove(k));
        },
    }
}

} // verus!
