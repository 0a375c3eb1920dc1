//! Lexicographic order on text and ascending arrangement of names (the
//! order of `String`'s `Ord`: code points compared in turn, a prefix first).
use vstd::prelude::*;

use crate::text::chars_vec;

verus! {

/// `a` comes strictly before `b`.
pub open spec fn lex_lt(a: Seq<char>, b: Seq<char>) -> bool
    decreases a.len(),
{
    if a.len() == 0 {
        b.len() > 0
    } else if b.len() == 0 {
        false
    } else if a[0] != b[0] {
        (a[0] as u32) < (b[0] as u32)
    } else {
        lex_lt(a.drop_first(), b.drop_first())
    }
}

/// Nothing comes strictly before itself.
pub proof fn lemma_lex_irreflexive(a: Seq<char>)
    ensures
        !lex_lt(a, a),
    decreases a.len(),
{
    if a.len() > 0 {
        lemma_lex_irreflexive(a.drop_first());
    }
}

/// Coming strictly before is transitive.
pub proof fn lemma_lex_transitive(a: Seq<char>, b: Seq<char>, c: Seq<char>)
    requires
        lex_lt(a, b),
        lex_lt(b, c),
    ensures
        lex_lt(a, c),
    decreases a.len(),
{
    if a.len() > 0 && b.len() > 0 && c.len() > 0 && a[0] == b[0] && b[0] == c[0] {
        lemma_lex_transitive(a.drop_first(), b.drop_first(), c.drop_first());
    }
}

/// `x` placed into `t` after the last element that does not come after it.
pub open spec fn insert_in_order(x: Seq<char>, t: Seq<Seq<char>>) -> Seq<Seq<char>>
    decreases t.len(),
{
    if t.len() == 0 {
        seq![x]
    } else if !lex_lt(x, t.last()) {
        t.push(x)
    } else {
        insert_in_order(x, t.drop_last()).push(t.last())
    }
}

/// The texts of `s` in ascending order (equal texts keep their order).
pub open spec fn ascending(s: Seq<Seq<char>>) -> Seq<Seq<char>>
    decreases s.len(),
{
    if s.len() == 0 {
        seq![]
    } else {
        insert_in_order(s.last(), ascending(s.drop_last()))
    }
}

pub open spec fn texts(v: Seq<String>) -> Seq<Seq<char>> {
    v.map_values(|s: String| s@)
}

/// Whether `a` comes strictly before `b`.
pub fn str_less(a: &str, b: &str) -> (r: bool)
    ensures
        r == lex_lt(a@, b@),
{
    let x = chars_vec(a);
    let y = chars_vec(b);
    let mut i: usize = 0;
    assert(a@.skip(0) =~= a@);
    assert(b@.skip(0) =~= b@);
    while i < x.len() && i < y.len() && x[i] == y[i]
        invariant
            x@ == a@,
            y@ == b@,
            i <= x.len(),
            i <= y.len(),
            lex_lt(a@, b@) == lex_lt(a@.skip(i as int), b@.skip(i as int)),
        decreases x.len() - i,
    {
        proof {
            let s = a@.skip(i as int);
            let t = b@.skip(i as int);
            assert(s.drop_first() =~= a@.skip(i + 1));
            assert(t.drop_first() =~= b@.skip(i + 1));
        }
        i += 1;
    }
    proof {
        let s = a@.skip(i as int);
        let t = b@.skip(i as int);
        if i < x.len() && i < y.len() {
            assert(s[0] == a@[i as int]);
            assert(t[0] == b@[i as int]);
        }
    }
    if i == x.len() {
        i < y.len()
    } else if i == y.len() {
        false
    } else {
        (x[i] as u32) < (y[i] as u32)
    }
}

proof fn lemma_insert_at(x: Seq<char>, t: Seq<Seq<char>>, j: int)
    requires
        0 <= j <= t.len(),
        forall|k: int| j <= k < t.len() ==> lex_lt(x, #[trigger] t[k]),
        j == 0 || !lex_lt(x, t[j - 1]),
    ensures
        insert_in_order(x, t) == t.take(j).push(x) + t.skip(j),
    decreases t.len(),
{
    if t.len() == 0 {
        assert(t.take(j).push(x) + t.skip(j) =~= seq![x]);
    } else if j == t.len() {
        assert(t.take(j) =~= t);
        assert(t.take(j).push(x) + t.skip(j) =~= t.push(x));
    } else {
        let u = t.drop_last();
        assert forall|k: int| j <= k < u.len() implies lex_lt(x, #[trigger] u[k]) by {
            assert(u[k] == t[k]);
        }
        if j > 0 {
            assert(u[j - 1] == t[j - 1]);
        }
        lemma_insert_at(x, u, j);
        assert(t.take(j).push(x) + t.skip(j) =~= (u.take(j).push(x) + u.skip(j)).push(t.last()));
    }
}

proof fn lemma_insert_len(x: Seq<char>, t: Seq<Seq<char>>)
    ensures
        insert_in_order(x, t).len() == t.len() + 1,
    decreases t.len(),
{
    if t.len() > 0 {
        lemma_insert_len(x, t.drop_last());
    }
}

pub proof fn lemma_ascending_len(s: Seq<Seq<char>>)
    ensures
        ascending(s).len() == s.len(),
    decreases s.len(),
{
    if s.len() > 0 {
        lemma_ascending_len(s.drop_last());
        lemma_insert_len(s.last(), ascending(s.drop_last()));
    }
}

/// The names in ascending order.
pub fn sort_strings(v: Vec<String>) -> (r: Vec<String>)
    ensures
        texts(r@) == ascending(texts(v@)),
{
    let ghost sv = texts(v@);
    let mut out: Vec<String> = Vec::new();
    let mut i: usize = 0;
    while i < v.len()
        invariant
            sv == texts(v@),
            i <= v.len(),
            texts(out@) == ascending(sv.take(i as int)),
        decreases v.len() - i,
    {
        let x = v[i].clone();
        let mut j: usize = out.len();
        while j > 0 && str_less(x.as_str(), out[j - 1].as_str())
            invariant
                j <= out.len(),
                forall|k: int| j <= k < out.len() ==> lex_lt(x@, #[trigger] texts(out@)[k]),
            decreases j,
        {
            j -= 1;
        }
        proof {
            assert(sv.take(i + 1).drop_last() =~= sv.take(i as int));
            assert(sv.take(i + 1).last() == x@);
            lemma_insert_at(x@, texts(out@), j as int);
        }
        let ghost before = out@;
        out.insert(j, x);
        assert(texts(out@) =~= texts(before).take(j as int).push(x@) + texts(before).skip(j as int));
        i += 1;
    }
    assert(sv.take(v.len() as int) =~= sv);
    out
}

} // verus!
