//! Small facts about sequences that the rest of the crate states its
//! contracts with: the first element that satisfies a predicate, and the only
//! one.
use vstd::prelude::*;

verus! {

/// `i` is the index of the first element of `s` that satisfies `p`.
pub open spec fn is_first<A>(s: Seq<A>, p: spec_fn(A) -> bool, i: int) -> bool {
    &&& 0 <= i < s.len()
    &&& p(s[i])
    &&& forall|j: int| 0 <= j < i ==> !p(#[trigger] s[j])
}

/// Index of the first element of `s` that satisfies `p`, if any.
pub open spec fn first_match<A>(s: Seq<A>, p: spec_fn(A) -> bool) -> Option<int> {
    if exists|i: int| 0 <= i < s.len() && p(#[trigger] s[i]) {
        Some(choose|i: int| is_first(s, p, i))
    } else {
        None
    }
}

/// Index of the one element of `s` that satisfies `p`, when exactly one does.
pub open spec fn only_match<A>(s: Seq<A>, p: spec_fn(A) -> bool) -> Option<int> {
    if exists|i: int|
        0 <= i < s.len() && p(#[trigger] s[i]) && forall|j: int|
            0 <= j < s.len() && p(#[trigger] s[j]) ==> j == i {
        Some(
            choose|i: int|
                0 <= i < s.len() && p(#[trigger] s[i]) && forall|j: int|
                    0 <= j < s.len() && p(#[trigger] s[j]) ==> j == i,
        )
    } else {
        None
    }
}

pub proof fn lemma_first_match_some<A>(s: Seq<A>, p: spec_fn(A) -> bool, i: int)
    requires
        is_first(s, p, i),
    ensures
        first_match(s, p) == Some(i),
{
    assert(p(s[i]));
    let k = choose|k: int| is_first(s, p, k);
    assert(is_first(s, p, k));
    if k < i {
        assert(!p(s[k]));
    }
    if i < k {
        assert(!p(s[i]));
    }
}

pub proof fn lemma_first_match_none<A>(s: Seq<A>, p: spec_fn(A) -> bool)
    requires
        forall|j: int| 0 <= j < s.len() ==> !p(#[trigger] s[j]),
    ensures
        first_match(s, p) is None,
{
}

/// The first match exists whenever some element matches.
pub proof fn lemma_first_match_exists<A>(s: Seq<A>, p: spec_fn(A) -> bool, i: int)
    requires
        0 <= i < s.len(),
        p(s[i]),
    ensures
        first_match(s, p) is Some,
        is_first(s, p, first_match(s, p)->0),
    decreases i,
{
    if forall|j: int| 0 <= j < i ==> !p(#[trigger] s[j]) {
        lemma_first_match_some(s, p, i);
    } else {
        let j = choose|j: int| 0 <= j < i && p(#[trigger] s[j]);
        lemma_first_match_exists(s, p, j);
    }
}

/// The first match, when there is one, is the first element that matches.
pub proof fn lemma_first_match_is_first<A>(s: Seq<A>, p: spec_fn(A) -> bool)
    ensures
        first_match(s, p) matches Some(i) ==> is_first(s, p, i),
{
    if exists|i: int| 0 <= i < s.len() && p(#[trigger] s[i]) {
        let j = choose|i: int| 0 <= i < s.len() && p(#[trigger] s[i]);
        lemma_first_match_exists(s, p, j);
    }
}

pub proof fn lemma_only_match_some<A>(s: Seq<A>, p: spec_fn(A) -> bool, i: int)
    requires
        0 <= i < s.len(),
        p(s[i]),
        forall|j: int| 0 <= j < s.len() && p(#[trigger] s[j]) ==> j == i,
    ensures
        only_match(s, p) == Some(i),
{
}

pub proof fn lemma_only_match_none_two<A>(s: Seq<A>, p: spec_fn(A) -> bool, i: int, k: int)
    requires
        0 <= i < s.len(),
        0 <= k < s.len(),
        i != k,
        p(s[i]),
        p(s[k]),
    ensures
        only_match(s, p) is None,
{
}

/// The items after the first `n`; none when there are no more than `n`.
pub open spec fn after<A>(s: Seq<A>, n: int) -> Seq<A> {
    if s.len() <= n {
        seq![]
    } else {
        s.skip(n)
    }
}

} // verus!
