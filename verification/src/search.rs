//! The first element of a sequence that satisfies a predicate.
use vstd::prelude::*;

verus! {

/// Index of the first element satisfying `p`, if any.
pub open spec fn first_where<A>(s: Seq<A>, p: spec_fn(A) -> bool) -> Option<int> {
    if exists|i: int| 0 <= i < s.len() && p(s[i]) {
        Some(choose|i: int| 0 <= i < s.len() && p(s[i]) && forall|j: int| 0 <= j < i ==> !p(s[j]))
    } else {
        None
    }
}

proof fn lemma_least<A>(s: Seq<A>, p: spec_fn(A) -> bool, w: int)
    requires
        0 <= w < s.len(),
        p(s[w]),
    ensures
        exists|i: int| 0 <= i < s.len() && p(s[i]) && forall|j: int| 0 <= j < i ==> !p(s[j]),
    decreases w,
{
    if exists|j: int| 0 <= j < w && p(s[j]) {
        let j = choose|j: int| 0 <= j < w && p(s[j]);
        lemma_least(s, p, j);
    }
}

/// Lemma: a first match lies in the sequence, satisfies `p`, and nothing before it does.
pub proof fn lemma_first_where<A>(s: Seq<A>, p: spec_fn(A) -> bool)
    ensures
        first_where(s, p) matches Some(k) ==> 0 <= k < s.len() && p(s[k])
            && forall|j: int| 0 <= j < k ==> !p(s[j]),
        first_where(s, p) is None ==> forall|i: int| 0 <= i < s.len() ==> !p(s[i]),
{
    if exists|i: int| 0 <= i < s.len() && p(s[i]) {
        let w = choose|i: int| 0 <= i < s.len() && p(s[i]);
        lemma_least(s, p, w);
    }
}

/// Lemma: an element that satisfies `p` with nothing before it doing so is the first match.
pub proof fn lemma_first_where_is<A>(s: Seq<A>, p: spec_fn(A) -> bool, k: int)
    requires
        0 <= k < s.len(),
        p(s[k]),
        forall|j: int| 0 <= j < k ==> !p(s[j]),
    ensures
        first_where(s, p) == Some(k),
{
    let c = choose|i: int| 0 <= i < s.len() && p(s[i]) && forall|j: int| 0 <= j < i ==> !p(s[j]);
    assert(0 <= c < s.len() && p(s[c]) && forall|j: int| 0 <= j < c ==> !p(s[j]));
    if c < k {
        assert(!p(s[c]));
    }
    if k < c {
        assert(!p(s[k]));
    }
}

} // verus!
