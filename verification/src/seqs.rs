use vstd::prelude::*;

verus! {

/// Index of the first element of `s` satisfying `p`, or -1 when there is none.
pub open spec fn first_match<T>(s: Seq<T>, p: spec_fn(T) -> bool) -> int
    decreases s.len(),
{
    if s.len() == 0 {
        -1
    } else {
        let k = first_match(s.drop_last(), p);
        if k >= 0 {
            k
        } else if p(s.last()) {
            s.len() - 1
        } else {
            -1
        }
    }
}

/// `first_match` is characterised by: the element there satisfies `p` and none
/// before it does; or, when it is -1, no element satisfies `p`.
pub proof fn lemma_first_match<T>(s: Seq<T>, p: spec_fn(T) -> bool)
    ensures
        -1 <= first_match(s, p) < s.len(),
        first_match(s, p) == -1 <==> (forall|j: int| 0 <= j < s.len() ==> !p(#[trigger] s[j])),
        first_match(s, p) >= 0 ==> p(s[first_match(s, p)]),
        forall|j: int| 0 <= j < first_match(s, p) ==> !p(#[trigger] s[j]),
    decreases s.len(),
{
    if s.len() > 0 {
        lemma_first_match(s.drop_last(), p);
        assert forall|j: int| 0 <= j < s.len() - 1 implies s.drop_last()[j] == s[j] by {}
        if first_match(s.drop_last(), p) == -1 && !p(s.last()) {
            assert forall|j: int| 0 <= j < s.len() implies !p(#[trigger] s[j]) by {
                if j < s.len() - 1 {
                    assert(s.drop_last()[j] == s[j]);
                }
            }
        }
    }
}

/// Any index whose element satisfies `p`, with no earlier element doing so,
/// is `first_match`.
pub proof fn lemma_first_match_at<T>(s: Seq<T>, p: spec_fn(T) -> bool, k: int)
    requires
        0 <= k < s.len(),
        p(s[k]),
        forall|j: int| 0 <= j < k ==> !p(#[trigger] s[j]),
    ensures
        first_match(s, p) == k,
{
    lemma_first_match(s, p);
    let r = first_match(s, p);
    if r == -1 {
        assert(!p(s[k]));
    } else if r < k {
        assert(!p(s[r]));
    } else if r > k {
        assert(!p(s[k]));
    }
}

/// Number of elements of `s` satisfying `p`.
pub open spec fn count_matching<T>(s: Seq<T>, p: spec_fn(T) -> bool) -> nat
    decreases s.len(),
{
    if s.len() == 0 {
        0
    } else {
        count_matching(s.drop_last(), p) + if p(s.last()) { 1nat } else { 0nat }
    }
}

/// A positive count means some element matches.
pub proof fn lemma_count_positive<T>(s: Seq<T>, p: spec_fn(T) -> bool)
    requires
        count_matching(s, p) > 0,
    ensures
        first_match(s, p) >= 0,
    decreases s.len(),
{
    lemma_first_match(s, p);
    if s.len() > 0 && count_matching(s.drop_last(), p) > 0 {
        lemma_count_positive(s.drop_last(), p);
    }
}

} // verus!
