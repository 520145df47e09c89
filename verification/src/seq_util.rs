//! Positions in sequences: the first element that satisfies a predicate.
use vstd::prelude::*;

verus! {

/// `k` is the position of the first element of `s` that satisfies `p`, or
/// the length of `s` when no element does.
pub open spec fn is_first_where<T>(s: Seq<T>, p: spec_fn(T) -> bool, k: int) -> bool {
    &&& 0 <= k <= s.len()
    &&& forall|j: int| 0 <= j < k ==> !p(#[trigger] s[j])
    &&& k < s.len() ==> p(s[k])
}

/// The position of the first element of `s` that satisfies `p`; `s.len()`
/// when there is none.
pub open spec fn first_where<T>(s: Seq<T>, p: spec_fn(T) -> bool) -> int {
    choose|k: int| is_first_where(s, p, k)
}

/// Any position that qualifies as the first match is the first match.
pub proof fn lemma_first_where_unique<T>(s: Seq<T>, p: spec_fn(T) -> bool, k: int)
    requires
        is_first_where(s, p, k),
    ensures
        first_where(s, p) == k,
{
    let c = first_where(s, p);
    assert(is_first_where(s, p, c));
    if c < k {
        assert(!p(s[c]));
    } else if k < c {
        assert(!p(s[k]));
    }
}

/// A first match always exists (possibly the length), so `first_where` is
/// well defined on every sequence.
pub proof fn lemma_first_where_exists<T>(s: Seq<T>, p: spec_fn(T) -> bool)
    ensures
        is_first_where(s, p, first_where(s, p)),
    decreases s.len(),
{
    if s.len() == 0 {
        assert(is_first_where(s, p, 0));
    } else if p(s[0]) {
        assert(is_first_where(s, p, 0));
    } else {
        let t = s.drop_first();
        lemma_first_where_exists(t, p);
        let k = first_where(t, p);
        assert forall|j: int| 0 <= j < k + 1 implies !p(#[trigger] s[j]) by {
            if j > 0 {
                assert(s[j] == t[j - 1]);
            }
        }
        if k < t.len() {
            assert(s[k + 1] == t[k]);
        }
        assert(is_first_where(s, p, k + 1));
    }
}

} // verus!
