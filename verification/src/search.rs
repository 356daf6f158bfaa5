//! First-match search over sequences.

use vstd::prelude::*;

verus! {

/// `i` is the first position of `s` whose element satisfies `p`.
pub open spec fn is_first_where<T>(s: Seq<T>, p: spec_fn(T) -> bool, i: int) -> bool {
    &&& 0 <= i < s.len()
    &&& p(s[i])
    &&& forall|j: int| 0 <= j < i ==> !p(#[trigger] s[j])
}

/// The first position of `s` whose element satisfies `p`, if any.
pub open spec fn first_where<T>(s: Seq<T>, p: spec_fn(T) -> bool) -> Option<int> {
    if exists|i: int| is_first_where(s, p, i) {
        Some(choose|i: int| is_first_where(s, p, i))
    } else {
        None
    }
}

/// A first match is the only one.
pub proof fn lemma_first_where_is<T>(s: Seq<T>, p: spec_fn(T) -> bool, i: int)
    requires
        is_first_where(s, p, i),
    ensures
        first_where(s, p) == Some(i),
{
    let k = choose|k: int| is_first_where(s, p, k);
    assert(is_first_where(s, p, k));
    if k < i {
        assert(!p(s[k]));
    }
    if k > i {
        assert(!p(s[i]));
    }
}

/// No element satisfies `p`: there is no first match.
pub proof fn lemma_first_where_none<T>(s: Seq<T>, p: spec_fn(T) -> bool)
    requires
        forall|j: int| 0 <= j < s.len() ==> !p(#[trigger] s[j]),
    ensures
        first_where(s, p) is None,
{
    if exists|i: int| is_first_where(s, p, i) {
        let k = choose|k: int| is_first_where(s, p, k);
        assert(p(s[k]));
    }
}

/// A match exists exactly when a first match exists.
pub proof fn lemma_first_where_some<T>(s: Seq<T>, p: spec_fn(T) -> bool)
    ensures
        first_where(s, p) is Some <==> exists|j: int| 0 <= j < s.len() && #[trigger] p(s[j]),
        first_where(s, p) matches Some(i) ==> is_first_where(s, p, i),
    decreases s.len(),
{
    if exists|j: int| 0 <= j < s.len() && #[trigger] p(s[j]) {
        if p(s[0]) {
            assert(is_first_where(s, p, 0));
        } else {
            let t = s.drop_first();
            let j = choose|j: int| 0 <= j < s.len() && #[trigger] p(s[j]);
            assert(p(t[j - 1]));
            lemma_first_where_some(t, p);
            let k = first_where(t, p)->0;
            assert forall|m: int| 0 <= m < k + 1 implies !p(#[trigger] s[m]) by {
                if m > 0 {
                    assert(s[m] == t[m - 1]);
                }
            }
            assert(is_first_where(s, p, k + 1));
        }
    } else {
        lemma_first_where_none(s, p);
    }
}

} // verus!
