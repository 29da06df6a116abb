//! Stable ordering by a key, largest first: the order in which lists are shown.
use vstd::prelude::*;

verus! {

/// The first position of `s` whose key is below `k`; the length of `s` where there is none.
pub open spec fn first_below<T>(s: Seq<T>, key: spec_fn(T) -> int, k: int) -> nat
    decreases s.len(),
{
    if s.len() == 0 {
        0
    } else if key(s[0]) < k {
        0
    } else {
        1 + first_below(s.drop_first(), key, k)
    }
}

/// `s` with `x` put after every element whose key is at least that of `x`, and before the
/// rest.
pub open spec fn insert_desc<T>(s: Seq<T>, key: spec_fn(T) -> int, x: T) -> Seq<T> {
    s.insert(first_below(s, key, key(x)) as int, x)
}

/// `s` ordered by key, largest first, elements of equal key keeping their order in `s`.
pub open spec fn stable_desc<T>(s: Seq<T>, key: spec_fn(T) -> int) -> Seq<T>
    decreases s.len(),
{
    if s.len() == 0 {
        s
    } else {
        insert_desc(stable_desc(s.drop_last(), key), key, s.last())
    }
}

/// The first position whose key is below `k` is `p` where every key before `p` is at least
/// `k` and the key at `p`, if any, is below it.
pub proof fn lemma_first_below<T>(s: Seq<T>, key: spec_fn(T) -> int, k: int, p: int)
    requires
        0 <= p <= s.len(),
        forall|i: int| 0 <= i < p ==> key(#[trigger] s[i]) >= k,
        p < s.len() ==> key(s[p]) < k,
    ensures
        first_below(s, key, k) == p,
    decreases p,
{
    if p > 0 {
        let t = s.drop_first();
        assert forall|i: int| 0 <= i < p - 1 implies key(#[trigger] t[i]) >= k by {
            assert(t[i] == s[i + 1]);
        }
        if p - 1 < t.len() {
            assert(t[p - 1] == s[p]);
        }
        assert(key(s[0]) >= k);
        lemma_first_below(t, key, k, p - 1);
    }
}

} // verus!
