//! Maps from text keys, kept as lists of distinct-keyed pairs.
use vstd::prelude::*;

verus! {

/// The map that the pairs `s` stand for: each key to its value, a later pair winning.
pub open spec fn pairs_map<V>(s: Seq<(String, V)>) -> Map<Seq<char>, V>
    decreases s.len(),
{
    if s.len() == 0 {
        Map::empty()
    } else {
        pairs_map(s.drop_last()).insert(s.last().0@, s.last().1)
    }
}

/// No two pairs of `s` share a key.
pub open spec fn keys_unique<V>(s: Seq<(String, V)>) -> bool {
    forall|i: int, j: int| 0 <= i < j < s.len() ==> s[i].0@ != s[j].0@
}

/// The keys of `s`, in order.
pub open spec fn keys_of<V>(s: Seq<(String, V)>) -> Seq<Seq<char>> {
    s.map_values(|p: (String, V)| p.0@)
}

/// The values of `s`, in order.
pub open spec fn values_of<V>(s: Seq<(String, V)>) -> Seq<V> {
    s.map_values(|p: (String, V)| p.1)
}

/// A key is in the map exactly where some pair has it.
pub proof fn lemma_pairs_map_dom<V>(s: Seq<(String, V)>, k: Seq<char>)
    ensures
        pairs_map(s).dom().contains(k) <==> exists|i: int| 0 <= i < s.len() && #[trigger] s[i].0@ == k,
        pairs_map(s).dom().finite(),
    decreases s.len(),
{
    if s.len() > 0 {
        lemma_pairs_map_dom(s.drop_last(), k);
        if pairs_map(s.drop_last()).dom().contains(k) {
            let i = choose|i: int| 0 <= i < s.drop_last().len() && #[trigger] s.drop_last()[i].0@ == k;
            assert(s[i].0@ == k);
        }
        if exists|i: int| 0 <= i < s.len() && #[trigger] s[i].0@ == k {
            let i = choose|i: int| 0 <= i < s.len() && #[trigger] s[i].0@ == k;
            if i < s.len() - 1 {
                assert(s.drop_last()[i].0@ == k);
            }
        }
    }
}

/// With distinct keys, the map holds at the key of each pair that pair's value.
pub proof fn lemma_pairs_map_at<V>(s: Seq<(String, V)>, i: int)
    requires
        keys_unique(s),
        0 <= i < s.len(),
    ensures
        pairs_map(s).dom().contains(s[i].0@),
        pairs_map(s)[s[i].0@] == s[i].1,
    decreases s.len(),
{
    if i < s.len() - 1 {
        lemma_pairs_map_at(s.drop_last(), i);
    }
}

/// With distinct keys, the map has as many keys as there are pairs.
pub proof fn lemma_pairs_map_len<V>(s: Seq<(String, V)>)
    requires
        keys_unique(s),
    ensures
        pairs_map(s).dom().len() == s.len(),
        pairs_map(s).dom().finite(),
    decreases s.len(),
{
    lemma_pairs_map_dom(s, Seq::empty());
    if s.len() > 0 {
        lemma_pairs_map_len(s.drop_last());
        lemma_pairs_map_dom(s.drop_last(), s.last().0@);
        if pairs_map(s.drop_last()).dom().contains(s.last().0@) {
            let i = choose|i: int| 0 <= i < s.drop_last().len() && #[trigger] s.drop_last()[i].0@ == s.last().0@;
            assert(s[i].0@ == s[s.len() - 1].0@);
        }
    }
}

/// Pairs are the values of the map at their keys, and the map holds no other key.
pub proof fn lemma_values_are_map_values<V>(s: Seq<(String, V)>)
    requires
        keys_unique(s),
    ensures
        forall|v: V| values_of(s).contains(v) <==> exists|k: Seq<char>| #[trigger] pairs_map(s).dom().contains(k)
            && pairs_map(s)[k] == v,
{
    assert forall|v: V| values_of(s).contains(v) implies exists|k: Seq<char>| #[trigger] pairs_map(s).dom().contains(k)
        && pairs_map(s)[k] == v by {
        let i = choose|i: int| 0 <= i < values_of(s).len() && values_of(s)[i] == v;
        lemma_pairs_map_at(s, i);
    }
    assert forall|v: V| (exists|k: Seq<char>| #[trigger] pairs_map(s).dom().contains(k) && pairs_map(s)[k] == v)
        implies values_of(s).contains(v) by {
        let k = choose|k: Seq<char>| #[trigger] pairs_map(s).dom().contains(k) && pairs_map(s)[k] == v;
        lemma_pairs_map_dom(s, k);
        let i = choose|i: int| 0 <= i < s.len() && #[trigger] s[i].0@ == k;
        lemma_pairs_map_at(s, i);
        assert(values_of(s)[i] == v);
    }
}

/// Setting the value of the pair at `i` sets the map at its key.
pub proof fn lemma_pairs_map_set<V>(s: Seq<(String, V)>, i: int, p: (String, V))
    requires
        keys_unique(s),
        0 <= i < s.len(),
        p.0@ == s[i].0@,
    ensures
        keys_unique(s.update(i, p)),
        pairs_map(s.update(i, p)) == pairs_map(s).insert(p.0@, p.1),
    decreases s.len(),
{
    let u = s.update(i, p);
    if i == s.len() - 1 {
        assert(u.drop_last() =~= s.drop_last());
        lemma_pairs_map_dom(s.drop_last(), p.0@);
        if pairs_map(s.drop_last()).dom().contains(p.0@) {
            let j = choose|j: int| 0 <= j < s.drop_last().len() && #[trigger] s.drop_last()[j].0@ == p.0@;
            assert(s[j].0@ == s[i].0@);
        }
        assert(pairs_map(u) =~= pairs_map(s).insert(p.0@, p.1));
    } else {
        assert(u.drop_last() =~= s.drop_last().update(i, p));
        lemma_pairs_map_set(s.drop_last(), i, p);
        assert(pairs_map(u) =~= pairs_map(s).insert(p.0@, p.1));
    }
}

/// Taking out the pair at `i` takes its key out of the map.
pub proof fn lemma_pairs_map_remove<V>(s: Seq<(String, V)>, i: int)
    requires
        keys_unique(s),
        0 <= i < s.len(),
    ensures
        keys_unique(s.remove(i)),
        pairs_map(s.remove(i)) == pairs_map(s).remove(s[i].0@),
    decreases s.len(),
{
    let r = s.remove(i);
    if i == s.len() - 1 {
        assert(r =~= s.drop_last());
        lemma_pairs_map_dom(s.drop_last(), s[i].0@);
        if pairs_map(s.drop_last()).dom().contains(s[i].0@) {
            let j = choose|j: int| 0 <= j < s.drop_last().len() && #[trigger] s.drop_last()[j].0@ == s[i].0@;
            assert(s[j].0@ == s[i].0@);
        }
        assert(pairs_map(r) =~= pairs_map(s).remove(s[i].0@));
    } else {
        assert(r.drop_last() =~= s.drop_last().remove(i));
        assert(r.last() == s.last());
        lemma_pairs_map_remove(s.drop_last(), i);
        assert(pairs_map(r) =~= pairs_map(s).remove(s[i].0@));
    }
}

/// The position of the pair with key `k` in `s`.
pub fn find_key<V>(s: &Vec<(String, V)>, k: &str) -> (res: Option<usize>)
    ensures
        res matches Some(i) ==> i < s@.len() && s@[i as int].0@ == k@,
        res is None ==> !pairs_map(s@).dom().contains(k@),
{
    let target = k.to_owned();
    let mut i: usize = 0;
    while i < s.len()
        invariant
            i <= s@.len(),
            target@ == k@,
            forall|j: int| 0 <= j < i ==> s@[j].0@ != k@,
        decreases s@.len() - i,
    {
        if s[i].0 == target {
            return Some(i);
        }
        i = i + 1;
    }
    proof {
        lemma_pairs_map_dom(s@, k@);
    }
    None
}

/// Sets the value at `k` to `v`.
pub fn map_insert<V>(s: &mut Vec<(String, V)>, k: String, v: V)
    requires
        keys_unique(old(s)@),
    ensures
        keys_unique(final(s)@),
        pairs_map(final(s)@) == pairs_map(old(s)@).insert(k@, v),
{
    match find_key(s, k.as_str()) {
        Some(i) => {
            let ghost before = s@;
            let ghost p = (k, v);
            s.set(i, (k, v));
            proof {
                lemma_pairs_map_set(before, i as int, p);
            }
        },
        None => {
            let ghost before = s@;
            let ghost kv = k@;
            s.push((k, v));
            proof {
                assert(s@.drop_last() =~= before);
                assert forall|i: int, j: int| 0 <= i < j < s@.len() implies s@[i].0@ != s@[j].0@ by {
                    if j == s@.len() - 1 {
                        lemma_pairs_map_dom(before, kv);
                        assert(before[i].0@ == s@[i].0@);
                    }
                }
            }
        },
    }
}

/// Takes the key `k` out; whether it was there.
pub fn map_remove<V>(s: &mut Vec<(String, V)>, k: &str) -> (res: bool)
    requires
        keys_unique(old(s)@),
    ensures
        keys_unique(final(s)@),
        res == pairs_map(old(s)@).dom().contains(k@),
        pairs_map(final(s)@) == pairs_map(old(s)@).remove(k@),
{
    match find_key(s, k) {
        Some(i) => {
            let ghost before = s@;
            s.remove(i);
            proof {
                lemma_pairs_map_remove(before, i as int);
                lemma_pairs_map_at(before, i as int);
            }
            true
        },
        None => {
            assert(pairs_map(s@) =~= pairs_map(s@).remove(k@));
            false
        },
    }
}

} // verus!
