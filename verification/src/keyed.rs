//! Tables kept as sequences of (name, value) pairs, looked up by name.
use vstd::prelude::*;

verus! {

/// Position of the last pair named `k`, or -1.
pub open spec fn key_index<V>(s: Seq<(Seq<char>, V)>, k: Seq<char>) -> int
    decreases s.len(),
{
    if s.len() == 0 {
        -1
    } else if s.last().0 == k {
        s.len() - 1
    } else {
        key_index(s.drop_last(), k)
    }
}

/// No name occurs twice.
pub open spec fn keys_distinct<V>(s: Seq<(Seq<char>, V)>) -> bool {
    forall|i: int, j: int| 0 <= i < j < s.len() ==> (#[trigger] s[i]).0 != (#[trigger] s[j]).0
}

/// What `key_index` finds.
pub proof fn lemma_key_index<V>(s: Seq<(Seq<char>, V)>, k: Seq<char>)
    ensures
        -1 <= key_index(s, k) < s.len(),
        key_index(s, k) >= 0 ==> s[key_index(s, k)].0 == k,
        key_index(s, k) == -1 ==> forall|m: int| 0 <= m < s.len() ==> (#[trigger] s[m]).0 != k,
        forall|m: int| key_index(s, k) < m < s.len() ==> (#[trigger] s[m]).0 != k,
    decreases s.len(),
{
    if s.len() > 0 {
        lemma_key_index(s.drop_last(), k);
        if s.last().0 != k {
            assert forall|m: int| key_index(s, k) < m < s.len() implies (#[trigger] s[m]).0 != k by {
                if m < s.len() - 1 {
                    assert(s[m] == s.drop_last()[m]);
                }
            }
        }
        if key_index(s, k) == -1 {
            assert forall|m: int| 0 <= m < s.len() implies (#[trigger] s[m]).0 != k by {
                if m < s.len() - 1 {
                    assert(s[m] == s.drop_last()[m]);
                }
            }
        }
    }
}

/// A pair named `k` with no later one of that name is the one `key_index` finds.
pub proof fn lemma_last_key<V>(s: Seq<(Seq<char>, V)>, k: Seq<char>, i: int)
    requires
        0 <= i < s.len(),
        s[i].0 == k,
        forall|m: int| i < m < s.len() ==> (#[trigger] s[m]).0 != k,
    ensures
        key_index(s, k) == i,
    decreases s.len(),
{
    if i < s.len() - 1 {
        assert(s.drop_last()[i] == s[i]);
        assert forall|m: int| i < m < s.drop_last().len() implies (#[trigger] s.drop_last()[m]).0 != k by {
            assert(s.drop_last()[m] == s[m]);
        }
        lemma_last_key(s.drop_last(), k, i);
    }
}

/// Replacing a pair's value, or appending a pair of a new name, keeps names distinct.
pub proof fn lemma_distinct_after_put<V>(s: Seq<(Seq<char>, V)>, k: Seq<char>, v: V)
    requires
        keys_distinct(s),
    ensures
        key_index(s, k) >= 0 ==> keys_distinct(s.update(key_index(s, k), (k, v))),
        key_index(s, k) < 0 ==> keys_distinct(s.push((k, v))),
{
    lemma_key_index(s, k);
    if key_index(s, k) >= 0 {
        let n = s.update(key_index(s, k), (k, v));
        assert forall|a: int, c: int| 0 <= a < c < n.len() implies (#[trigger] n[a]).0 != (#[trigger] n[c]).0 by {
            assert(n[a].0 == s[a].0 && n[c].0 == s[c].0);
        }
    } else {
        let n = s.push((k, v));
        assert forall|a: int, c: int| 0 <= a < c < n.len() implies (#[trigger] n[a]).0 != (#[trigger] n[c]).0 by {
            if c < s.len() {
                assert(n[a].0 == s[a].0 && n[c].0 == s[c].0);
            } else {
                assert(n[a].0 == s[a].0);
            }
        }
    }
}

} // verus!
