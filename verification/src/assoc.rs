//! Association lists: sequences of pairs of a key and a value, read as maps.
use vstd::prelude::*;

verus! {

/// Whether no key stands twice in `s`.
pub open spec fn keys_unique<K, V>(s: Seq<(K, V)>) -> bool {
    forall|i: int, j: int|
        0 <= i < s.len() && 0 <= j < s.len() && i != j ==> (#[trigger] s[i]).0 != (#[trigger] s[j]).0
}

/// Whether `k` is a key of `s`.
pub open spec fn has_key<K, V>(s: Seq<(K, V)>, k: K) -> bool {
    exists|i: int| 0 <= i < s.len() && (#[trigger] s[i]).0 == k
}

/// An index at which `k` stands in `s`, where it is a key of `s`.
pub open spec fn index_of_key<K, V>(s: Seq<(K, V)>, k: K) -> int {
    choose|i: int| 0 <= i < s.len() && (#[trigger] s[i]).0 == k
}

/// The value under `k` in `s`, if `k` is a key of `s`.
pub open spec fn value_of<K, V>(s: Seq<(K, V)>, k: K) -> Option<V> {
    if has_key(s, k) {
        Some(s[index_of_key(s, k)].1)
    } else {
        None
    }
}

/// The map that `s` stands for.
pub open spec fn to_map<K, V>(s: Seq<(K, V)>) -> Map<K, V> {
    Map::new(|k: K| has_key(s, k), |k: K| s[index_of_key(s, k)].1)
}

/// `s` with `v` under `k`: in the place of `k` where it is a key of `s`, at the
/// end where it is not.
pub open spec fn upsert<K, V>(s: Seq<(K, V)>, k: K, v: V) -> Seq<(K, V)> {
    if has_key(s, k) {
        s.update(index_of_key(s, k), (k, v))
    } else {
        s.push((k, v))
    }
}

/// `s` without the pair at `i`, the last pair moved into its place.
pub open spec fn swap_remove<K, V>(s: Seq<(K, V)>, i: int) -> Seq<(K, V)> {
    if i == s.len() - 1 {
        s.drop_last()
    } else {
        s.update(i, s.last()).drop_last()
    }
}

/// Where keys are unique, a key stands at one index only.
pub proof fn lemma_index_of_key<K, V>(s: Seq<(K, V)>, i: int)
    requires
        keys_unique(s),
        0 <= i < s.len(),
    ensures
        has_key(s, s[i].0),
        index_of_key(s, s[i].0) == i,
        value_of(s, s[i].0) == Some(s[i].1),
{
    assert(has_key(s, s[i].0));
}

/// Putting a value under a key keeps keys unique and changes the map at that
/// key only.
pub proof fn lemma_upsert<K, V>(s: Seq<(K, V)>, k: K, v: V)
    requires
        keys_unique(s),
    ensures
        keys_unique(upsert(s, k, v)),
        to_map(upsert(s, k, v)) == to_map(s).insert(k, v),
{
    let t = upsert(s, k, v);
    if has_key(s, k) {
        let at = index_of_key(s, k);
        assert forall|i: int, j: int| 0 <= i < t.len() && 0 <= j < t.len() && i != j implies (
        #[trigger] t[i]).0 != (#[trigger] t[j]).0 by {
            assert(t[i].0 == s[i].0);
            assert(t[j].0 == s[j].0);
        }
        assert forall|x: K| has_key(t, x) <==> (x == k || has_key(s, x)) by {
            if has_key(t, x) {
                let i = index_of_key(t, x);
                assert(s[i].0 == t[i].0);
            }
            if has_key(s, x) {
                let i = index_of_key(s, x);
                assert(t[i].0 == s[i].0);
            }
            if x == k {
                assert(t[at].0 == k);
            }
        }
    } else {
        assert forall|i: int, j: int| 0 <= i < t.len() && 0 <= j < t.len() && i != j implies (
        #[trigger] t[i]).0 != (#[trigger] t[j]).0 by {
            if i < s.len() {
                assert(t[i] == s[i]);
            }
            if j < s.len() {
                assert(t[j] == s[j]);
            }
        }
        assert forall|x: K| has_key(t, x) <==> (x == k || has_key(s, x)) by {
            if has_key(t, x) {
                let i = index_of_key(t, x);
                if i < s.len() {
                    assert(s[i].0 == x);
                }
            }
            if has_key(s, x) {
                let i = index_of_key(s, x);
                assert(t[i].0 == x);
            }
            if x == k {
                assert(t[s.len() as int].0 == k);
            }
        }
    }
    assert forall|x: K| has_key(t, x) implies #[trigger] to_map(t)[x] == to_map(s).insert(
        k,
        v,
    )[x] by {
        let i = index_of_key(t, x);
        if x == k {
            if has_key(s, k) {
                let at = index_of_key(s, k);
                assert(t[at].0 == k);
                lemma_index_of_key(t, at);
            } else {
                lemma_index_of_key(t, s.len() as int);
            }
        } else {
            let j = index_of_key(s, x);
            assert(t[j] == s[j]);
            lemma_index_of_key(t, j);
        }
    }
    assert(to_map(t) =~= to_map(s).insert(k, v));
}

/// Taking a pair out keeps keys unique and takes its key out of the map.
pub proof fn lemma_swap_remove<K, V>(s: Seq<(K, V)>, i: int)
    requires
        keys_unique(s),
        0 <= i < s.len(),
    ensures
        keys_unique(swap_remove(s, i)),
        to_map(swap_remove(s, i)) == to_map(s).remove(s[i].0),
{
    let t = swap_remove(s, i);
    let last = s.len() - 1;
    // Where each pair of `t` stood in `s`.
    let from = |a: int| if a == i && i != last { last } else { a };
    assert forall|a: int| 0 <= a < t.len() implies #[trigger] t[a] == s[from(a)] && 0 <= from(a)
        < s.len() && from(a) != i by {}
    assert forall|a: int, b: int| 0 <= a < t.len() && 0 <= b < t.len() && a != b implies (
    #[trigger] t[a]).0 != (#[trigger] t[b]).0 by {
        assert(t[a] == s[from(a)]);
        assert(t[b] == s[from(b)]);
        assert(from(a) != from(b));
    }
    assert forall|x: K| has_key(t, x) <==> (x != s[i].0 && has_key(s, x)) by {
        if has_key(t, x) {
            let a = index_of_key(t, x);
            assert(t[a] == s[from(a)]);
            assert(s[from(a)].0 == x);
            assert(from(a) != i);
        }
        if x != s[i].0 && has_key(s, x) {
            let b = index_of_key(s, x);
            if b == last {
                if i != last {
                    assert(t[i].0 == x);
                }
            } else {
                assert(t[b].0 == x);
            }
        }
    }
    assert forall|x: K| has_key(t, x) implies #[trigger] to_map(t)[x] == to_map(s).remove(
        s[i].0,
    )[x] by {
        let a = index_of_key(t, x);
        assert(t[a] == s[from(a)]);
        lemma_index_of_key(s, from(a));
    }
    assert(to_map(t) =~= to_map(s).remove(s[i].0));
}

} // verus!
