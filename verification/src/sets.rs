//! Small sets kept in vectors, in the order in which their elements first came.
use vstd::prelude::*;
use crate::primitives::{ClassHash, StorageKey};

verus! {

/// The elements of `s`, each once, where it first occurs.
pub open spec fn distinct<T>(s: Seq<T>) -> Seq<T>
    decreases s.len(),
{
    if s.len() == 0 {
        Seq::empty()
    } else {
        let front = distinct(s.drop_last());
        if front.contains(s.last()) {
            front
        } else {
            front.push(s.last())
        }
    }
}

/// Whether the class hash `x` occurs in `v`.
pub fn contains_class_hash(v: &Vec<ClassHash>, x: ClassHash) -> (r: bool)
    ensures
        r == v@.contains(x),
{
    let mut i: usize = 0;
    while i < v.len()
        invariant
            i <= v.len(),
            forall|j: int| 0 <= j < i ==> v@[j] != x,
        decreases v.len() - i,
    {
        if v[i] == x {
            return true;
        }
        i += 1;
    }
    false
}

/// Adds the class hash `x` to the set `v`, at the end, unless it is there.
pub fn insert_class_hash(v: &mut Vec<ClassHash>, x: ClassHash)
    requires
        old(v)@.no_duplicates(),
    ensures
        final(v)@.no_duplicates(),
        final(v)@.to_set() == old(v)@.to_set().insert(x),
        final(v)@ == (if old(v)@.contains(x) {
            old(v)@
        } else {
            old(v)@.push(x)
        }),
{
    if !contains_class_hash(v, x) {
        v.push(x);
        proof {
            let a = old(v)@;
            let b = v@;
            assert forall|h: ClassHash| b.to_set().contains(h) <==> a.to_set().insert(
                x,
            ).contains(h) by {
                if b.contains(h) {
                    let k = choose|k: int| 0 <= k < b.len() && b[k] == h;
                    if k < a.len() {
                        assert(a[k] == h);
                    }
                }
                if a.contains(h) {
                    let k = choose|k: int| 0 <= k < a.len() && a[k] == h;
                    assert(b[k] == h);
                }
                if h == x {
                    assert(b[a.len() as int] == x);
                }
            }
            assert(b.to_set() =~= a.to_set().insert(x));
        }
    } else {
        assert(old(v)@.to_set().insert(x) =~= old(v)@.to_set());
    }
}

/// Whether the storage key `x` occurs in `v`.
pub fn contains_storage_key(v: &Vec<StorageKey>, x: StorageKey) -> (r: bool)
    ensures
        r == v@.contains(x),
{
    let mut i: usize = 0;
    while i < v.len()
        invariant
            i <= v.len(),
            forall|j: int| 0 <= j < i ==> v@[j] != x,
        decreases v.len() - i,
    {
        if v[i] == x {
            return true;
        }
        i += 1;
    }
    false
}

/// Adds the storage key `x` to the set `v`, at the end, unless it is there.
pub fn insert_storage_key(v: &mut Vec<StorageKey>, x: StorageKey)
    requires
        old(v)@.no_duplicates(),
    ensures
        final(v)@.no_duplicates(),
        final(v)@.to_set() == old(v)@.to_set().insert(x),
        final(v)@ == (if old(v)@.contains(x) {
            old(v)@
        } else {
            old(v)@.push(x)
        }),
{
    if !contains_storage_key(v, x) {
        v.push(x);
        proof {
            let a = old(v)@;
            let b = v@;
            assert forall|h: StorageKey| b.to_set().contains(h) <==> a.to_set().insert(
                x,
            ).contains(h) by {
                if b.contains(h) {
                    let k = choose|k: int| 0 <= k < b.len() && b[k] == h;
                    if k < a.len() {
                        assert(a[k] == h);
                    }
                }
                if a.contains(h) {
                    let k = choose|k: int| 0 <= k < a.len() && a[k] == h;
                    assert(b[k] == h);
                }
                if h == x {
                    assert(b[a.len() as int] == x);
                }
            }
            assert(b.to_set() =~= a.to_set().insert(x));
        }
    } else {
        assert(old(v)@.to_set().insert(x) =~= old(v)@.to_set());
    }
}

/// The elements of a sequence with one more at its end are those of the
/// sequence and that one.
pub proof fn lemma_push_to_set<T>(s: Seq<T>, x: T)
    ensures
        s.push(x).to_set() == s.to_set().insert(x),
{
    let t = s.push(x);
    assert forall|y: T| t.to_set().contains(y) <==> s.to_set().insert(x).contains(y) by {
        if t.contains(y) {
            let k = choose|k: int| 0 <= k < t.len() && t[k] == y;
            if k < s.len() {
                assert(s[k] == y);
            }
        }
        if s.contains(y) {
            let k = choose|k: int| 0 <= k < s.len() && s[k] == y;
            assert(t[k] == y);
        }
        if y == x {
            assert(t[s.len() as int] == x);
        }
    }
    assert(t.to_set() =~= s.to_set().insert(x));
}

/// The elements of two sequences, one after the other, are those of both.
pub proof fn lemma_concat_to_set<T>(a: Seq<T>, b: Seq<T>)
    ensures
        (a + b).to_set() == a.to_set().union(b.to_set()),
{
    let t = a + b;
    assert forall|y: T| t.to_set().contains(y) <==> a.to_set().union(b.to_set()).contains(y) by {
        if t.contains(y) {
            let k = choose|k: int| 0 <= k < t.len() && t[k] == y;
            if k < a.len() {
                assert(a[k] == y);
            } else {
                assert(b[k - a.len()] == y);
            }
        }
        if a.contains(y) {
            let k = choose|k: int| 0 <= k < a.len() && a[k] == y;
            assert(t[k] == y);
        }
        if b.contains(y) {
            let k = choose|k: int| 0 <= k < b.len() && b[k] == y;
            assert(t[a.len() + k] == y);
        }
    }
    assert(t.to_set() =~= a.to_set().union(b.to_set()));
}

/// The class hashes of `v`, each once, where it first occurs.
pub fn dedup_class_hashes(v: &Vec<ClassHash>) -> (r: Vec<ClassHash>)
    ensures
        r@ == distinct(v@),
        r@.no_duplicates(),
        r@.to_set() == v@.to_set(),
{
    let mut out: Vec<ClassHash> = Vec::new();
    let mut i: usize = 0;
    assert(out@.to_set() =~= v@.take(0).to_set());
    assert(out@ =~= distinct(v@.take(0)));
    while i < v.len()
        invariant
            i <= v@.len(),
            out@ == distinct(v@.take(i as int)),
            out@.no_duplicates(),
            out@.to_set() == v@.take(i as int).to_set(),
        decreases v@.len() - i,
    {
        insert_class_hash(&mut out, v[i]);
        proof {
            lemma_push_to_set(v@.take(i as int), v@[i as int]);
            assert(v@.take(i + 1) =~= v@.take(i as int).push(v@[i as int]));
            assert(v@.take(i + 1).drop_last() =~= v@.take(i as int));
        }
        i += 1;
    }
    assert(v@.take(i as int) =~= v@);
    out
}

} // verus!
