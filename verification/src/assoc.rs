//! Maps keyed by wide strings, kept as lists of pairs with distinct keys.
use vstd::prelude::*;

verus! {

/// No two entries have the same key.
pub open spec fn keys_distinct<V>(l: Seq<(Vec<u16>, V)>) -> bool {
    forall|i: int, j: int| 0 <= i < j < l.len() ==> (#[trigger] l[i].0)@ != (#[trigger] l[j].0)@
}

/// Some entry has this key.
pub open spec fn has_key<V>(l: Seq<(Vec<u16>, V)>, k: Seq<u16>) -> bool {
    exists|i: int| 0 <= i < l.len() && (#[trigger] l[i].0)@ == k
}

/// The position of the entry with this key.
pub open spec fn index_of_key<V>(l: Seq<(Vec<u16>, V)>, k: Seq<u16>) -> int {
    choose|i: int| 0 <= i < l.len() && (#[trigger] l[i].0)@ == k
}

/// The map that the entries stand for.
pub open spec fn assoc_map<V>(l: Seq<(Vec<u16>, V)>) -> Map<Seq<u16>, V> {
    Map::new(|k: Seq<u16>| has_key(l, k), |k: Seq<u16>| l[index_of_key(l, k)].1)
}

/// The entry at a position is what the map gives for its key.
pub proof fn lemma_assoc_index<V>(l: Seq<(Vec<u16>, V)>, i: int)
    requires
        keys_distinct(l),
        0 <= i < l.len(),
    ensures
        assoc_map(l).contains_key(l[i].0@),
        assoc_map(l)[l[i].0@] == l[i].1,
{
    let k = l[i].0@;
    assert(has_key(l, k));
    let j = index_of_key(l, k);
    assert(0 <= j < l.len() && l[j].0@ == k);
    if j < i {
        assert(l[j].0@ != l[i].0@);
    } else if j > i {
        assert(l[i].0@ != l[j].0@);
    }
}

/// Adding an entry with a new key adds it to the map.
pub proof fn lemma_assoc_push<V>(l: Seq<(Vec<u16>, V)>, k: Vec<u16>, v: V)
    requires
        keys_distinct(l),
        !has_key(l, k@),
    ensures
        keys_distinct(l.push((k, v))),
        assoc_map(l.push((k, v))) == assoc_map(l).insert(k@, v),
{
    let l2 = l.push((k, v));
    assert forall|i: int, j: int| 0 <= i < j < l2.len() implies (#[trigger] l2[i].0)@ != (
    #[trigger] l2[j].0)@ by {
        if j == l.len() {
            assert(l2[i] == l[i]);
            if l[i].0@ == k@ {
                assert(has_key(l, k@));
            }
        } else {
            assert(l2[i] == l[i]);
            assert(l2[j] == l[j]);
        }
    }
    let m1 = assoc_map(l2);
    let m2 = assoc_map(l).insert(k@, v);
    assert forall|key: Seq<u16>| m1.contains_key(key) <==> m2.contains_key(key) by {
        if has_key(l2, key) {
            let i = choose|i: int| 0 <= i < l2.len() && (#[trigger] l2[i].0)@ == key;
            if i < l.len() {
                assert(l2[i] == l[i]);
                assert(has_key(l, key));
            }
        }
        if has_key(l, key) {
            let i = choose|i: int| 0 <= i < l.len() && (#[trigger] l[i].0)@ == key;
            assert(l2[i] == l[i]);
            assert(has_key(l2, key));
        }
        if key == k@ {
            assert(l2[l.len() as int].0@ == key);
            assert(has_key(l2, key));
        }
    }
    assert forall|key: Seq<u16>| #[trigger] m1.contains_key(key) implies m1[key] == m2[key] by {
        let i = index_of_key(l2, key);
        assert(0 <= i < l2.len() && l2[i].0@ == key);
        lemma_assoc_index(l2, i);
        if i < l.len() {
            assert(l2[i] == l[i]);
            lemma_assoc_index(l, i);
        }
    }
    assert(m1 =~= m2);
}

/// Removing the entry at a position removes its key from the map.
pub proof fn lemma_assoc_remove<V>(l: Seq<(Vec<u16>, V)>, i: int)
    requires
        keys_distinct(l),
        0 <= i < l.len(),
    ensures
        keys_distinct(l.remove(i)),
        assoc_map(l.remove(i)) == assoc_map(l).remove(l[i].0@),
{
    let l2 = l.remove(i);
    let gone = l[i].0@;
    assert forall|a: int| 0 <= a < l2.len() implies #[trigger] l2[a] == (if a < i {
        l[a]
    } else {
        l[a + 1]
    }) by {}
    assert forall|a: int, b: int| 0 <= a < b < l2.len() implies (#[trigger] l2[a].0)@ != (
    #[trigger] l2[b].0)@ by {
        let a1 = if a < i { a } else { a + 1 };
        let b1 = if b < i { b } else { b + 1 };
        assert(l2[a] == l[a1]);
        assert(l2[b] == l[b1]);
        assert(a1 < b1);
    }
    let m1 = assoc_map(l2);
    let m2 = assoc_map(l).remove(gone);
    assert forall|key: Seq<u16>| m1.contains_key(key) <==> m2.contains_key(key) by {
        if has_key(l2, key) {
            let a = choose|a: int| 0 <= a < l2.len() && (#[trigger] l2[a].0)@ == key;
            let a1 = if a < i { a } else { a + 1 };
            assert(l2[a] == l[a1]);
            assert(has_key(l, key));
            assert(a1 != i);
            if key == gone {
                if a1 < i {
                    assert(l[a1].0@ != l[i].0@);
                } else {
                    assert(l[i].0@ != l[a1].0@);
                }
            }
        }
        if has_key(l, key) && key != gone {
            let a = choose|a: int| 0 <= a < l.len() && (#[trigger] l[a].0)@ == key;
            assert(a != i);
            let a2 = if a < i { a } else { a - 1 };
            assert(l2[a2] == l[a]);
            assert(has_key(l2, key));
        }
    }
    assert forall|key: Seq<u16>| #[trigger] m1.contains_key(key) implies m1[key] == m2[key] by {
        let a = index_of_key(l2, key);
        assert(0 <= a < l2.len() && l2[a].0@ == key);
        lemma_assoc_index(l2, a);
        let a1 = if a < i { a } else { a + 1 };
        assert(l2[a] == l[a1]);
        lemma_assoc_index(l, a1);
    }
    assert(m1 =~= m2);
}

/// Whether two wide strings are equal.
pub fn wide_eq(a: &[u16], b: &[u16]) -> (r: bool)
    ensures
        r == (a@ == b@),
{
    if a.len() != b.len() {
        return false;
    }
    let mut i: usize = 0;
    while i < a.len()
        invariant
            i <= a@.len(),
            a@.len() == b@.len(),
            forall|j: int| 0 <= j < i ==> a@[j] == b@[j],
        decreases a@.len() - i,
    {
        if a[i] != b[i] {
            return false;
        }
        i = i + 1;
    }
    assert(a@ =~= b@);
    true
}

/// The position of the entry with this key, if there is one.
pub fn find_key<V>(l: &Vec<(Vec<u16>, V)>, k: &[u16]) -> (r: Option<usize>)
    ensures
        match r {
            Some(i) => i < l@.len() && l@[i as int].0@ == k@,
            None => !has_key(l@, k@),
        },
{
    let mut i: usize = 0;
    while i < l.len()
        invariant
            i <= l@.len(),
            forall|j: int| 0 <= j < i ==> (#[trigger] l@[j].0)@ != k@,
        decreases l@.len() - i,
    {
        if wide_eq(l[i].0.as_slice(), k) {
            return Some(i);
        }
        i = i + 1;
    }
    None
}

} // verus!
