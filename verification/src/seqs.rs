//! Splitting sequences at a separator and finding the first occurrence of a
//! value, as the slice methods `split` and `position` do.
use vstd::prelude::*;

verus! {

/// The pieces of `s` between occurrences of `sep`, as `split` gives them:
/// one more piece than there are separators, empty pieces included.
pub open spec fn split_seq<T>(s: Seq<T>, sep: T) -> Seq<Seq<T>>
    decreases s.len(),
{
    if s.len() == 0 {
        seq![Seq::<T>::empty()]
    } else if s.last() == sep {
        split_seq(s.drop_last(), sep).push(Seq::<T>::empty())
    } else {
        let p = split_seq(s.drop_last(), sep);
        p.update(p.len() - 1, p.last().push(s.last()))
    }
}

/// Splitting one element further: the last piece grows, or a new empty piece
/// starts after a separator.
pub proof fn lemma_split_step<T>(s: Seq<T>, sep: T, done: Seq<Seq<T>>, start: int, j: int)
    requires
        0 <= start <= j < s.len(),
        split_seq(s.subrange(0, j), sep) == done.push(s.subrange(start, j)),
    ensures
        s[j] == sep ==> split_seq(s.subrange(0, j + 1), sep) == done.push(s.subrange(start, j)).push(
            s.subrange(j + 1, j + 1),
        ),
        s[j] != sep ==> split_seq(s.subrange(0, j + 1), sep) == done.push(s.subrange(start, j + 1)),
{
    let prefix = s.subrange(0, j + 1);
    assert(prefix.drop_last() == s.subrange(0, j));
    assert(prefix.last() == s[j]);
    if s[j] == sep {
        assert(s.subrange(j + 1, j + 1) =~= Seq::<T>::empty());
    } else {
        let x = s.subrange(start, j);
        let p = done.push(x);
        assert(p.last() == x);
        assert(x.push(s[j]) =~= s.subrange(start, j + 1));
        assert(p.update(p.len() - 1, p.last().push(s[j])) =~= done.push(s.subrange(start, j + 1)));
    }
}

/// Nothing has been split yet.
pub proof fn lemma_split_start<T>(s: Seq<T>, sep: T)
    ensures
        split_seq(s.subrange(0, 0), sep) == Seq::<Seq<T>>::empty().push(s.subrange(0, 0)),
{
    assert(s.subrange(0, 0) =~= Seq::<T>::empty());
    assert(split_seq(s.subrange(0, 0), sep) =~= Seq::<Seq<T>>::empty().push(s.subrange(0, 0)));
}

/// `k` is the position of the first `c` in `s`.
pub open spec fn is_first_index<T>(s: Seq<T>, c: T, k: int) -> bool {
    &&& 0 <= k < s.len()
    &&& s[k] == c
    &&& forall|m: int| 0 <= m < k ==> s[m] != c
}

/// The position of the first `c` in `s`, or its length when there is none.
pub open spec fn first_index<T>(s: Seq<T>, c: T) -> int {
    if exists|k: int| is_first_index(s, c, k) {
        choose|k: int| is_first_index(s, c, k)
    } else {
        s.len() as int
    }
}

/// The first position is the one found by a scan from the left.
pub proof fn lemma_first_index<T>(s: Seq<T>, c: T, k: int)
    requires
        0 <= k <= s.len(),
        forall|m: int| 0 <= m < k ==> s[m] != c,
        k < s.len() ==> s[k] == c,
    ensures
        first_index(s, c) == k,
{
    if k < s.len() {
        assert(is_first_index(s, c, k));
        let f = choose|f: int| is_first_index(s, c, f);
        assert(is_first_index(s, c, f));
        if f < k {
            assert(s[f] != c);
        } else if f > k {
            assert(s[k] != c);
        }
    } else {
        assert(!exists|f: int| is_first_index(s, c, f)) by {
            if exists|f: int| is_first_index(s, c, f) {
                let f = choose|f: int| is_first_index(s, c, f);
                assert(s[f] != c);
            }
        }
    }
}

/// The position of the first byte `c` in `b[from..to]`, counted from the
/// start of `b`; `to` when there is none.
pub fn find_byte(b: &[u8], from: usize, to: usize, c: u8) -> (r: usize)
    requires
        from <= to <= b@.len(),
    ensures
        r == from + first_index(b@.subrange(from as int, to as int), c),
        from <= r <= to,
{
    let ghost s = b@.subrange(from as int, to as int);
    let mut i = from;
    while i < to
        invariant
            from <= i <= to <= b@.len(),
            s == b@.subrange(from as int, to as int),
            forall|m: int| 0 <= m < i - from ==> s[m] != c,
        decreases to - i,
    {
        if b[i] == c {
            proof {
                lemma_first_index(s, c, i - from);
            }
            return i;
        }
        i = i + 1;
    }
    proof {
        lemma_first_index(s, c, i - from);
    }
    i
}

} // verus!
