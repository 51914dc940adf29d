use vstd::prelude::*;

verus! {

/// How many records a history listing returns at most.
pub const HISTORY_LIMIT: usize = 5;

/// Strict ascending order of a sequence under an integer key: the ordering
/// invariant every history table maintains for `created_at`.
pub open spec fn sorted_by<T>(s: Seq<T>, key: spec_fn(T) -> i64) -> bool {
    forall|i: int, j: int|
        0 <= i < j < s.len() ==> #[trigger] key(s[i]) < #[trigger] key(s[j])
}

/// The bounded tail of a history: the whole sequence when it holds at most
/// `n` records, otherwise its last `n` records in their original order.
pub open spec fn list_tail<T>(s: Seq<T>, n: int) -> Seq<T> {
    if s.len() <= n {
        s
    } else {
        s.subrange(s.len() - n, s.len() as int)
    }
}

/// Law: a bounded listing returns the whole history when it is short enough,
/// and otherwise exactly the `n` most recent records, in their original
/// ascending order.
pub proof fn lemma_list_tail<T>(s: Seq<T>, n: int)
    requires
        0 <= n,
    ensures
        list_tail(s, n).len() == if s.len() <= n {
            s.len() as int
        } else {
            n
        },
        forall|i: int|
            0 <= i < list_tail(s, n).len() ==> #[trigger] list_tail(s, n)[i] == s[s.len()
                - list_tail(s, n).len() + i],
{
}

/// Filtering one appended record either extends the filtered sequence by that
/// record or leaves it unchanged, depending on the predicate.
pub proof fn lemma_filter_push<T>(s: Seq<T>, x: T, p: spec_fn(T) -> bool)
    ensures
        p(x) ==> s.push(x).filter(p) == s.filter(p).push(x),
        !p(x) ==> s.push(x).filter(p) == s.filter(p),
{
    reveal(Seq::filter);
    assert(s.push(x).drop_last() =~= s);
    assert(s.push(x).last() == x);
}

/// A sequence with no matching element filters to the empty sequence.
pub proof fn lemma_filter_empty<T>(s: Seq<T>, p: spec_fn(T) -> bool)
    requires
        forall|i: int| 0 <= i < s.len() ==> !p(#[trigger] s[i]),
    ensures
        s.filter(p) =~= Seq::<T>::empty(),
    decreases s.len(),
{
    reveal(Seq::filter);
    if s.len() > 0 {
        lemma_filter_empty(s.drop_last(), p);
    }
}

/// Every element of a filtered sequence occurs in the original sequence.
pub proof fn lemma_filter_subset<T>(s: Seq<T>, p: spec_fn(T) -> bool)
    ensures
        forall|i: int|
            0 <= i < s.filter(p).len() ==> s.contains(#[trigger] s.filter(p)[i]),
    decreases s.len(),
{
    reveal(Seq::filter);
    if s.len() > 0 {
        let pre = s.drop_last();
        lemma_filter_subset(pre, p);
        assert forall|i: int|
            0 <= i < s.filter(p).len() implies s.contains(#[trigger] s.filter(p)[i]) by {
            if p(s.last()) && i == s.filter(p).len() - 1 {
                assert(s[s.len() - 1] == s.filter(p)[i]);
            } else {
                assert(s.filter(p)[i] == pre.filter(p)[i]);
                assert(pre.contains(pre.filter(p)[i]));
                let k = choose|k: int| 0 <= k < pre.len() && pre[k] == pre.filter(p)[i];
                assert(s[k] == pre.filter(p)[i]);
            }
        }
    }
}

/// Filtering preserves strict ascending order under any key.
pub proof fn lemma_filter_sorted<T>(s: Seq<T>, p: spec_fn(T) -> bool, key: spec_fn(T) -> i64)
    requires
        sorted_by(s, key),
    ensures
        sorted_by(s.filter(p), key),
    decreases s.len(),
{
    reveal(Seq::filter);
    if s.len() > 0 {
        let pre = s.drop_last();
        assert(forall|i: int| 0 <= i < pre.len() ==> pre[i] == s[i]);
        lemma_filter_sorted(pre, p, key);
        lemma_filter_subset(pre, p);
        let sub = pre.filter(p);
        if p(s.last()) {
            let f = s.filter(p);
            assert(f == sub.push(s.last()));
            assert forall|i: int, j: int|
                0 <= i < j < f.len() implies #[trigger] key(f[i]) < #[trigger] key(f[j]) by {
                if j < f.len() - 1 {
                    assert(key(sub[i]) < key(sub[j]));
                } else {
                    assert(f[j] == s.last());
                    if i < f.len() - 1 {
                        assert(pre.contains(sub[i]));
                        let k = choose|k: int| 0 <= k < pre.len() && pre[k] == sub[i];
                        assert(key(s[k]) < key(s[s.len() - 1]));
                    }
                }
            }
        }
    }
}

/// Removing the last matching record of a sequence drops exactly the final
/// element of its filtered view and leaves everything else in place.
pub proof fn lemma_filter_remove_last_match<T>(s: Seq<T>, i: int, p: spec_fn(T) -> bool)
    requires
        0 <= i < s.len(),
        p(s[i]),
        forall|j: int| i < j < s.len() ==> !p(#[trigger] s[j]),
    ensures
        s.filter(p).len() > 0,
        s.filter(p).last() == s[i],
        s.filter(p).drop_last() == s.subrange(0, i).filter(p),
        s.remove(i).filter(p) == s.subrange(0, i).filter(p),
    decreases s.len(),
{
    reveal(Seq::filter);
    let pre = s.subrange(0, i);
    if i == s.len() - 1 {
        assert(s.drop_last() =~= pre);
        assert(s.remove(i) =~= pre);
        assert(s.filter(p) == pre.filter(p).push(s[i]));
    } else {
        let s2 = s.drop_last();
        assert(s2.subrange(0, i) =~= pre);
        lemma_filter_remove_last_match(s2, i, p);
        assert(!p(s.last()));
        assert(s.filter(p) == s2.filter(p));
        assert(s.remove(i).drop_last() =~= s2.remove(i));
        assert(s.remove(i).last() == s.last());
        assert(s.remove(i).filter(p) == s2.remove(i).filter(p));
    }
}

/// Removing a record that a predicate rejects leaves the filtered view
/// unchanged.
pub proof fn lemma_filter_remove_unmatched<T>(s: Seq<T>, i: int, p: spec_fn(T) -> bool)
    requires
        0 <= i < s.len(),
        !p(s[i]),
    ensures
        s.remove(i).filter(p) == s.filter(p),
    decreases s.len(),
{
    reveal(Seq::filter);
    if i == s.len() - 1 {
        assert(s.remove(i) =~= s.drop_last());
        assert(s.filter(p) == s.drop_last().filter(p));
    } else {
        lemma_filter_remove_unmatched(s.drop_last(), i, p);
        assert(s.remove(i).drop_last() =~= s.drop_last().remove(i));
        assert(s.remove(i).last() == s.last());
        if p(s.last()) {
            assert(s.remove(i).filter(p) == s.remove(i).drop_last().filter(p).push(s.last()));
            assert(s.filter(p) == s.drop_last().filter(p).push(s.last()));
        } else {
            assert(s.remove(i).filter(p) == s.remove(i).drop_last().filter(p));
        }
    }
}

/// A record appended with a key above every existing one keeps the sequence
/// in strict ascending order.
pub proof fn lemma_sorted_push<T>(s: Seq<T>, x: T, key: spec_fn(T) -> i64)
    requires
        sorted_by(s, key),
        forall|i: int| 0 <= i < s.len() ==> #[trigger] key(s[i]) < key(x),
    ensures
        sorted_by(s.push(x), key),
{
    let t = s.push(x);
    assert forall|i: int, j: int|
        0 <= i < j < t.len() implies #[trigger] key(t[i]) < #[trigger] key(t[j]) by {
        if j < t.len() - 1 {
            assert(key(s[i]) < key(s[j]));
        } else {
            assert(t[i] == s[i]);
        }
    }
}

/// Removing a record keeps the sequence in strict ascending order.
pub proof fn lemma_sorted_remove<T>(s: Seq<T>, i: int, key: spec_fn(T) -> i64)
    requires
        sorted_by(s, key),
        0 <= i < s.len(),
    ensures
        sorted_by(s.remove(i), key),
{
    s.remove_ensures(i);
    let t = s.remove(i);
    assert forall|a: int, b: int|
        0 <= a < b < t.len() implies #[trigger] key(t[a]) < #[trigger] key(t[b]) by {
        let a0: int = if a < i { a } else { a + 1 };
        let b0: int = if b < i { b } else { b + 1 };
        assert(t[a] == s[a0]);
        assert(t[b] == s[b0]);
        assert(key(s[a0]) < key(s[b0]));
    }
}

/// Mapping a view function commutes with appending a record.
pub proof fn lemma_map_values_push<A, B>(s: Seq<A>, x: A, f: spec_fn(A) -> B)
    ensures
        s.push(x).map_values(f) == s.map_values(f).push(f(x)),
{
    assert(s.push(x).map_values(f) =~= s.map_values(f).push(f(x)));
}

/// Mapping a view function commutes with removing a record.
pub proof fn lemma_map_values_remove<A, B>(s: Seq<A>, i: int, f: spec_fn(A) -> B)
    requires
        0 <= i < s.len(),
    ensures
        s.remove(i).map_values(f) == s.map_values(f).remove(i),
{
    assert(s.remove(i).map_values(f) =~= s.map_values(f).remove(i));
}

} // verus!
