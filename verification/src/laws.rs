use vstd::prelude::*;

verus! {

/// The contents after appending the values of `xs`, one at a time and in
/// order, to a container whose contents are `s`. Each step is exactly what
/// `push` promises of the container's view.
pub open spec fn pushed<T>(s: Seq<T>, xs: Seq<T>) -> Seq<T>
    decreases xs.len(),
{
    if xs.len() == 0 {
        s
    } else {
        pushed(s.push(xs.first()), xs.drop_first())
    }
}

/// Reading back after a run of appends yields exactly the pushed values in
/// push order: appending `xs` to contents `s` gives `s + xs`, so a container
/// filled from empty holds `xs` itself, element `i` at index `i`.
pub proof fn lemma_appends_read_back_in_order<T>(s: Seq<T>, xs: Seq<T>)
    ensures
        pushed(s, xs) == s + xs,
    decreases xs.len(),
{
    if xs.len() == 0 {
        assert(pushed(s, xs) =~= s + xs);
    } else {
        lemma_appends_read_back_in_order(s.push(xs.first()), xs.drop_first());
        assert(s.push(xs.first()) + xs.drop_first() =~= s + xs);
    }
}

/// The same, starting from an empty container: after appending `xs` in
/// order, the contents are exactly `xs`, element `i` at index `i`.
pub proof fn lemma_appends_from_empty<T>(xs: Seq<T>)
    ensures
        pushed(Seq::<T>::empty(), xs) == xs,
        forall|i: int| 0 <= i < xs.len() ==> pushed(Seq::<T>::empty(), xs)[i] == xs[i],
{
    lemma_appends_read_back_in_order(Seq::<T>::empty(), xs);
    assert(Seq::<T>::empty() + xs =~= xs);
}

/// `push` followed at once by `pop` is the identity on the contents, for any
/// prior contents: the popped value is the pushed one and the remaining
/// contents are unchanged. The two sides are the exact views that the
/// contracts of `push` and `pop` give.
pub proof fn lemma_push_then_pop_identity<T>(s: Seq<T>, v: T)
    ensures
        s.push(v).len() == s.len() + 1,
        s.push(v).last() == v,
        s.push(v).drop_last() == s,
{
    assert(s.push(v).drop_last() =~= s);
}

/// `insert` at a valid index followed at once by `remove` at that index is
/// the identity on the contents, and the removed value is the inserted one:
/// the exact views that the contracts of `insert` and `remove` give.
pub proof fn lemma_insert_then_remove_identity<T>(s: Seq<T>, i: int, v: T)
    requires
        0 <= i <= s.len(),
    ensures
        s.insert(i, v)[i] == v,
        s.insert(i, v).remove(i) == s,
{
    assert(s.insert(i, v).remove(i) =~= s);
}

} // verus!
