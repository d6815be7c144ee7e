use vstd::prelude::*;

verus! {

/// Filtering after appending one element keeps the element exactly when the
/// predicate holds of it.
pub proof fn lemma_filter_push<T>(s: Seq<T>, x: T, pred: spec_fn(T) -> bool)
    ensures
        s.push(x).filter(pred) == if pred(x) {
            s.filter(pred).push(x)
        } else {
            s.filter(pred)
        },
{
    reveal(Seq::filter);
    assert(s.push(x).drop_last() =~= s);
}

/// A sequence every element of which satisfies the predicate filters to itself.
pub proof fn lemma_filter_all_true<T>(s: Seq<T>, pred: spec_fn(T) -> bool)
    requires
        forall|i: int| 0 <= i < s.len() ==> pred(#[trigger] s[i]),
    ensures
        s.filter(pred) == s,
    decreases s.len(),
{
    reveal(Seq::filter);
    if s.len() > 0 {
        lemma_filter_all_true(s.drop_last(), pred);
        assert(s.drop_last().push(s.last()) =~= s);
    }
}

/// If exactly one element falls to the predicate, filtering equals removing it.
pub proof fn lemma_filter_remove_one<T>(s: Seq<T>, i: int, pred: spec_fn(T) -> bool)
    requires
        0 <= i < s.len(),
        !pred(s[i]),
        forall|k: int| 0 <= k < s.len() && k != i ==> pred(#[trigger] s[k]),
    ensures
        s.filter(pred) == s.remove(i),
{
    let a = s.subrange(0, i);
    let mid = seq![s[i]];
    let b = s.subrange(i + 1, s.len() as int);
    assert(s =~= a + mid + b);
    Seq::filter_distributes_over_add(a + mid, b, pred);
    Seq::filter_distributes_over_add(a, mid, pred);
    lemma_filter_all_true(a, pred);
    lemma_filter_all_true(b, pred);
    reveal(Seq::filter);
    assert(mid.last() == s[i]);
    assert(mid.drop_last() =~= Seq::<T>::empty());
    assert(Seq::<T>::empty().filter(pred) =~= Seq::<T>::empty());
    assert(mid.filter(pred) =~= Seq::<T>::empty());
    assert(s.remove(i) =~= a + b);
    assert(s.filter(pred) =~= a + b);
}

} // verus!
