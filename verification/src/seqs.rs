//! Facts about sequences that several parts of the crate lean on.

use vstd::prelude::*;

verus! {

/// A filter that every element passes keeps the sequence as it is.
pub proof fn lemma_filter_all<A>(s: Seq<A>, pred: spec_fn(A) -> bool)
    requires
        forall|i: int| 0 <= i < s.len() ==> pred(#[trigger] s[i]),
    ensures
        s.filter(pred) == s,
    decreases s.len(),
{
    reveal(Seq::filter);
    if s.len() > 0 {
        assert forall|i: int| 0 <= i < s.drop_last().len() implies pred(
            #[trigger] s.drop_last()[i],
        ) by {
            assert(s.drop_last()[i] == s[i]);
        }
        lemma_filter_all(s.drop_last(), pred);
        assert(s.drop_last().push(s.last()) =~= s);
    }
}

/// A filter that no element passes leaves nothing.
pub proof fn lemma_filter_none<A>(s: Seq<A>, pred: spec_fn(A) -> bool)
    requires
        forall|i: int| 0 <= i < s.len() ==> !pred(#[trigger] s[i]),
    ensures
        s.filter(pred) == Seq::<A>::empty(),
    decreases s.len(),
{
    reveal(Seq::filter);
    if s.len() > 0 {
        assert forall|i: int| 0 <= i < s.drop_last().len() implies !pred(
            #[trigger] s.drop_last()[i],
        ) by {
            assert(s.drop_last()[i] == s[i]);
        }
        lemma_filter_none(s.drop_last(), pred);
    }
}

/// What a filter keeps of a sequence with one more element at `at`: the
/// element, where it passes, between what is kept of the elements ahead
/// of it and of those behind it.
pub proof fn lemma_filter_insert<A>(s: Seq<A>, at: int, element: A, pred: spec_fn(A) -> bool)
    requires
        0 <= at <= s.len(),
    ensures
        s.filter(pred) == s.take(at).filter(pred) + s.skip(at).filter(pred),
        s.insert(at, element).filter(pred) == s.take(at).filter(pred) + (if pred(element) {
            seq![element]
        } else {
            Seq::empty()
        }) + s.skip(at).filter(pred),
{
    reveal(Seq::filter);
    let one = seq![element];
    assert(one.drop_last() =~= Seq::<A>::empty());
    assert(Seq::<A>::empty().filter(pred) =~= Seq::<A>::empty());
    assert(one.last() == element);
    assert(one.filter(pred) =~= (if pred(element) {
        one
    } else {
        Seq::empty()
    }));
    assert(s =~= s.take(at) + s.skip(at));
    assert(s.insert(at, element) =~= s.take(at) + one + s.skip(at));
    Seq::filter_distributes_over_add(s.take(at), s.skip(at), pred);
    Seq::filter_distributes_over_add(s.take(at) + one, s.skip(at), pred);
    Seq::filter_distributes_over_add(s.take(at), one, pred);
}

} // verus!
