//! Concatenation of mapped sequences, as the laws of the two stages use it.

use vstd::prelude::*;

verus! {

pub(crate) proof fn lemma_flat_map_empty<A, B>(f: spec_fn(A) -> Seq<B>)
    ensures
        Seq::<A>::empty().flat_map(f) == Seq::<B>::empty(),
{
    assert(Seq::<A>::empty().map_values(f) =~= Seq::<Seq<B>>::empty());
}

pub(crate) proof fn lemma_flat_map_cons<A, B>(head: A, tail: Seq<A>, f: spec_fn(A) -> Seq<B>)
    ensures
        (seq![head] + tail).flat_map(f) == f(head) + tail.flat_map(f),
{
    let mapped = (seq![head] + tail).map_values(f);
    assert(mapped.first() == f(head));
    assert(mapped.drop_first() =~= tail.map_values(f));
}

pub(crate) proof fn lemma_flat_map_single<A, B>(item: A, f: spec_fn(A) -> Seq<B>)
    ensures
        seq![item].flat_map(f) == f(item),
{
    lemma_flat_map_cons(item, Seq::empty(), f);
    lemma_flat_map_empty::<A, B>(f);
    assert(seq![item] + Seq::<A>::empty() =~= seq![item]);
    assert(f(item) + Seq::<B>::empty() =~= f(item));
}

} // verus!
