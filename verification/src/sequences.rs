//! Facts about filtered sequences that the proofs of the ledgers share.

use vstd::prelude::*;

verus! {

/// Filtering one element more of a sequence adds that element, if it
/// passes, to the end of what has been filtered.
pub proof fn lemma_filter_step<A>(all: Seq<A>, test: spec_fn(A) -> bool, n: int)
    requires
        0 <= n < all.len(),
    ensures
        all.take(n + 1).filter(test) == if test(all[n]) {
            all.take(n).filter(test).push(all[n])
        } else {
            all.take(n).filter(test)
        },
{
    assert(all.take(n + 1) =~= all.take(n).push(all[n]));
    all.take(n).lemma_filter_push(all[n], test);
}

/// Nothing passes a filter of nothing, and the whole of a sequence is its
/// longest prefix.
pub proof fn lemma_filter_ends<A>(all: Seq<A>, test: spec_fn(A) -> bool)
    ensures
        all.take(0).filter(test) == Seq::<A>::empty(),
        all.take(all.len() as int) == all,
{
    reveal(Seq::filter);
    assert(all.take(0).filter(test) =~= Seq::<A>::empty());
    assert(all.take(all.len() as int) =~= all);
}

/// A filter that everything passes changes nothing.
pub proof fn lemma_filter_all<A>(all: Seq<A>, test: spec_fn(A) -> bool)
    requires
        forall|i: int| 0 <= i < all.len() ==> test(#[trigger] all[i]),
    ensures
        all.filter(test) == all,
    decreases all.len(),
{
    reveal(Seq::filter);
    if all.len() > 0 {
        assert forall|i: int| 0 <= i < all.drop_last().len() implies test(
            #[trigger] all.drop_last()[i],
        ) by {
            assert(all.drop_last()[i] == all[i]);
        }
        lemma_filter_all(all.drop_last(), test);
        assert(test(all[all.len() - 1]));
        assert(all.drop_last().push(all.last()) =~= all);
    }
}

/// What passes a filter comes from the sequence, in the same order: the
/// lemma gives, for each place of the filtered sequence, the place it comes
/// from.
pub proof fn lemma_filter_places<A>(all: Seq<A>, test: spec_fn(A) -> bool) -> (places: Seq<int>)
    ensures
        places.len() == all.filter(test).len(),
        forall|k: int|
            0 <= k < places.len() ==> 0 <= #[trigger] places[k] < all.len() && all[places[k]]
                == all.filter(test)[k],
        forall|k: int, l: int| 0 <= k < l < places.len() ==> places[k] < places[l],
    decreases all.len(),
{
    reveal(Seq::filter);
    if all.len() == 0 {
        Seq::empty()
    } else {
        let front = lemma_filter_places(all.drop_last(), test);
        assert forall|k: int| 0 <= k < front.len() implies all[#[trigger] front[k]]
            == all.drop_last()[front[k]] by {}
        if test(all.last()) {
            front.push(all.len() - 1)
        } else {
            front
        }
    }
}

} // verus!
