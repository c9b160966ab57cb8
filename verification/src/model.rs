//! How views of records extend to the containers that hold them.
use vstd::prelude::*;

verus! {

/// The views of the items of a sequence.
pub open spec fn views<T: View>(items: Seq<T>) -> Seq<T::V> {
    items.map_values(|x: T| x@)
}

/// The view of an optional item.
pub open spec fn opt_view<T: View>(item: Option<T>) -> Option<T::V> {
    match item {
        Some(x) => Some(x@),
        None => None,
    }
}

/// The views of the two halves of each pair of a sequence.
pub open spec fn pair_views<A: View, B: View>(items: Seq<(A, B)>) -> Seq<(A::V, B::V)> {
    items.map_values(|x: (A, B)| (x.0@, x.1@))
}

/// Appending an item appends its view.
pub proof fn lemma_views_push<T: View>(items: Seq<T>, x: T)
    ensures
        views(items.push(x)) == views(items).push(x@),
{
    assert(views(items.push(x)) =~= views(items).push(x@));
}

/// The views of a prefix that grows by one item.
pub proof fn lemma_views_take<T: View>(items: Seq<T>, i: int)
    requires
        0 <= i < items.len(),
    ensures
        views(items.take(i + 1)) == views(items.take(i)).push(items[i]@),
        items.take(i + 1).drop_last() == items.take(i),
        items.take(i + 1).last() == items[i],
{
    assert(items.take(i + 1) =~= items.take(i).push(items[i]));
    lemma_views_push(items.take(i), items[i]);
    assert(items.take(i + 1).drop_last() =~= items.take(i));
}

} // verus!
