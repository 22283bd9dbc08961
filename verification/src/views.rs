//! What lists and optional values hold, by the views of their items.

use vstd::prelude::*;

verus! {

/// The view of an optional value.
pub open spec fn opt_view<T: View>(value: Option<T>) -> Option<T::V> {
    match value {
        Some(value) => Some(value@),
        None => None,
    }
}

/// The views of the items of a list.
pub open spec fn seq_view<T: View>(list: Seq<T>) -> Seq<T::V> {
    Seq::new(list.len(), |i: int| list[i]@)
}

/// The views of the items of an optional list.
pub open spec fn opt_seq_view<T: View>(list: Option<Vec<T>>) -> Option<Seq<T::V>> {
    match list {
        Some(list) => Some(seq_view(list@)),
        None => None,
    }
}

/// One more item, one more view.
pub proof fn lemma_push<T: View>(list: Seq<T>, item: T)
    ensures
        seq_view(list.push(item)) == seq_view(list).push(item@),
{
    assert(seq_view(list.push(item)) =~= seq_view(list).push(item@));
}

/// What is said of an optional value or of a list is said of what it holds.
pub proof fn law_views_are_of_the_items<T: View>(value: T, list: Seq<T>, items: Vec<T>, i: int)
    ensures
        opt_view(Some(value)) == Some(value@),
        opt_view(None::<T>) is None,
        seq_view(list).len() == list.len(),
        0 <= i < list.len() ==> seq_view(list)[i] == list[i]@,
        opt_seq_view(None::<Vec<T>>) is None,
        opt_seq_view(Some(items)) == Some(seq_view(items@)),
{
}

} // verus!
