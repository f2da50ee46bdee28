//! Rows of items, cut to a length.

use vstd::prelude::*;

verus! {

/// The first `limit` items.
pub open spec fn first<A>(items: Seq<A>, limit: nat) -> Seq<A> {
    if items.len() <= limit {
        items
    } else {
        items.take(limit as int)
    }
}

/// Cutting off twice is cutting off once.
pub proof fn lemma_first_of_sum<A>(a: Seq<A>, b: Seq<A>, limit: nat)
    ensures
        first(first(a, limit) + b, limit) == first(a + b, limit),
{
    assert(first(first(a, limit) + b, limit) =~= first(a + b, limit));
}

/// The last `limit` items.
pub open spec fn last_of<A>(items: Seq<A>, limit: nat) -> Seq<A> {
    if items.len() <= limit {
        items
    } else {
        items.skip(items.len() - limit)
    }
}

/// The first items of a row are at most as many as were asked for, the start of
/// the row, and all of it where there are no more.
pub proof fn law_first_items<A>(items: Seq<A>, limit: nat)
    ensures
        items.len() <= limit ==> first(items, limit) == items,
        items.len() > limit ==> first(items, limit).len() == limit,
        forall|i: int| 0 <= i < first(items, limit).len() ==> first(items, limit)[i] == items[i],
{
}

/// The last items of a row are at most as many as were asked for, the end of the
/// row, and all of it where there are no more.
pub proof fn law_last_items<A>(items: Seq<A>, limit: nat)
    ensures
        items.len() <= limit ==> last_of(items, limit) == items,
        items.len() > limit ==> last_of(items, limit).len() == limit,
        forall|i: int|
            0 <= i < last_of(items, limit).len() ==> last_of(items, limit)[i] == items[items.len()
                - last_of(items, limit).len() + i],
{
}

} // verus!
