//! The first slot that satisfies a condition.

use vstd::prelude::*;

verus! {

/// Whether `at` is the lowest index whose item is `wanted`.
pub open spec fn is_first<A>(items: Seq<A>, wanted: spec_fn(A) -> bool, at: int) -> bool {
    &&& 0 <= at < items.len()
    &&& wanted(items[at])
    &&& forall|before: int| 0 <= before < at ==> !wanted(#[trigger] items[before])
}

/// The lowest index whose item is `wanted`, or `None` when no item is.
pub open spec fn first_index<A>(items: Seq<A>, wanted: spec_fn(A) -> bool) -> Option<int> {
    if exists|at: int| is_first(items, wanted, at) {
        Some(choose|at: int| is_first(items, wanted, at))
    } else {
        None
    }
}

/// The lowest wanted index is the one `first_index` names.
pub proof fn lemma_first_index_is<A>(items: Seq<A>, wanted: spec_fn(A) -> bool, at: int)
    requires
        is_first(items, wanted, at),
    ensures
        first_index(items, wanted) == Some(at),
{
    let chosen = choose|other: int| is_first(items, wanted, other);
    assert(is_first(items, wanted, chosen));
    if chosen < at {
        assert(!wanted(items[chosen]));
    }
    if at < chosen {
        assert(!wanted(items[at]));
    }
}

/// Without a wanted item there is no first index.
pub proof fn lemma_first_index_none<A>(items: Seq<A>, wanted: spec_fn(A) -> bool)
    requires
        forall|at: int| 0 <= at < items.len() ==> !wanted(#[trigger] items[at]),
    ensures
        first_index(items, wanted) is None,
{
}

/// `first_index` finds an index exactly when some item is wanted, and then no
/// earlier item is.
pub proof fn first_index_finds<A>(items: Seq<A>, wanted: spec_fn(A) -> bool)
    ensures
        first_index(items, wanted) is None <==> forall|at: int|
            0 <= at < items.len() ==> !wanted(#[trigger] items[at]),
        first_index(items, wanted) matches Some(at) ==> is_first(items, wanted, at),
{
    if exists|at: int| 0 <= at < items.len() && wanted(#[trigger] items[at]) {
        let at = choose|at: int| 0 <= at < items.len() && wanted(#[trigger] items[at]);
        lemma_first_exists(items, wanted, at);
    }
}

proof fn lemma_first_exists<A>(items: Seq<A>, wanted: spec_fn(A) -> bool, at: int)
    requires
        0 <= at < items.len(),
        wanted(items[at]),
    ensures
        exists|first: int| is_first(items, wanted, first),
    decreases at,
{
    if exists|before: int| 0 <= before < at && wanted(#[trigger] items[before]) {
        let before = choose|before: int| 0 <= before < at && wanted(#[trigger] items[before]);
        lemma_first_exists(items, wanted, before);
    } else {
        assert(is_first(items, wanted, at));
    }
}

} // verus!
