//! First matching element of a sequence.

use vstd::prelude::*;

verus! {

/// The place of the first element with a property, where there is one.
pub open spec fn first_where<T>(items: Seq<T>, property: spec_fn(T) -> bool) -> Option<int>
    decreases items.len(),
{
    if items.len() == 0 {
        None
    } else {
        match first_where(items.drop_last(), property) {
            Some(place) => Some(place),
            None => if property(items.last()) {
                Some(items.len() - 1)
            } else {
                None
            },
        }
    }
}

/// What it means for a place to be the first.
pub open spec fn is_first<T>(
    items: Seq<T>,
    property: spec_fn(T) -> bool,
    found: Option<int>,
) -> bool {
    match found {
        Some(place) => {
            &&& 0 <= place < items.len()
            &&& property(items[place])
            &&& forall|i: int| 0 <= i < place ==> !#[trigger] property(items[i])
        },
        None => forall|i: int| 0 <= i < items.len() ==> !#[trigger] property(items[i]),
    }
}

/// The first place is the only one that is first.
pub proof fn lemma_first<T>(items: Seq<T>, property: spec_fn(T) -> bool, found: Option<int>)
    ensures
        is_first(items, property, found) <==> first_where(items, property) == found,
    decreases items.len(),
{
    if items.len() > 0 {
        let init = items.drop_last();
        let inner = first_where(init, property);
        lemma_first(init, property, inner);
        let answer = first_where(items, property);
        assert(is_first(items, property, answer)) by {
            match inner {
                Some(place) => {
                    assert(items[place] == init[place]);
                    assert forall|i: int| 0 <= i < place implies !#[trigger] property(
                        items[i],
                    ) by {
                        assert(!property(init[i]));
                    }
                },
                None => {
                    assert forall|i: int| 0 <= i < init.len() implies !#[trigger] property(
                        items[i],
                    ) by {
                        assert(!property(init[i]));
                    }
                },
            }
        }
        if is_first(items, property, found) {
            match (found, answer) {
                (Some(a), Some(b)) => {
                    if a < b {
                        assert(!property(items[a]));
                    }
                    if b < a {
                        assert(!property(items[b]));
                    }
                },
                (Some(a), None) => {
                    assert(!property(items[a]));
                },
                (None, Some(b)) => {
                    assert(!property(items[b]));
                },
                (None, None) => {},
            }
        }
    }
}

} // verus!
