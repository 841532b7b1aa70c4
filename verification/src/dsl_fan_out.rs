//! Local fan-out: branches and items that run at once.

use vstd::prelude::*;

use crate::dsl::MAX_DSL_PARALLEL_BRANCHES;
use crate::error;
use crate::error::{CatgaError, CatgaResult, ErrorCode};

verus! {

/// Rejects a parallel step with too many branches, before any of them starts.
pub fn validate_branch_count(count: usize) -> (result: CatgaResult<()>)
    ensures
        match result {
            Ok(_) => count <= MAX_DSL_PARALLEL_BRANCHES,
            Err(failure) => count > MAX_DSL_PARALLEL_BRANCHES && failure@ == error::validation(
                "parallel branch count exceeds the limit"@,
            ),
        },
{
    if count > MAX_DSL_PARALLEL_BRANCHES {
        return Err(
            CatgaError::new(ErrorCode::Validation, "parallel branch count exceeds the limit"),
        );
    }
    Ok(())
}

/// The failure of the first branch, in the order of declaration, that failed.
pub open spec fn joined(results: Seq<Result<(), error::ErrorView>>) -> Result<(), error::ErrorView>
    decreases results.len(),
{
    if results.len() == 0 {
        Ok(())
    } else if results[0] is Err {
        results[0]
    } else {
        joined(results.drop_first())
    }
}

/// Returns the failure of the first branch, in the order of declaration, that failed.
pub fn join_results(results: Vec<CatgaResult<()>>) -> (result: CatgaResult<()>)
    ensures
        error::unit_result(result) == joined(
            results@.map_values(|result: CatgaResult<()>| error::unit_result(result)),
        ),
{
    let ghost model = results@.map_values(
        |result: CatgaResult<()>| error::unit_result(result),
    );
    let mut results: Vec<CatgaResult<()>> = results;
    let mut result: CatgaResult<()> = Ok(());
    assert(model.skip(model.len() as int) =~= Seq::empty());
    while results.len() > 0
        invariant
            results@.len() <= model.len(),
            forall|i: int|
                0 <= i < results@.len() ==> error::unit_result(#[trigger] results@[i])
                    == model[i],
            error::unit_result(result) == joined(model.skip(results@.len() as int)),
        decreases results@.len(),
    {
        let ghost before = results@;
        let ghost rest = model.skip(results@.len() - 1);
        if let Some(last) = results.pop() {
            proof {
                assert(error::unit_result(before[before.len() - 1]) == model[before.len()
                    - 1]);
                assert(rest[0] == model[before.len() - 1]);
                assert(rest.drop_first() =~= model.skip(before.len() as int));
                assert forall|i: int| 0 <= i < results@.len() implies error::unit_result(
                    #[trigger] results@[i],
                ) == model[i] by {
                    assert(results@[i] == before[i]);
                }
            }
            if last.is_err() {
                result = last;
            }
        }
    }
    assert(model.skip(0) =~= model);
    result
}

/// Whether the positions of some results are exactly those of a sequence of the same length.
pub open spec fn covers_all<R>(indexed: Seq<(usize, R)>) -> bool {
    &&& forall|i: int| 0 <= i < indexed.len() ==> (#[trigger] indexed[i]).0 < indexed.len()
    &&& forall|i: int, j: int|
        0 <= i < j < indexed.len() ==> (#[trigger] indexed[i]).0 != (#[trigger] indexed[j]).0
}

/// Orders the results of concurrent work by the positions of its items.
///
/// Results whose positions are not those of a sequence of items have no order.
pub fn in_input_order<R>(indexed: Vec<(usize, R)>) -> (result: Option<Vec<R>>)
    ensures
        match result {
            Some(ordered) => {
                &&& covers_all(indexed@)
                &&& ordered@.len() == indexed@.len()
                &&& forall|i: int|
                    0 <= i < indexed@.len() ==> ordered@[(#[trigger] indexed@[i]).0 as int]
                        == indexed@[i].1
            },
            None => !covers_all(indexed@),
        },
{
    let ghost model = indexed@;
    let count: usize = indexed.len();
    let mut places: Vec<Option<R>> = Vec::new();
    while places.len() < count
        invariant
            places@.len() <= count,
            forall|i: int| 0 <= i < places@.len() ==> (#[trigger] places@[i]) is None,
        decreases count - places@.len(),
    {
        places.push(None);
    }
    let mut remaining: Vec<(usize, R)> = indexed;
    assert(remaining@ =~= model.take(model.len() as int));
    while remaining.len() > 0
        invariant
            model == indexed@,
            count == model.len(),
            places@.len() == count,
            remaining@.len() <= model.len(),
            remaining@ == model.take(remaining@.len() as int),
            forall|i: int|
                remaining@.len() <= i < model.len() ==> (#[trigger] model[i]).0 < count
                    && places@[model[i].0 as int] == Some(model[i].1),
            forall|place: int|
                0 <= place < count && (#[trigger] places@[place]) is Some ==> exists|i: int|
                    remaining@.len() <= i < model.len() && (#[trigger] model[i]).0 == place,
            forall|i: int, j: int|
                remaining@.len() <= i < j < model.len() ==> (#[trigger] model[i]).0 != (
                #[trigger] model[j]).0,
        decreases remaining@.len(),
    {
        let ghost last = remaining@.len() - 1;
        if let Some((place, value)) = remaining.pop() {
            assert(model[last] == (place, value));
            assert(remaining@ =~= model.take(last));
            if place >= count {
                assert(model[last].0 >= model.len());
                return None;
            }
            if places[place].is_some() {
                proof {
                    let other = choose|i: int| last < i < model.len() && (#[trigger] model[i]).0
                        == place;
                    assert(model[last].0 == model[other].0);
                }
                return None;
            }
            let ghost before = places@;
            places.set(place, Some(value));
            proof {
                assert forall|i: int| last < i < model.len() implies (#[trigger] model[i]).0
                    < count && places@[model[i].0 as int] == Some(model[i].1) by {
                    assert(before[model[i].0 as int] is Some);
                }
                assert forall|at: int| 0 <= at < count && (
                #[trigger] places@[at]) is Some implies exists|i: int|
                    last <= i < model.len() && (#[trigger] model[i]).0 == at by {
                    if at == place {
                        assert(model[last].0 == at);
                    } else {
                        assert(before[at] is Some);
                    }
                }
            }
        }
    }
    let ghost filled = places@;
    let mut reversed: Vec<R> = Vec::new();
    let mut ordered: Vec<R> = Vec::new();
    assert forall|place: int| 0 <= place < count implies (#[trigger] filled[place]) is Some by {
        let i = lemma_place_is_used(model, place);
        assert(filled[model[i].0 as int] == Some(model[i].1));
    }
    while places.len() > 0
        invariant
            places@.len() <= filled.len(),
            places@ == filled.take(places@.len() as int),
            reversed@.len() == filled.len() - places@.len(),
            forall|i: int| 0 <= i < filled.len() ==> (#[trigger] filled[i]) is Some,
            forall|i: int|
                0 <= i < reversed@.len() ==> filled[filled.len() - 1 - i] == Some(
                    #[trigger] reversed@[i],
                ),
        decreases places@.len(),
    {
        let ghost last = places@.len() - 1;
        if let Some(place) = places.pop() {
            assert(place == filled[last]);
            assert(places@ =~= filled.take(last));
            if let Some(value) = place {
                reversed.push(value);
            }
        }
    }
    while reversed.len() > 0
        invariant
            reversed@.len() + ordered@.len() == filled.len(),
            forall|i: int|
                0 <= i < reversed@.len() ==> filled[filled.len() - 1 - i] == Some(
                    #[trigger] reversed@[i],
                ),
            forall|i: int|
                0 <= i < ordered@.len() ==> filled[i] == Some(#[trigger] ordered@[i]),
        decreases reversed@.len(),
    {
        let ghost before = reversed@;
        if let Some(value) = reversed.pop() {
            proof {
                assert(filled[filled.len() - 1 - (before.len() - 1)] == Some(
                    before[before.len() - 1],
                ));
                assert forall|i: int| 0 <= i < reversed@.len() implies filled[filled.len() - 1
                    - i] == Some(#[trigger] reversed@[i]) by {
                    assert(reversed@[i] == before[i]);
                }
            }
            ordered.push(value);
        }
    }
    Some(ordered)
}

/// Positions below a bound, all different and as many as the bound, leave out none.
pub(crate) proof fn lemma_place_is_used<R>(indexed: Seq<(usize, R)>, place: int) -> (user: int)
    requires
        covers_all(indexed),
        0 <= place < indexed.len(),
    ensures
        0 <= user < indexed.len(),
        indexed[user].0 == place,
{
    let places = indexed.map_values(|entry: (usize, R)| entry.0 as int);
    assert(places.no_duplicates()) by {
        assert forall|i: int, j: int|
            0 <= i < places.len() && 0 <= j < places.len() && i != j implies places[i]
            != places[j] by {
            if i < j {
                assert(indexed[i].0 != indexed[j].0);
            } else {
                assert(indexed[j].0 != indexed[i].0);
            }
        }
    }
    places.unique_seq_to_set();
    vstd::seq_lib::seq_to_set_is_finite(places);
    let used = places.to_set();
    let all = vstd::set_lib::set_int_range(0, indexed.len() as int);
    vstd::set_lib::lemma_int_range(0, indexed.len() as int);
    assert(used.subset_of(all)) by {
        assert forall|other: int| used.contains(other) implies all.contains(other) by {
            let i = choose|i: int| 0 <= i < places.len() && places[i] == other;
            assert(indexed[i].0 == other);
        }
    }
    vstd::set_lib::lemma_subset_equality(used, all);
    assert(used.contains(place));
    let user = choose|i: int| 0 <= i < places.len() && places[i] == place;
    assert(indexed[user].0 == place);
    user
}

} // verus!
