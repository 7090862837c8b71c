//! Results that are collected one by one, up to the first error.

use vstd::prelude::*;

verus! {

/// All values, or the first error.
pub open spec fn collected<T, E>(results: Seq<Result<T, E>>) -> Result<Seq<T>, E>
    decreases results.len(),
{
    if results.len() == 0 {
        Ok(Seq::empty())
    } else {
        match collected(results.drop_last()) {
            Err(error) => Err(error),
            Ok(values) => match results.last() {
                Ok(value) => Ok(values.push(value)),
                Err(error) => Err(error),
            },
        }
    }
}

/// Nothing makes up for an error: the results behind it do not matter.
pub proof fn errors_stay<T, E>(results: Seq<Result<T, E>>, upto: int)
    requires
        0 <= upto <= results.len(),
        collected(results.take(upto)) is Err,
    ensures
        collected(results) == collected(results.take(upto)),
    decreases results.len() - upto,
{
    if upto == results.len() {
        assert(results.take(upto) =~= results);
    } else {
        assert(results.take(upto + 1).drop_last() =~= results.take(upto));
        errors_stay(results, upto + 1);
    }
}

/// Collecting keeps every value in its place, and fails with the first error where there is one.
pub proof fn collecting_stops_at_the_first_error<T, E>(results: Seq<Result<T, E>>)
    ensures
        match collected(results) {
            Ok(values) => values.len() == results.len() && forall|k: int|
                0 <= k < results.len() ==> #[trigger] results[k] == Ok::<T, E>(values[k]),
            Err(error) => exists|k: int|
                0 <= k < results.len() && #[trigger] results[k] == Err::<T, E>(error) && (forall|
                    j: int,
                |
                    0 <= j < k ==> #[trigger] results[j] is Ok),
        },
    decreases results.len(),
{
    if results.len() > 0 {
        let before = results.drop_last();
        let last = results.len() - 1;
        collecting_stops_at_the_first_error(before);
        match collected(before) {
            Err(error) => {
                let k = choose|k: int|
                    0 <= k < before.len() && #[trigger] before[k] == Err::<T, E>(error) && (forall|
                        j: int,
                    |
                        0 <= j < k ==> #[trigger] before[j] is Ok);
                assert(results[k] == before[k]);
                assert forall|j: int| 0 <= j < k implies #[trigger] results[j] is Ok by {
                    assert(before[j] == results[j]);
                }
            },
            Ok(values) => {
                assert forall|j: int| 0 <= j < last implies #[trigger] results[j] == Ok::<T, E>(
                    values[j],
                ) by {
                    assert(before[j] == results[j]);
                }
                assert(results[last] == results.last());
            },
        }
    }
}

} // verus!
