//! Lists of results, of which the first error counts.

use vstd::prelude::*;

verus! {

/// All the items where every result is a success, else the first error.
pub open spec fn collected<T, E>(results: Seq<Result<T, E>>) -> Result<Seq<T>, E>
    decreases results.len(),
{
    if results.len() == 0 {
        Ok(Seq::empty())
    } else {
        match collected(results.drop_last()) {
            Err(error) => Err(error),
            Ok(items) => match results.last() {
                Err(error) => Err(error),
                Ok(item) => Ok(items.push(item)),
            },
        }
    }
}

/// Where every result is a success, so is the collection.
pub proof fn lemma_collected_ok<T, E>(results: Seq<Result<T, E>>, items: Seq<T>)
    requires
        results.len() == items.len(),
        forall|i: int| 0 <= i < results.len() ==> #[trigger] results[i] == Ok::<T, E>(items[i]),
    ensures
        collected(results) == Ok::<Seq<T>, E>(items),
    decreases results.len(),
{
    if results.len() == 0 {
        assert(items =~= Seq::empty());
    } else {
        lemma_collected_ok(results.drop_last(), items.drop_last());
        assert(items.drop_last().push(items.last()) =~= items);
    }
}

/// A collection that is a success holds the item of every result.
pub proof fn lemma_collected_items<T, E>(results: Seq<Result<T, E>>)
    requires
        collected(results) is Ok,
    ensures
        collected(results)->Ok_0.len() == results.len(),
        forall|i: int|
            0 <= i < results.len() ==> #[trigger] results[i] == Ok::<T, E>(
                collected(results)->Ok_0[i],
            ),
    decreases results.len(),
{
    if results.len() > 0 {
        let shorter = results.drop_last();
        lemma_collected_items(shorter);
        assert forall|i: int| 0 <= i < results.len() implies #[trigger] results[i] == Ok::<T, E>(
            collected(results)->Ok_0[i],
        ) by {
            if i < shorter.len() {
                assert(shorter[i] == results[i]);
            }
        }
    }
}

/// Where the result at `k` is the first error, it is the collection's.
pub proof fn lemma_collected_error<T, E>(results: Seq<Result<T, E>>, k: int, error: E)
    requires
        0 <= k < results.len(),
        forall|i: int| 0 <= i < k ==> (#[trigger] results[i]) is Ok,
        results[k] == Err::<T, E>(error),
    ensures
        collected(results) == Err::<Seq<T>, E>(error),
    decreases results.len(),
{
    if k == results.len() - 1 {
        let items = Seq::new(k as nat, |i: int| results[i]->Ok_0);
        lemma_collected_ok(results.drop_last(), items);
    } else {
        lemma_collected_error(results.drop_last(), k, error);
    }
}

/// Once a result is an error, the results after it change nothing.
pub proof fn lemma_collected_stops<T, E>(results: Seq<Result<T, E>>, failed: int)
    requires
        0 <= failed <= results.len(),
        collected(results.take(failed)) is Err,
    ensures
        collected(results) == collected(results.take(failed)),
    decreases results.len() - failed,
{
    if failed == results.len() {
        assert(results.take(failed) =~= results);
    } else {
        assert(results.take(failed + 1).drop_last() =~= results.take(failed));
        lemma_collected_stops(results, failed + 1);
    }
}

} // verus!
