use crate::invoker::Invoker;
use crate::outcome::OperationResult;
use crate::outcome::ResultView;
use vstd::prelude::*;

verus! {

/// Labels a transport-level outcome with the identifier it answers:
/// the payload becomes a success, the cause a failure.
pub open spec fn labeled_result(
    outcome: Result<Seq<char>, Seq<char>>,
    identifier: Seq<char>,
) -> ResultView {
    match outcome {
        Ok(payload) => ResultView::Success { identifier, payload },
        Err(cause) => ResultView::Failure { identifier, cause },
    }
}

/// The one result `run` owes to `identifier` under invoker `inv`.
pub open spec fn expected_result<I: Invoker>(inv: &I, identifier: Seq<char>) -> ResultView {
    labeled_result(inv.outcome(identifier), identifier)
}

/// Dispatches the whole batch through `invoker` and aggregates one
/// labeled result per identifier: the success with its payload, or the
/// failure with its cause — no identifier is dropped. Duplicates are
/// treated as independent operations. The output order is the receipt
/// order of the results; callers that need input-order correlation
/// match on the identifier embedded in each result.
pub fn run<I: Invoker>(invoker: &I, identifiers: &Vec<String>) -> (results: Vec<OperationResult>)
    requires
        identifiers@.len() > 0,
    ensures
        results@.len() == identifiers@.len(),
        forall|i: int|
            0 <= i < results@.len() ==> results@[i]@ == expected_result(
                invoker,
                identifiers@[i]@,
            ),
{
    let mut results: Vec<OperationResult> = Vec::new();
    let n = identifiers.len();
    for idx in 0..n
        invariant
            n == identifiers@.len(),
            results@.len() == idx,
            forall|i: int|
                0 <= i < idx ==> results@[i]@ == expected_result(invoker, identifiers@[i]@),
    {
        let identifier = &identifiers[idx];
        let item = match invoker.invoke(identifier) {
            Ok(payload) => OperationResult::Success { identifier: identifier.clone(), payload },
            Err(cause) => OperationResult::Failure { identifier: identifier.clone(), cause },
        };
        results.push(item);
    }
    results
}

/// When the invoker succeeds on every identifier of the batch, the
/// output of `run` consists of successes only, the one at position `i`
/// carrying identifier `ids[i]` and its payload; in particular the
/// identifiers of the output are a permutation of the batch.
pub proof fn lemma_all_success_yields_batch<I: Invoker>(
    inv: &I,
    ids: Seq<Seq<char>>,
    results: Seq<ResultView>,
)
    requires
        results.len() == ids.len(),
        forall|i: int| 0 <= i < ids.len() ==> #[trigger] results[i] == expected_result(inv, ids[i]),
        forall|i: int| 0 <= i < ids.len() ==> (#[trigger] inv.outcome(ids[i])) is Ok,
    ensures
        forall|i: int| 0 <= i < results.len() ==> (#[trigger] results[i]) is Success,
        forall|i: int|
            0 <= i < results.len() ==> #[trigger] results[i] == (ResultView::Success {
                identifier: ids[i],
                payload: inv.outcome(ids[i])->Ok_0,
            }),
        results.map_values(|r: ResultView| r.id()).to_multiset() == ids.to_multiset(),
{
    assert(results.map_values(|r: ResultView| r.id()) =~= ids);
}

/// With one invoker — deterministic per identifier by its contract —
/// two runs over the same batch observe the same results, and so the
/// same multiset of results however their arrivals are ordered.
pub proof fn lemma_runs_agree<I: Invoker>(
    inv: &I,
    ids: Seq<Seq<char>>,
    first: Seq<ResultView>,
    second: Seq<ResultView>,
)
    requires
        first.len() == ids.len(),
        second.len() == ids.len(),
        forall|i: int| 0 <= i < ids.len() ==> #[trigger] first[i] == expected_result(inv, ids[i]),
        forall|i: int| 0 <= i < ids.len() ==> #[trigger] second[i] == expected_result(inv, ids[i]),
    ensures
        first == second,
        first.to_multiset() == second.to_multiset(),
{
    assert(first =~= second);
}

/// The arrival order of a fan-in is immaterial: a delivery that
/// answers each position of the batch exactly once — in whatever
/// order the producers happened to finish — carries the same multiset
/// of results as the input-order output of `run`.
pub proof fn lemma_arrival_order_immaterial(
    expected: Seq<ResultView>,
    delivered: Seq<ResultView>,
    order: Seq<int>,
)
    requires
        order.len() == expected.len(),
        delivered.len() == expected.len(),
        forall|i: int| 0 <= i < order.len() ==> 0 <= #[trigger] order[i] < expected.len(),
        forall|i: int, j: int| 0 <= i < j < order.len() ==> order[i] != order[j],
        forall|i: int| 0 <= i < delivered.len() ==> #[trigger] delivered[i] == expected[order[i]],
    ensures
        delivered.to_multiset() == expected.to_multiset(),
    decreases expected.len(),
{
    broadcast use vstd::seq_lib::group_to_multiset_ensures;
    broadcast use vstd::multiset::group_multiset_axioms;

    if expected.len() == 0 {
        assert(delivered =~= expected);
    } else {
        let m = delivered.len() as int;
        let j = order[m - 1];
        let last = delivered[m - 1];
        let d2 = delivered.drop_last();
        let e2 = expected.remove(j);
        let order2 = Seq::new(
            (m - 1) as nat,
            |i: int| if order[i] < j {
                order[i]
            } else {
                order[i] - 1
            },
        );
        assert forall|i: int| 0 <= i < order2.len() implies 0 <= #[trigger] order2[i]
            < e2.len() by {
            assert(order[i] != j);
        }
        assert forall|a: int, b: int| 0 <= a < b < order2.len() implies order2[a] != order2[b] by {
            assert(order[a] != order[b]);
            assert(order[a] != j);
            assert(order[b] != j);
        }
        assert forall|i: int| 0 <= i < d2.len() implies #[trigger] d2[i] == e2[order2[i]] by {
            assert(order[i] != j);
            if order[i] < j {
                assert(e2[order[i]] == expected[order[i]]);
            } else {
                assert(e2[order[i] - 1] == expected[order[i]]);
            }
        }
        lemma_arrival_order_immaterial(e2, d2, order2);
        assert(delivered =~= d2.push(last));
        assert(delivered.to_multiset() =~= d2.to_multiset().insert(last));
        assert(expected.contains(expected[j]));
        assert(e2.to_multiset() == expected.to_multiset().remove(expected[j]));
        assert(d2.to_multiset().insert(last) =~= expected.to_multiset());
    }
}

/// An identifier the invoker fails on is still answered: its entry in
/// the output of `run` is a failure labeled with that identifier and
/// carrying the invoker's cause — non-empty whenever the invoker's
/// cause is.
pub proof fn lemma_failure_is_observed<I: Invoker>(
    inv: &I,
    ids: Seq<Seq<char>>,
    results: Seq<ResultView>,
    k: int,
)
    requires
        results.len() == ids.len(),
        forall|i: int| 0 <= i < ids.len() ==> #[trigger] results[i] == expected_result(inv, ids[i]),
        0 <= k < ids.len(),
        inv.outcome(ids[k]) is Err,
        inv.outcome(ids[k])->Err_0.len() > 0,
    ensures
        results[k] is Failure,
        results[k].id() == ids[k],
        results[k].cause() == inv.outcome(ids[k])->Err_0,
        results[k].cause().len() > 0,
{
}

} // verus!
