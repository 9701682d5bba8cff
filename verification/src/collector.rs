use crate::outcome::OperationResult;
use crate::outcome::ResultView;
use vstd::prelude::*;

verus! {

/// The fan-in side of a batch: it knows how many results the batch
/// owes — one per dispatched identifier — and accumulates the results
/// in receipt order. The batch is complete exactly when as many
/// results have been observed as were owed; a drain loop that ends
/// earlier has witnessed an early channel closure, which the caller
/// can detect through `outstanding`.
pub struct Collector {
    expected: usize,
    received: Vec<OperationResult>,
}

impl Collector {
    /// How many results the batch owes in total.
    pub closed spec fn expected_count(&self) -> nat {
        self.expected as nat
    }

    /// The results observed so far, in receipt order.
    pub closed spec fn observed(&self) -> Seq<ResultView> {
        self.received@.map_values(|r: OperationResult| r@)
    }

    /// How many results are still outstanding.
    pub open spec fn pending(&self) -> nat {
        (self.expected_count() - self.observed().len()) as nat
    }

    /// A collector never holds more results than the batch owes.
    pub open spec fn wf(&self) -> bool {
        self.observed().len() <= self.expected_count()
    }

    /// Opens the fan-in side for a batch of `batch_size` operations.
    pub fn new(batch_size: usize) -> (c: Collector)
        requires
            batch_size > 0,
        ensures
            c.wf(),
            c.expected_count() == batch_size,
            c.observed() == Seq::<ResultView>::empty(),
    {
        let c = Collector { expected: batch_size, received: Vec::new() };
        proof {
            assert(c.observed() =~= Seq::<ResultView>::empty());
        }
        c
    }

    /// Accepts one more result from a producer.
    pub fn record(&mut self, result: OperationResult)
        requires
            old(self).wf(),
            old(self).pending() > 0,
        ensures
            final(self).wf(),
            final(self).expected_count() == old(self).expected_count(),
            final(self).observed() == old(self).observed().push(result@),
    {
        self.received.push(result);
        proof {
            assert(self.observed() =~= old(self).observed().push(result@));
        }
    }

    /// Whether every owed result has been observed.
    pub fn is_complete(&self) -> (b: bool)
        requires
            self.wf(),
        ensures
            b == (self.pending() == 0),
            b == (self.observed().len() == self.expected_count()),
    {
        self.received.len() == self.expected
    }

    /// How many owed results have not arrived; more than zero after a
    /// drain has ended means the channel closed early.
    pub fn outstanding(&self) -> (n: usize)
        requires
            self.wf(),
        ensures
            n == self.pending(),
    {
        self.expected - self.received.len()
    }

    /// Hands the accumulated results to the caller, in receipt order.
    pub fn into_results(self) -> (results: Vec<OperationResult>)
        ensures
            results@.map_values(|r: OperationResult| r@) == self.observed(),
            results@.len() == self.observed().len(),
    {
        self.received
    }
}

} // verus!
