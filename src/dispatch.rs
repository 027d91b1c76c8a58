use vstd::prelude::*;

use crate::ingest::OrderRequest;

verus! {

/// The sequential component that applies requests to its state, one at a
/// time. A failure concerns one request and never stops the pipeline.
pub trait Processor {
    /// Applies one request and reports success, or why it failed.
    fn process(&mut self, request: OrderRequest) -> (r: Result<(), String>);
}

/// Number of successes in a record of outcomes.
pub open spec fn successes(outcomes: Seq<bool>) -> nat
    decreases outcomes.len(),
{
    if outcomes.len() == 0 {
        0
    } else {
        successes(outcomes.drop_last()) + if outcomes.last() {
            1nat
        } else {
            0nat
        }
    }
}

/// When every outcome is a success, every submission is counted as processed.
pub proof fn lemma_all_succeeded(outcomes: Seq<bool>)
    requires
        forall|k: int| 0 <= k < outcomes.len() ==> #[trigger] outcomes[k],
    ensures
        successes(outcomes) == outcomes.len(),
    decreases outcomes.len(),
{
    if outcomes.len() > 0 {
        let init = outcomes.drop_last();
        assert forall|k: int| 0 <= k < init.len() implies #[trigger] init[k] by {
            assert(init[k] == outcomes[k]);
        }
        lemma_all_succeeded(init);
        assert(outcomes.last() == outcomes[outcomes.len() - 1]);
    }
}

/// What a finished dispatch loop reports.
#[derive(Debug, Clone, Copy, PartialEq, Eq)]
pub struct RunMetrics {
    /// Requests that the processor accepted.
    pub processed: u64,
    /// Requests that the processor refused.
    pub failed: u64,
    /// Wall-clock duration of the loop, in milliseconds.
    pub elapsed_millis: u64,
}

/// The dispatch loop's state: it hands each dequeued request to the processor
/// and counts the outcomes.
pub struct Dispatcher {
    processed: u64,
    failed: u64,
    submitted: Ghost<Seq<u64>>,
    outcomes: Ghost<Seq<bool>>,
}

impl Dispatcher {
    /// The positions of the requests submitted so far, in submission order.
    pub closed spec fn submitted(&self) -> Seq<u64> {
        self.submitted@
    }

    /// Whether each submitted request succeeded, in submission order.
    pub closed spec fn outcomes(&self) -> Seq<bool> {
        self.outcomes@
    }

    pub closed spec fn wf(&self) -> bool {
        &&& self.submitted@.len() == self.outcomes@.len()
        &&& self.processed as int == successes(self.outcomes@)
        &&& self.failed as int == self.outcomes@.len() - successes(self.outcomes@)
    }

    /// A loop that has submitted nothing.
    pub fn new() -> (r: Dispatcher)
        ensures
            r.wf(),
            r.submitted() == Seq::<u64>::empty(),
            r.outcomes() == Seq::<bool>::empty(),
    {
        Dispatcher {
            processed: 0,
            failed: 0,
            submitted: Ghost(Seq::empty()),
            outcomes: Ghost(Seq::empty()),
        }
    }

    /// Number of requests the processor accepted.
    pub fn processed(&self) -> (r: u64)
        requires
            self.wf(),
        ensures
            r == successes(self.outcomes()),
    {
        self.processed
    }

    /// Number of requests the processor refused.
    pub fn failed(&self) -> (r: u64)
        requires
            self.wf(),
        ensures
            r == self.outcomes().len() - successes(self.outcomes()),
    {
        self.failed
    }

    /// One outcome for each submission, in submission order.
    pub proof fn lemma_one_outcome_each(&self)
        requires
            self.wf(),
        ensures
            self.submitted().len() == self.outcomes().len(),
    {
    }

    /// Counts what the processor returned for the request at position `seq`.
    /// A success is counted as processed; a failure is counted and its reason
    /// handed back, for the log.
    pub fn record(&mut self, seq: u64, outcome: Result<(), String>) -> (r: Option<String>)
        requires
            old(self).wf(),
            old(self).submitted().len() < u64::MAX,
        ensures
            final(self).wf(),
            final(self).submitted() == old(self).submitted().push(seq),
            final(self).outcomes() == old(self).outcomes().push(outcome is Ok),
            outcome is Ok ==> r is None,
            outcome matches Err(e) ==> r == Some(e),
    {
        let ghost before = self.outcomes@;
        self.submitted = Ghost(self.submitted@.push(seq));
        let ok = outcome.is_ok();
        self.outcomes = Ghost(self.outcomes@.push(ok));
        assert(self.outcomes@.drop_last() =~= before);
        match outcome {
            Ok(()) => {
                self.processed = self.processed + 1;
                None
            },
            Err(reason) => {
                self.failed = self.failed + 1;
                Some(reason)
            },
        }
    }

    /// Submits one dequeued request to the processor, whatever became of the
    /// earlier ones, and records what it returned. Returns the processor's
    /// failure, for the log.
    pub fn dispatch<P: Processor>(&mut self, processor: &mut P, request: OrderRequest) -> (r:
        Option<String>)
        requires
            old(self).wf(),
            old(self).submitted().len() < u64::MAX,
        ensures
            final(self).wf(),
            final(self).submitted() == old(self).submitted().push(request.seq),
            final(self).outcomes() == old(self).outcomes().push(r is None),
    {
        let seq = request.seq;
        let outcome = processor.process(request);
        self.record(seq, outcome)
    }

    /// The loop's report once the queue has no more items.
    pub fn metrics(&self, elapsed_millis: u64) -> (r: RunMetrics)
        requires
            self.wf(),
        ensures
            r.processed == successes(self.outcomes()),
            r.failed == self.outcomes().len() - successes(self.outcomes()),
            r.elapsed_millis == elapsed_millis,
    {
        RunMetrics { processed: self.processed, failed: self.failed, elapsed_millis }
    }
}

} // verus!
