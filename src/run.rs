use vstd::prelude::*;

use crate::dispatch::{lemma_all_succeeded, successes, Dispatcher, Processor, RunMetrics};
use crate::endpoint::{report, Output};
use crate::decode::decodable;
use crate::ingest::{accepted, OrderRequest, Reader};

verus! {

/// A condition that ends a run with a failure.
#[derive(Debug, Clone, Copy, PartialEq, Eq, Structural)]
pub enum Fatal {
    /// The input source could not be opened.
    SourceUnavailable,
    /// Reading from the input source failed.
    SourceReadFailed,
    /// The ingestion queue refused a request: its reading end is gone.
    QueueClosed,
    /// The reader worker crashed.
    ReaderCrashed,
    /// A file output sink was asked for; writing one is not implemented.
    OutputUnimplemented,
}

/// Where a run stands.
#[derive(Debug, Clone, Copy, PartialEq, Eq, Structural)]
pub enum Phase {
    /// The reader worker fills the queue; nothing is dispatched yet.
    Ingesting,
    /// The worker has finished; the queue is being drained.
    Dispatching,
    /// The run ended normally.
    Completed,
    /// The run ended with a failure.
    Failed(Fatal),
}

/// Whether a failure arises before the dispatch loop starts.
pub open spec fn is_ingestion_fault(f: Fatal) -> bool {
    f != Fatal::OutputUnimplemented
}

/// The foreground side of a run: staging, dispatch and reporting. The
/// dispatch loop starts only once the reader worker has ended.
pub struct Run {
    phase: Phase,
    dispatcher: Dispatcher,
}

impl Run {
    /// Where the run stands.
    pub closed spec fn phase_of(&self) -> Phase {
        self.phase
    }

    /// The positions of the requests submitted so far, in submission order.
    pub closed spec fn submitted(&self) -> Seq<u64> {
        self.dispatcher.submitted()
    }

    /// Whether each submitted request succeeded, in submission order.
    pub closed spec fn outcomes(&self) -> Seq<bool> {
        self.dispatcher.outcomes()
    }

    pub closed spec fn wf(&self) -> bool {
        &&& self.dispatcher.wf()
        &&& (self.phase is Ingesting ==> self.dispatcher.submitted().len() == 0)
        &&& (self.phase matches Phase::Failed(f) && is_ingestion_fault(f)
            ==> self.dispatcher.submitted().len() == 0)
    }

    /// A run whose reader worker has just started.
    pub fn new() -> (r: Run)
        ensures
            r.wf(),
            r.phase_of() == Phase::Ingesting,
            r.submitted() == Seq::<u64>::empty(),
            r.outcomes() == Seq::<bool>::empty(),
    {
        Run { phase: Phase::Ingesting, dispatcher: Dispatcher::new() }
    }

    /// Where the run stands.
    pub fn phase(&self) -> (r: Phase)
        ensures
            r == self.phase_of(),
    {
        self.phase
    }

    /// Takes the outcome of the joined reader worker. On success the dispatch
    /// loop may start; a failure of the worker ends the run.
    pub fn ingestion_ended(&mut self, worker: Result<(), Fatal>)
        requires
            old(self).wf(),
            old(self).phase_of() == Phase::Ingesting,
            worker matches Err(f) ==> is_ingestion_fault(f),
        ensures
            final(self).wf(),
            worker is Ok ==> final(self).phase_of() == Phase::Dispatching,
            worker matches Err(f) ==> final(self).phase_of() == Phase::Failed(f),
            final(self).submitted() == Seq::<u64>::empty(),
            final(self).outcomes() == old(self).outcomes(),
    {
        match worker {
            Ok(()) => self.phase = Phase::Dispatching,
            Err(f) => self.phase = Phase::Failed(f),
        }
    }

    /// Submits one dequeued request to the processor. Returns the processor's
    /// failure, for the log; the loop goes on either way.
    pub fn dispatch<P: Processor>(&mut self, processor: &mut P, request: OrderRequest) -> (r:
        Option<String>)
        requires
            old(self).wf(),
            old(self).phase_of() == Phase::Dispatching,
            old(self).submitted().len() < u64::MAX,
        ensures
            final(self).wf(),
            final(self).phase_of() == Phase::Dispatching,
            final(self).submitted() == old(self).submitted().push(request.seq),
            final(self).outcomes() == old(self).outcomes().push(r is None),
    {
        self.dispatcher.dispatch(processor, request)
    }

    /// Counts what the processor returned for the request at position `seq`,
    /// for a driver that makes the call itself. Returns the failure, for the
    /// log; the loop goes on either way.
    pub fn record(&mut self, seq: u64, outcome: Result<(), String>) -> (r: Option<String>)
        requires
            old(self).wf(),
            old(self).phase_of() == Phase::Dispatching,
            old(self).submitted().len() < u64::MAX,
        ensures
            final(self).wf(),
            final(self).phase_of() == Phase::Dispatching,
            final(self).submitted() == old(self).submitted().push(seq),
            final(self).outcomes() == old(self).outcomes().push(outcome is Ok),
            outcome is Ok ==> r is None,
            outcome matches Err(e) ==> r == Some(e),
    {
        self.dispatcher.record(seq, outcome)
    }

    /// The dispatch loop's metrics so far.
    pub fn metrics(&self, elapsed_millis: u64) -> (r: RunMetrics)
        requires
            self.wf(),
        ensures
            r.processed == successes(self.outcomes()),
            r.failed == self.outcomes().len() - successes(self.outcomes()),
            r.elapsed_millis == elapsed_millis,
    {
        self.dispatcher.metrics(elapsed_millis)
    }

    /// Ends the run once the queue has no more items, or after a failure:
    /// the metrics of the dispatch loop, or the failure that ended the run.
    pub fn finish(&mut self, output: &Output, elapsed_millis: u64) -> (r: Result<
        RunMetrics,
        Fatal,
    >)
        requires
            old(self).wf(),
            old(self).phase_of() is Dispatching || old(self).phase_of() is Failed,
        ensures
            final(self).wf(),
            final(self).submitted() == old(self).submitted(),
            final(self).outcomes() == old(self).outcomes(),
            old(self).phase_of() matches Phase::Failed(f) ==> r == Err::<RunMetrics, Fatal>(f)
                && final(self).phase_of() == old(self).phase_of(),
            old(self).phase_of() is Dispatching && output is File ==> r == Err::<
                RunMetrics,
                Fatal,
            >(Fatal::OutputUnimplemented) && final(self).phase_of() == Phase::Failed(
                Fatal::OutputUnimplemented,
            ),
            old(self).phase_of() is Dispatching && output is Stdout ==> final(self).phase_of()
                == Phase::Completed && r == Ok::<RunMetrics, Fatal>(
                (RunMetrics {
                    processed: successes(old(self).outcomes()) as u64,
                    failed: (old(self).outcomes().len() - successes(old(self).outcomes())) as u64,
                    elapsed_millis,
                }),
            ),
    {
        match self.phase {
            Phase::Failed(f) => Err(f),
            _ => match report(output) {
                Ok(()) => {
                    self.phase = Phase::Completed;
                    Ok(self.dispatcher.metrics(elapsed_millis))
                },
                Err(_) => {
                    self.phase = Phase::Failed(Fatal::OutputUnimplemented);
                    Err(Fatal::OutputUnimplemented)
                },
            },
        }
    }
}

/// When the source cannot be opened, or the worker fails otherwise, no
/// request ever reaches the processor, and the run ends with that failure.
pub proof fn ingestion_failure_submits_nothing(run: Run)
    requires
        run.wf(),
        run.phase_of() matches Phase::Failed(f) && is_ingestion_fault(f),
    ensures
        run.submitted().len() == 0,
        run.outcomes().len() == 0,
{
    run.dispatcher.lemma_one_outcome_each();
}

/// An empty input yields nothing to dispatch: no request reaches the
/// processor and the processed count is zero.
pub proof fn empty_input_processes_nothing(reader: Reader, run: Run)
    requires
        reader.wf(),
        reader.lines().len() == 0,
        run.wf(),
        run.submitted() == reader.sent(),
    ensures
        run.submitted().len() == 0,
        run.outcomes().len() == 0,
        successes(run.outcomes()) == 0,
{
    reader.lemma_sent_in_order();
    run.dispatcher.lemma_one_outcome_each();
}

/// Submission keeps input order end to end: when the queue hands the dispatch
/// loop the requests in the order the reader forwarded them, the processor
/// receives one request per line that carries one, in input order, and none
/// of any other line. When it accepts them all, the processed count is the
/// number of lines that carry a request.
pub proof fn order_preserved(reader: Reader, run: Run)
    requires
        reader.wf(),
        run.wf(),
        run.submitted() == reader.sent(),
    ensures
        run.submitted().len() == accepted(reader.lines()).len(),
        run.outcomes().len() == accepted(reader.lines()).len(),
        forall|k: int|
            0 <= k < run.submitted().len() ==> {
                &&& #[trigger] run.submitted()[k] < reader.lines().len()
                &&& reader.lines()[run.submitted()[k] as int] == accepted(reader.lines())[k]
            },
        forall|i: int, j: int|
            0 <= i < j < run.submitted().len() ==> run.submitted()[i] < run.submitted()[j],
        forall|i: int|
            0 <= i < reader.lines().len() && decodable(#[trigger] reader.lines()[i]) ==> exists|
                k: int,
            | 0 <= k < run.submitted().len() && run.submitted()[k] == i,
        (forall|k: int| 0 <= k < run.outcomes().len() ==> #[trigger] run.outcomes()[k])
            ==> successes(run.outcomes()) == accepted(reader.lines()).len(),
{
    reader.lemma_sent_in_order();
    run.dispatcher.lemma_one_outcome_each();
    if forall|k: int| 0 <= k < run.outcomes().len() ==> #[trigger] run.outcomes()[k] {
        lemma_all_succeeded(run.outcomes());
    }
}

} // verus!
