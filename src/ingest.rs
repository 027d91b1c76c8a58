use vstd::prelude::*;

use crate::decode::{decodable, decode_line, LineOutcome};
use crate::run::Fatal;

verus! {

/// One decoded request, tagged with the position of its line in the input.
pub struct OrderRequest {
    /// Position of the source line, counting from zero.
    pub seq: u64,
    /// The decoded record.
    pub body: serde_json::Value,
}

/// The lines of `lines` that carry a request, in input order.
pub open spec fn accepted(lines: Seq<Seq<char>>) -> Seq<Seq<char>>
    decreases lines.len(),
{
    if lines.len() == 0 {
        Seq::empty()
    } else {
        let rest = accepted(lines.drop_last());
        if decodable(lines.last()) {
            rest.push(lines.last())
        } else {
            rest
        }
    }
}

/// The positions in `lines` of the lines that carry a request, in input order.
pub open spec fn accepted_positions(lines: Seq<Seq<char>>) -> Seq<int>
    decreases lines.len(),
{
    if lines.len() == 0 {
        Seq::empty()
    } else {
        let rest = accepted_positions(lines.drop_last());
        if decodable(lines.last()) {
            rest.push(lines.len() - 1)
        } else {
            rest
        }
    }
}

/// Positions and lines agree: the positions picked are increasing, each names
/// a line that carries a request, the k-th of them names the k-th accepted
/// line, and no line that carries a request is left out.
pub proof fn lemma_accepted_positions(lines: Seq<Seq<char>>)
    ensures
        accepted_positions(lines).len() == accepted(lines).len(),
        forall|k: int|
            0 <= k < accepted_positions(lines).len() ==> {
                &&& 0 <= #[trigger] accepted_positions(lines)[k] < lines.len()
                &&& lines[accepted_positions(lines)[k]] == accepted(lines)[k]
                &&& decodable(lines[accepted_positions(lines)[k]])
            },
        forall|i: int, j: int|
            0 <= i < j < accepted_positions(lines).len() ==> accepted_positions(lines)[i]
                < accepted_positions(lines)[j],
        forall|i: int|
            0 <= i < lines.len() && decodable(#[trigger] lines[i]) ==> exists|k: int|
                0 <= k < accepted_positions(lines).len() && accepted_positions(lines)[k] == i,
    decreases lines.len(),
{
    if lines.len() > 0 {
        let init = lines.drop_last();
        lemma_accepted_positions(init);
        assert forall|i: int| 0 <= i < lines.len() && decodable(#[trigger] lines[i]) implies exists|
            k: int,
        |
            0 <= k < accepted_positions(lines).len() && accepted_positions(lines)[k] == i by {
            if i < lines.len() - 1 {
                assert(init[i] == lines[i]);
                let k = choose|k: int|
                    0 <= k < accepted_positions(init).len() && accepted_positions(init)[k] == i;
                assert(accepted_positions(lines)[k] == i);
            } else {
                assert(accepted_positions(lines)[accepted_positions(init).len() as int] == i);
            }
        }
    }
}

/// A malformed line changes nothing of what is forwarded: the lines that carry
/// a request, before it and after it, are forwarded all the same, in order.
pub proof fn malformed_line_isolated(before: Seq<Seq<char>>, bad: Seq<char>, after: Seq<Seq<char>>)
    requires
        !decodable(bad),
    ensures
        accepted(before + seq![bad] + after) == accepted(before + after),
    decreases after.len(),
{
    if after.len() == 0 {
        assert((before + seq![bad] + after).drop_last() =~= before);
        assert(before + after =~= before);
    } else {
        let rest = after.drop_last();
        malformed_line_isolated(before, bad, rest);
        assert((before + seq![bad] + after).drop_last() =~= before + seq![bad] + rest);
        assert((before + after).drop_last() =~= before + rest);
    }
}

/// What the reader asks of its driver after one read.
pub enum ReadStep {
    /// Hand the request to the ingestion queue; a refused hand-off is fatal.
    Forward(OrderRequest),
    /// Log the malformed line and read the next one.
    Skip,
    /// Stop reading: the source is exhausted.
    Stop,
}

/// The decisions of the source reader. It is fed each line that the driver
/// reads and says what to do with it.
pub struct Reader {
    read: u64,
    forwarded: u64,
    skipped: u64,
    finished: bool,
    failure: Option<Fatal>,
    lines: Ghost<Seq<Seq<char>>>,
    sent: Ghost<Seq<u64>>,
}

impl Reader {
    /// The non-empty lines read so far, in order.
    pub closed spec fn lines(&self) -> Seq<Seq<char>> {
        self.lines@
    }

    /// The positions of the requests forwarded so far, in order.
    pub closed spec fn sent(&self) -> Seq<u64> {
        self.sent@
    }

    /// Whether the reader has stopped.
    pub closed spec fn is_finished(&self) -> bool {
        self.finished
    }

    /// The failure that stopped the reader, if one did.
    pub closed spec fn failure_of(&self) -> Option<Fatal> {
        self.failure
    }

    pub closed spec fn wf(&self) -> bool {
        &&& self.read as int == self.lines@.len()
        &&& (self.failure is Some ==> self.finished)
        &&& self.forwarded as int == accepted(self.lines@).len()
        &&& self.skipped as int == self.lines@.len() - accepted(self.lines@).len()
        &&& self.sent@.len() == accepted_positions(self.lines@).len()
        &&& forall|k: int|
            0 <= k < self.sent@.len() ==> #[trigger] self.sent@[k] as int
                == accepted_positions(self.lines@)[k]
    }

    /// A reader that has read nothing yet.
    pub fn new() -> (r: Reader)
        ensures
            r.wf(),
            r.lines() == Seq::<Seq<char>>::empty(),
            r.sent() == Seq::<u64>::empty(),
            !r.is_finished(),
            r.failure_of() is None,
    {
        Reader {
            read: 0,
            forwarded: 0,
            skipped: 0,
            finished: false,
            failure: None,
            lines: Ghost(Seq::empty()),
            sent: Ghost(Seq::empty()),
        }
    }

    /// Number of non-empty lines read.
    pub fn lines_read(&self) -> (r: u64)
        requires
            self.wf(),
        ensures
            r == self.lines().len(),
    {
        self.read
    }

    /// Number of requests forwarded to the queue.
    pub fn forwarded(&self) -> (r: u64)
        requires
            self.wf(),
        ensures
            r == accepted(self.lines()).len(),
    {
        self.forwarded
    }

    /// Number of malformed lines skipped.
    pub fn skipped(&self) -> (r: u64)
        requires
            self.wf(),
        ensures
            r == self.lines().len() - accepted(self.lines()).len(),
    {
        self.skipped
    }

    /// Whether the reader has stopped.
    pub fn finished(&self) -> (r: bool)
        ensures
            r == self.is_finished(),
    {
        self.finished
    }

    /// Takes one read from the source, line terminator included. A finished
    /// reader stops again and changes nothing.
    pub fn on_line(&mut self, line: &str) -> (r: ReadStep)
        requires
            old(self).wf(),
            old(self).lines().len() < u64::MAX,
        ensures
            final(self).wf(),
            old(self).is_finished() ==> r is Stop && *final(self) == *old(self),
            !old(self).is_finished() && line@.len() == 0 ==> {
                &&& r is Stop
                &&& final(self).is_finished()
                &&& final(self).lines() == old(self).lines()
                &&& final(self).sent() == old(self).sent()
                &&& final(self).failure_of() is None
            },
            !old(self).is_finished() && line@.len() > 0 ==> {
                &&& !final(self).is_finished()
                &&& final(self).failure_of() is None
                &&& final(self).lines() == old(self).lines().push(line@)
                &&& decodable(line@) ==> (r is Forward && r->Forward_0.seq == old(self).lines().len()
                    && final(self).sent() == old(self).sent().push(r->Forward_0.seq))
                &&& !decodable(line@) ==> (r is Skip && final(self).sent() == old(self).sent())
            },
    {
        if self.finished {
            return ReadStep::Stop;
        }
        let ghost before = self.lines@;
        let outcome = decode_line(line);
        match outcome {
            LineOutcome::Exhausted => {
                self.finished = true;
                ReadStep::Stop
            },
            LineOutcome::Malformed => {
                self.lines = Ghost(self.lines@.push(line@));
                assert(self.lines@.drop_last() =~= before);
                self.read = self.read + 1;
                self.skipped = self.skipped + 1;
                ReadStep::Skip
            },
            LineOutcome::Decoded(body) => {
                let seq = self.read;
                self.lines = Ghost(self.lines@.push(line@));
                assert(self.lines@.drop_last() =~= before);
                self.sent = Ghost(self.sent@.push(seq));
                self.read = self.read + 1;
                self.forwarded = self.forwarded + 1;
                ReadStep::Forward(OrderRequest { seq, body })
            },
        }
    }

    /// The requests forwarded so far are those of the lines that carry one,
    /// each tagged with its line's position, in input order.
    pub proof fn lemma_sent_in_order(&self)
        requires
            self.wf(),
        ensures
            self.sent().len() == accepted(self.lines()).len(),
            forall|k: int|
                0 <= k < self.sent().len() ==> {
                    &&& #[trigger] self.sent()[k] < self.lines().len()
                    &&& self.lines()[self.sent()[k] as int] == accepted(self.lines())[k]
                },
            forall|i: int, j: int|
                0 <= i < j < self.sent().len() ==> self.sent()[i] < self.sent()[j],
            forall|i: int|
                0 <= i < self.lines().len() && decodable(#[trigger] self.lines()[i]) ==> exists|
                    k: int,
                | 0 <= k < self.sent().len() && self.sent()[k] == i,
    {
        lemma_accepted_positions(self.lines@);
        assert forall|i: int|
            0 <= i < self.lines().len() && decodable(#[trigger] self.lines()[i]) implies exists|
                k: int,
            | 0 <= k < self.sent().len() && self.sent()[k] == i by {
            let k = choose|k: int|
                0 <= k < accepted_positions(self.lines@).len() && accepted_positions(
                    self.lines@,
                )[k] == i;
            assert(self.sent@[k] as int == accepted_positions(self.lines@)[k]);
            assert(self.sent()[k] == i);
        }
    }

    /// How the reader ended: normally at the end of the stream, or with the
    /// failure that stopped it.
    pub fn outcome(&self) -> (r: Result<(), Fatal>)
        ensures
            self.failure_of() matches Some(f) ==> r == Err::<(), Fatal>(f),
            self.failure_of() is None ==> r is Ok,
    {
        match self.failure {
            Some(f) => Err(f),
            None => Ok(()),
        }
    }

    /// The source could not be opened: the reader stops with that failure.
    pub fn on_open_failure(&mut self)
        requires
            old(self).wf(),
        ensures
            final(self).wf(),
            final(self).is_finished(),
            old(self).is_finished() ==> final(self).failure_of() == old(self).failure_of(),
            !old(self).is_finished() ==> final(self).failure_of() == Some(Fatal::SourceUnavailable),
            final(self).lines() == old(self).lines(),
            final(self).sent() == old(self).sent(),
    {
        self.stop_with(Fatal::SourceUnavailable);
    }

    /// The source failed to deliver a line: the reader stops with that
    /// failure, which is fatal to the run.
    pub fn on_read_failure(&mut self)
        requires
            old(self).wf(),
        ensures
            final(self).wf(),
            final(self).is_finished(),
            old(self).is_finished() ==> final(self).failure_of() == old(self).failure_of(),
            !old(self).is_finished() ==> final(self).failure_of() == Some(Fatal::SourceReadFailed),
            final(self).lines() == old(self).lines(),
            final(self).sent() == old(self).sent(),
    {
        self.stop_with(Fatal::SourceReadFailed);
    }

    /// The queue refused a forwarded request, its reading end being gone: the
    /// reader stops with that failure, which is fatal to the run.
    pub fn on_forward_refused(&mut self)
        requires
            old(self).wf(),
        ensures
            final(self).wf(),
            final(self).is_finished(),
            old(self).is_finished() ==> final(self).failure_of() == old(self).failure_of(),
            !old(self).is_finished() ==> final(self).failure_of() == Some(Fatal::QueueClosed),
            final(self).lines() == old(self).lines(),
            final(self).sent() == old(self).sent(),
    {
        self.stop_with(Fatal::QueueClosed);
    }

    fn stop_with(&mut self, f: Fatal)
        requires
            old(self).wf(),
        ensures
            final(self).wf(),
            final(self).is_finished(),
            old(self).is_finished() ==> final(self).failure_of() == old(self).failure_of(),
            !old(self).is_finished() ==> final(self).failure_of() == Some(f),
            final(self).lines() == old(self).lines(),
            final(self).sent() == old(self).sent(),
    {
        if !self.finished {
            self.finished = true;
            self.failure = Some(f);
        }
    }
}

} // verus!
