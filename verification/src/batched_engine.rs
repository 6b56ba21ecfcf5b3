//! The batch scheduler: an admission queue that is flushed in bounded batches.

use vstd::prelude::*;
use crate::channel::{bounded_channel, capacity_of};
use crate::config::BatchConfig;
use crate::error::EngineError;
use crate::types::{ClassificationRequest, ClassificationResponse};

verus! {

/// What a waiting caller finally receives.
pub type Outcome = Result<ClassificationResponse, EngineError>;

/// The single-shot sink through which one outcome is delivered.
pub type ResponseSender = tokio::sync::oneshot::Sender<Outcome>;

/// The end of a sink on which the caller waits.
pub type ResponseReceiver = tokio::sync::oneshot::Receiver<Outcome>;

/// A request in the scheduler's custody, together with its sink.
#[derive(Debug)]
pub struct QueuedRequest {
    pub request: ClassificationRequest,
    pub response_tx: ResponseSender,
}

impl QueuedRequest {
    /// Wraps a request for admission and hands back the receiver on which the
    /// submitter waits for the outcome.
    pub fn open(request: ClassificationRequest) -> (pair: (QueuedRequest, ResponseReceiver))
        ensures
            pair.0.request == request,
    {
        let (response_tx, response_rx) = tokio::sync::oneshot::channel();
        (QueuedRequest { request, response_tx }, response_rx)
    }
}

/// What a submitter learns from handing its record to the admission channel:
/// the record is in the driver's custody, or the scheduler has shut down.
pub fn admission(sent: Result<(), flume::SendError<QueuedRequest>>) -> (admitted: Result<
    (),
    EngineError,
>)
    ensures
        admitted == match sent {
            Ok(_) => Ok::<(), EngineError>(()),
            Err(_) => Err::<(), EngineError>(EngineError::QueueClosed),
        },
{
    match sent {
        Ok(_) => Ok(()),
        Err(_) => Err(EngineError::QueueClosed),
    }
}

/// What a submitter learns from waiting on its receiver: the outcome that the
/// driver delivered, or that the sink was dropped with nothing delivered.
pub fn reception(answer: Result<Outcome, tokio::sync::oneshot::error::RecvError>) -> (outcome:
    Outcome)
    ensures
        outcome == match answer {
            Ok(delivered) => delivered,
            Err(_) => Err::<ClassificationResponse, EngineError>(EngineError::SinkDropped),
        },
{
    match answer {
        Ok(delivered) => delivered,
        Err(_) => Err(EngineError::SinkDropped),
    }
}

/// How many requests one flush takes from a queue of the given length.
pub open spec fn flush_count(queued: nat, batch_size: nat) -> nat {
    if queued <= batch_size {
        queued
    } else {
        batch_size
    }
}

/// The requests of a batch, in order.
pub open spec fn requests_of(batch: Seq<QueuedRequest>) -> Seq<ClassificationRequest> {
    Seq::new(batch.len(), |i: int| batch[i].request)
}

/// The sinks of a batch, in order.
pub open spec fn sinks_of(batch: Seq<QueuedRequest>) -> Seq<ResponseSender> {
    Seq::new(batch.len(), |i: int| batch[i].response_tx)
}

/// Separates a batch into its requests and its sinks, both in batch order.
pub fn split_batch(batch: Vec<QueuedRequest>) -> (parts: (
    Vec<ClassificationRequest>,
    Vec<ResponseSender>,
))
    ensures
        parts.0@ == requests_of(batch@),
        parts.1@ == sinks_of(batch@),
{
    let mut requests: Vec<ClassificationRequest> = Vec::new();
    let mut sinks: Vec<ResponseSender> = Vec::new();
    for queued in iter: batch.into_iter()
        invariant
            iter.seq() == batch@,
            requests@ == requests_of(batch@.take(iter.index())),
            sinks@ == sinks_of(batch@.take(iter.index())),
    {
        requests.push(queued.request);
        sinks.push(queued.response_tx);
    }
    (requests, sinks)
}

/// The submitter's handle: the sending side of the admission channel.
pub struct BatchedEngineWrapper {
    request_tx: flume::Sender<QueuedRequest>,
}

/// The driver's state: the receiving side of the admission channel, the FIFO
/// queue of admitted requests, and the backend that batches are handed to.
pub struct BatchProcessor<T> {
    request_rx: flume::Receiver<QueuedRequest>,
    config: BatchConfig,
    request_queue: std::collections::VecDeque<QueuedRequest>,
    batched_engine: T,
}

impl BatchedEngineWrapper {
    /// Sets up a scheduler around `batched_engine`: an admission channel of
    /// capacity zero, so that a submitter waits until the driver has taken its
    /// record, and an empty queue. The sending side of the channel goes to the
    /// submitters and the receiving side to the driver.
    pub fn new<T>(config: BatchConfig, batched_engine: T) -> (pair: (Self, BatchProcessor<T>))
        ensures
            pair.1.queue() == Seq::<QueuedRequest>::empty(),
            pair.1.admission_capacity() == 0,
            pair.1.settings() == config,
            pair.1.backend() == batched_engine,
    {
        let (request_tx, request_rx) = bounded_channel(0);
        let processor = BatchProcessor {
            request_rx,
            config,
            request_queue: std::collections::VecDeque::new(),
            batched_engine,
        };
        (BatchedEngineWrapper { request_tx }, processor)
    }

    /// The sending side of the admission channel.
    pub closed spec fn admission_handle(&self) -> flume::Sender<QueuedRequest> {
        self.request_tx
    }

    /// The handle through which submitters hand records to the driver.
    pub fn sender(&self) -> (sender: &flume::Sender<QueuedRequest>)
        ensures
            *sender == self.admission_handle(),
    {
        &self.request_tx
    }
}

/// What can wake the driver.
pub enum Wakeup {
    /// The admission channel yielded a record.
    Admitted(QueuedRequest),
    /// The admission channel was closed: no record will ever arrive again.
    Closed,
    /// The periodic timer fired.
    Tick,
}

/// The wakeup that taking from the admission channel amounts to: the record
/// that arrived, or the closure of the channel.
pub fn admission_wakeup(received: Result<QueuedRequest, flume::RecvError>) -> (wakeup: Wakeup)
    ensures
        wakeup == match received {
            Ok(record) => Wakeup::Admitted(record),
            Err(_) => Wakeup::Closed,
        },
{
    match received {
        Ok(record) => Wakeup::Admitted(record),
        Err(_) => Wakeup::Closed,
    }
}

/// What the driver does after a wakeup: hand `batch` to the backend unless it
/// is empty, and stop afterwards when `exit` is set.
pub struct Step {
    pub batch: Vec<QueuedRequest>,
    pub exit: bool,
}

impl Step {
    /// Whether this step calls the backend: it does unless its batch is empty.
    pub fn calls_backend(&self) -> (call: bool)
        ensures
            call == (self.batch@.len() > 0),
    {
        self.batch.len() > 0
    }
}

/// The queue once the wakeup's record, if it carries one, has been appended.
pub open spec fn queue_on_arrival(queue: Seq<QueuedRequest>, wakeup: Wakeup) -> Seq<QueuedRequest> {
    match wakeup {
        Wakeup::Admitted(record) => queue.push(record),
        _ => queue,
    }
}

/// Whether handling the wakeup includes a flush. An admission flushes when it
/// fills the queue to the batch size; closure and ticks always flush, which
/// takes nothing from an empty queue.
pub open spec fn flush_due(queue: Seq<QueuedRequest>, batch_size: nat, wakeup: Wakeup) -> bool {
    match wakeup {
        Wakeup::Admitted(_) => queue.len() + 1 >= batch_size,
        _ => true,
    }
}

/// The batch that handling the wakeup hands to the backend; empty when no
/// backend call is made.
pub open spec fn batch_on(queue: Seq<QueuedRequest>, batch_size: nat, wakeup: Wakeup) -> Seq<
    QueuedRequest,
> {
    let arrived = queue_on_arrival(queue, wakeup);
    if flush_due(queue, batch_size, wakeup) {
        arrived.take(flush_count(arrived.len(), batch_size) as int)
    } else {
        Seq::empty()
    }
}

/// The queue that is left once the wakeup has been handled.
pub open spec fn queue_after(queue: Seq<QueuedRequest>, batch_size: nat, wakeup: Wakeup) -> Seq<
    QueuedRequest,
> {
    let arrived = queue_on_arrival(queue, wakeup);
    if flush_due(queue, batch_size, wakeup) {
        arrived.skip(flush_count(arrived.len(), batch_size) as int)
    } else {
        arrived
    }
}

impl<T> BatchProcessor<T> {
    /// The admitted requests that have not been flushed yet, oldest first.
    pub closed spec fn queue(&self) -> Seq<QueuedRequest> {
        self.request_queue@
    }

    /// The configuration that the driver was set up with.
    pub closed spec fn settings(&self) -> BatchConfig {
        self.config
    }

    /// The backend that the driver was set up with.
    pub closed spec fn backend(&self) -> T {
        self.batched_engine
    }

    /// The capacity of the admission channel that feeds this driver.
    pub closed spec fn admission_capacity(&self) -> nat {
        capacity_of(self.request_rx)
    }

    /// The largest batch that this driver hands to its backend.
    pub open spec fn batch_size(&self) -> nat {
        self.settings().batch_size as nat
    }

    /// The handle from which the driver takes admitted records.
    pub fn receiver(&self) -> (receiver: &flume::Receiver<QueuedRequest>)
        ensures
            capacity_of(*receiver) == self.admission_capacity(),
    {
        &self.request_rx
    }

    /// The configuration of this driver.
    pub fn config(&self) -> (config: &BatchConfig)
        ensures
            *config == self.settings(),
    {
        &self.config
    }

    /// The backend that batches are handed to.
    pub fn engine(&self) -> (engine: &T)
        ensures
            *engine == self.backend(),
    {
        &self.batched_engine
    }

    /// Number of admitted requests that wait for a flush.
    pub fn pending(&self) -> (n: usize)
        ensures
            n == self.queue().len(),
    {
        self.request_queue.len()
    }

    /// Takes up to `batch_size` requests from the head of the queue, oldest
    /// first, and leaves the rest queued in their order.
    pub fn take_batch(&mut self) -> (batch: Vec<QueuedRequest>)
        ensures
            batch@ == old(self).queue().take(
                flush_count(old(self).queue().len(), old(self).batch_size()) as int,
            ),
            final(self).queue() == old(self).queue().skip(
                flush_count(old(self).queue().len(), old(self).batch_size()) as int,
            ),
            final(self).settings() == old(self).settings(),
            final(self).backend() == old(self).backend(),
            final(self).admission_capacity() == old(self).admission_capacity(),
    {
        let queued: usize = self.request_queue.len();
        let count: usize = if queued <= self.config.batch_size {
            queued
        } else {
            self.config.batch_size
        };
        let mut batch: Vec<QueuedRequest> = Vec::new();
        let mut taken: usize = 0;
        while taken < count
            invariant
                taken <= count <= old(self).request_queue@.len(),
                batch@ == old(self).request_queue@.take(taken as int),
                self.request_queue@ == old(self).request_queue@.skip(taken as int),
                self.config == old(self).config,
                self.batched_engine == old(self).batched_engine,
                self.request_rx == old(self).request_rx,
            decreases count - taken,
        {
            let head = self.request_queue.pop_front();
            match head {
                Some(record) => {
                    batch.push(record);
                },
                None => {},
            }
            taken = taken + 1;
        }
        batch
    }

    /// Handles one wakeup of the driver loop.
    ///
    /// An admitted record joins the tail of the queue, and a batch is taken at
    /// once when that brings the queue to the batch size. A tick takes a batch
    /// of whatever is queued. Closure does the same and tells the driver to
    /// stop once that last batch has been delivered.
    pub fn on_wakeup(&mut self, wakeup: Wakeup) -> (step: Step)
        ensures
            step.batch@ == batch_on(old(self).queue(), old(self).batch_size(), wakeup),
            final(self).queue() == queue_after(old(self).queue(), old(self).batch_size(), wakeup),
            step.exit == (wakeup is Closed),
            final(self).settings() == old(self).settings(),
            final(self).backend() == old(self).backend(),
            final(self).admission_capacity() == old(self).admission_capacity(),
    {
        match wakeup {
            Wakeup::Admitted(record) => {
                self.request_queue.push_back(record);
                if self.request_queue.len() >= self.config.batch_size {
                    let batch = self.take_batch();
                    Step { batch, exit: false }
                } else {
                    Step { batch: Vec::new(), exit: false }
                }
            },
            Wakeup::Closed => {
                let batch = self.take_batch();
                Step { batch, exit: true }
            },
            Wakeup::Tick => {
                let batch = self.take_batch();
                Step { batch, exit: false }
            },
        }
    }
}

/// The requests that a run of wakeups hands to the backend, batch after batch,
/// starting from `queue`.
pub open spec fn flushed(queue: Seq<QueuedRequest>, batch_size: nat, wakeups: Seq<Wakeup>) -> Seq<
    QueuedRequest,
>
    decreases wakeups.len(),
{
    if wakeups.len() == 0 {
        Seq::empty()
    } else {
        batch_on(queue, batch_size, wakeups[0]) + flushed(
            queue_after(queue, batch_size, wakeups[0]),
            batch_size,
            wakeups.drop_first(),
        )
    }
}

/// The queue that a run of wakeups leaves behind, starting from `queue`.
pub open spec fn queue_at_end(
    queue: Seq<QueuedRequest>,
    batch_size: nat,
    wakeups: Seq<Wakeup>,
) -> Seq<QueuedRequest>
    decreases wakeups.len(),
{
    if wakeups.len() == 0 {
        queue
    } else {
        queue_at_end(
            queue_after(queue, batch_size, wakeups[0]),
            batch_size,
            wakeups.drop_first(),
        )
    }
}

/// The records that a run of wakeups admits, in arrival order.
pub open spec fn admitted(wakeups: Seq<Wakeup>) -> Seq<QueuedRequest>
    decreases wakeups.len(),
{
    if wakeups.len() == 0 {
        Seq::empty()
    } else {
        queue_on_arrival(Seq::empty(), wakeups[0]) + admitted(wakeups.drop_first())
    }
}

/// No batch is larger than the batch size.
pub proof fn law_size_bound(queue: Seq<QueuedRequest>, batch_size: nat, wakeup: Wakeup)
    ensures
        batch_on(queue, batch_size, wakeup).len() <= batch_size,
{
}

/// A wakeup neither loses, duplicates nor reorders a request: the batch it
/// takes, followed by the queue it leaves, is the old queue followed by the
/// record that arrived, if one did.
pub proof fn law_step_conserves(queue: Seq<QueuedRequest>, batch_size: nat, wakeup: Wakeup)
    ensures
        batch_on(queue, batch_size, wakeup) + queue_after(queue, batch_size, wakeup)
            == queue_on_arrival(queue, wakeup),
{
}

/// An admission that brings the queue to the batch size is answered by a
/// flush within the same wakeup: a full batch that starts at the head of the
/// queue is taken before any other wakeup is looked at.
pub proof fn law_immediate_flush(queue: Seq<QueuedRequest>, batch_size: nat, record: QueuedRequest)
    requires
        batch_size >= 1,
        queue.len() + 1 >= batch_size,
    ensures
        batch_on(queue, batch_size, Wakeup::Admitted(record)).len() == batch_size,
        batch_on(queue, batch_size, Wakeup::Admitted(record)) == queue.push(record).take(
            batch_size as int,
        ),
        queue_after(queue, batch_size, Wakeup::Admitted(record)).len() == queue.len() + 1
            - batch_size,
{
}

/// An admission that leaves the queue short of the batch size takes no batch.
pub proof fn law_admission_waits(queue: Seq<QueuedRequest>, batch_size: nat, record: QueuedRequest)
    requires
        queue.len() + 1 < batch_size,
    ensures
        batch_on(queue, batch_size, Wakeup::Admitted(record)).len() == 0,
        queue_after(queue, batch_size, Wakeup::Admitted(record)) == queue.push(record),
{
}

/// A tick never finds a non-empty queue without flushing it: the batch it
/// takes starts with the oldest request, and when the queue holds no more
/// than a batch it is emptied.
pub proof fn law_tick_flushes(queue: Seq<QueuedRequest>, batch_size: nat)
    requires
        batch_size >= 1,
        queue.len() > 0,
    ensures
        batch_on(queue, batch_size, Wakeup::Tick).len() >= 1,
        batch_on(queue, batch_size, Wakeup::Tick)[0] == queue[0],
        queue.len() <= batch_size ==> batch_on(queue, batch_size, Wakeup::Tick) == queue
            && queue_after(queue, batch_size, Wakeup::Tick).len() == 0,
{
}

/// A tick on an empty queue does nothing.
pub proof fn law_idle_tick(batch_size: nat)
    ensures
        batch_on(Seq::empty(), batch_size, Wakeup::Tick).len() == 0,
        queue_after(Seq::empty(), batch_size, Wakeup::Tick).len() == 0,
{
}

/// Between wakeups the queue of a driver with a positive batch size stays
/// below the batch size, whatever the wakeups are.
pub proof fn law_queue_stays_short(
    queue: Seq<QueuedRequest>,
    batch_size: nat,
    wakeups: Seq<Wakeup>,
)
    requires
        batch_size >= 1,
        queue.len() < batch_size,
    ensures
        queue_at_end(queue, batch_size, wakeups).len() < batch_size,
    decreases wakeups.len(),
{
    if wakeups.len() > 0 {
        law_queue_stays_short(
            queue_after(queue, batch_size, wakeups[0]),
            batch_size,
            wakeups.drop_first(),
        );
    }
}

/// Over any run of wakeups, what was flushed followed by what is still queued
/// is what was queued at the start followed by what was admitted: every
/// request goes to the backend at most once, and in arrival order.
pub proof fn law_run_conserves(queue: Seq<QueuedRequest>, batch_size: nat, wakeups: Seq<Wakeup>)
    ensures
        flushed(queue, batch_size, wakeups) + queue_at_end(queue, batch_size, wakeups) == queue
            + admitted(wakeups),
    decreases wakeups.len(),
{
    if wakeups.len() > 0 {
        let first = wakeups[0];
        let rest = wakeups.drop_first();
        let next = queue_after(queue, batch_size, first);
        law_run_conserves(next, batch_size, rest);
        law_step_conserves(queue, batch_size, first);
        let batch = batch_on(queue, batch_size, first);
        assert((batch + flushed(next, batch_size, rest)) + queue_at_end(next, batch_size, rest)
            =~= batch + (flushed(next, batch_size, rest) + queue_at_end(next, batch_size, rest)));
        assert((queue + queue_on_arrival(Seq::empty(), first)) + admitted(rest) =~= queue + (
            queue_on_arrival(Seq::empty(), first) + admitted(rest)));
    }
}

/// No request waits longer than until the next tick: whatever a driver that
/// started with an empty queue has admitted and not yet flushed when a tick
/// arrives, that tick flushes, and in arrival order.
pub proof fn law_tick_empties_queue(batch_size: nat, wakeups: Seq<Wakeup>)
    requires
        batch_size >= 1,
    ensures
        queue_at_end(Seq::empty(), batch_size, wakeups.push(Wakeup::Tick)).len() == 0,
        batch_on(queue_at_end(Seq::empty(), batch_size, wakeups), batch_size, Wakeup::Tick)
            == queue_at_end(Seq::empty(), batch_size, wakeups),
{
    let start = Seq::<QueuedRequest>::empty();
    lemma_run_split(start, batch_size, wakeups, Wakeup::Tick);
    law_queue_stays_short(start, batch_size, wakeups);
}

/// When the admission channel closes, nothing stays behind: a driver that
/// started with an empty queue has, once it has handled the closure, handed
/// every admitted request to the backend, each exactly once and in arrival
/// order.
pub proof fn law_shutdown_drains(batch_size: nat, wakeups: Seq<Wakeup>)
    requires
        batch_size >= 1,
    ensures
        queue_at_end(Seq::empty(), batch_size, wakeups.push(Wakeup::Closed)).len() == 0,
        flushed(Seq::empty(), batch_size, wakeups.push(Wakeup::Closed)) == admitted(wakeups),
{
    let run = wakeups.push(Wakeup::Closed);
    let start = Seq::<QueuedRequest>::empty();
    lemma_run_split(start, batch_size, wakeups, Wakeup::Closed);
    law_queue_stays_short(start, batch_size, wakeups);
    law_run_conserves(start, batch_size, run);
    lemma_admitted_push(wakeups, Wakeup::Closed);
    assert(flushed(start, batch_size, run) + Seq::<QueuedRequest>::empty() =~= flushed(
        start,
        batch_size,
        run,
    ));
}

/// Handling one more wakeup at the end of a run continues from the queue that
/// the run left.
proof fn lemma_run_split(
    queue: Seq<QueuedRequest>,
    batch_size: nat,
    wakeups: Seq<Wakeup>,
    last: Wakeup,
)
    ensures
        queue_at_end(queue, batch_size, wakeups.push(last)) == queue_after(
            queue_at_end(queue, batch_size, wakeups),
            batch_size,
            last,
        ),
    decreases wakeups.len(),
{
    let run = wakeups.push(last);
    if wakeups.len() == 0 {
        assert(queue_at_end(queue_after(queue, batch_size, last), batch_size, run.drop_first())
            == queue_after(queue, batch_size, last));
    } else {
        assert(run.drop_first() =~= wakeups.drop_first().push(last));
        lemma_run_split(
            queue_after(queue, batch_size, wakeups[0]),
            batch_size,
            wakeups.drop_first(),
            last,
        );
    }
}

/// The records admitted by a run with one more wakeup at its end.
proof fn lemma_admitted_push(wakeups: Seq<Wakeup>, last: Wakeup)
    ensures
        admitted(wakeups.push(last)) == admitted(wakeups) + queue_on_arrival(Seq::empty(), last),
    decreases wakeups.len(),
{
    let run = wakeups.push(last);
    if wakeups.len() == 0 {
        assert(admitted(run.drop_first()) =~= Seq::<QueuedRequest>::empty());
    } else {
        assert(run.drop_first() =~= wakeups.drop_first().push(last));
        lemma_admitted_push(wakeups.drop_first(), last);
    }
}

} // verus!
