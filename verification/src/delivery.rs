//! Routing what the backend returned for a batch back to the waiting callers.

use vstd::prelude::*;
use vstd::string::StringExecFns;
use crate::batched_engine::{Outcome, ResponseSender};
use crate::error::{EngineError, ErrorView};
use crate::types::{ClassificationResponse, ResponseView};

verus! {

/// What a backend call gives back: one result per request of the batch, each
/// a response or the message of a failure of that request alone; or the
/// message of a failure of the call as a whole.
pub type BackendResult = Result<Vec<Result<ClassificationResponse, String>>, String>;

/// The view of an outcome.
pub open spec fn outcome_view(outcome: Outcome) -> Result<ResponseView, ErrorView> {
    match outcome {
        Ok(response) => Ok(response@),
        Err(error) => Err(error@),
    }
}

/// The message delivered to every sink of a batch whose backend call failed
/// as a whole.
pub open spec fn batch_failure_text(cause: Seq<char>) -> Seq<char> {
    "Batch processing failed: "@ + cause
}

/// The message delivered to a sink for whose request the backend returned no
/// result at all.
pub open spec fn missing_result_text() -> Seq<char> {
    "Backend returned no result for this request"@
}

/// Whether `outcome` is a backend failure with the given message.
pub open spec fn fails_with(outcome: Outcome, text: Seq<char>) -> bool {
    outcome_view(outcome) == Err::<ResponseView, ErrorView>(ErrorView::BackendFailure(text))
}

/// Whether `outcome` is what the sink at `position` of a batch is owed, given
/// what the backend returned for the batch.
///
/// A result at the same position is passed on as it is: a response as that
/// response, a failure of the single request as a `BackendFailure` with the
/// backend's message. When the call failed as a whole, every position is owed
/// a `BackendFailure` that names the cause. A position for which the backend
/// returned no result, because its answer is shorter than the batch, is owed a
/// `BackendFailure` too: no sink goes without an outcome.
pub open spec fn owed(outcome: Outcome, result: BackendResult, position: int) -> bool {
    match result {
        Ok(results) => if 0 <= position < results@.len() {
            match results@[position] {
                Ok(response) => outcome == Ok::<ClassificationResponse, EngineError>(response),
                Err(text) => outcome == Err::<ClassificationResponse, EngineError>(
                    EngineError::BackendFailure(text),
                ),
            }
        } else {
            fails_with(outcome, missing_result_text())
        },
        Err(cause) => fails_with(outcome, batch_failure_text(cause@)),
    }
}

/// The same items in the opposite order.
fn reversed<T>(items: Vec<T>) -> (turned: Vec<T>)
    ensures
        turned@ == items@.reverse(),
{
    let mut left = items;
    let mut turned: Vec<T> = Vec::new();
    while left.len() > 0
        invariant
            left@.len() <= items@.len(),
            left@ == items@.take(left@.len() as int),
            turned@.len() == items@.len() - left@.len(),
            forall|j: int| 0 <= j < turned@.len() ==> turned@[j] == items@[items@.len() - 1 - j],
        decreases left@.len(),
    {
        match left.pop() {
            Some(item) => {
                turned.push(item);
            },
            None => {},
        }
    }
    turned
}

/// A sink together with the outcome that is to be sent through it.
pub struct Delivery {
    pub response_tx: ResponseSender,
    pub outcome: Outcome,
}

/// Pairs each sink of a batch with the outcome that it is owed: the backend's
/// result for the request at the same position, or a failure where there is
/// none.
pub fn route_results(sinks: Vec<ResponseSender>, result: BackendResult) -> (plan: Vec<Delivery>)
    ensures
        plan@.len() == sinks@.len(),
        forall|i: int|
            0 <= i < sinks@.len() ==> {
                &&& (#[trigger] plan@[i]).response_tx == sinks@[i]
                &&& owed(plan@[i].outcome, result, i)
            },
{
    let mut plan: Vec<Delivery> = Vec::new();
    match result {
        Ok(results) => {
            let ghost total: int = results@.len() as int;
            let mut rest = reversed(results);
            for sink in iter: sinks.into_iter()
                invariant
                    iter.seq() == sinks@,
                    result == Ok::<Vec<Result<ClassificationResponse, String>>, String>(results),
                    total == results@.len(),
                    rest@.len() == if iter.index() <= total {
                        total - iter.index()
                    } else {
                        0
                    },
                    forall|j: int| 0 <= j < rest@.len() ==> rest@[j] == results@[total - 1 - j],
                    plan@.len() == iter.index(),
                    forall|i: int|
                        0 <= i < iter.index() ==> {
                            &&& (#[trigger] plan@[i]).response_tx == sinks@[i]
                            &&& owed(plan@[i].outcome, result, i)
                        },
            {
                let outcome: Outcome = match rest.pop() {
                    Some(Ok(response)) => Ok(response),
                    Some(Err(text)) => Err(EngineError::BackendFailure(text)),
                    None => Err(
                        EngineError::BackendFailure(
                            String::from_str("Backend returned no result for this request"),
                        ),
                    ),
                };
                plan.push(Delivery { response_tx: sink, outcome });
            }
        },
        Err(cause) => {
            for sink in iter: sinks.into_iter()
                invariant
                    iter.seq() == sinks@,
                    result == Err::<Vec<Result<ClassificationResponse, String>>, String>(cause),
                    plan@.len() == iter.index(),
                    forall|i: int|
                        0 <= i < iter.index() ==> {
                            &&& (#[trigger] plan@[i]).response_tx == sinks@[i]
                            &&& owed(plan@[i].outcome, result, i)
                        },
            {
                let text = String::from_str("Batch processing failed: ").concat(cause.as_str());
                plan.push(
                    Delivery { response_tx: sink, outcome: Err(EngineError::BackendFailure(text)) },
                );
            }
        },
    }
    plan
}

/// What became of the outcomes of one batch.
#[derive(Debug, Clone, Copy, PartialEq, Eq, Structural)]
pub struct DeliveryReport {
    /// Outcomes handed over to a receiver that was still there.
    pub sent: usize,
    /// Outcomes discarded because the receiver had already gone away.
    pub receiver_gone: usize,
}

/// The report in which `report` is extended by one outcome, which was handed
/// over if `handed_over` is set and discarded if not.
pub open spec fn report_with(report: DeliveryReport, handed_over: bool) -> DeliveryReport {
    if handed_over {
        DeliveryReport { sent: (report.sent + 1) as usize, ..report }
    } else {
        DeliveryReport { receiver_gone: (report.receiver_gone + 1) as usize, ..report }
    }
}

/// Accounts for one more outcome in a report.
pub fn record_delivery(report: DeliveryReport, handed_over: bool) -> (next: DeliveryReport)
    requires
        report.sent + report.receiver_gone < usize::MAX,
    ensures
        next == report_with(report, handed_over),
        next.sent + next.receiver_gone == report.sent + report.receiver_gone + 1,
{
    if handed_over {
        DeliveryReport { sent: report.sent + 1, ..report }
    } else {
        DeliveryReport { receiver_gone: report.receiver_gone + 1, ..report }
    }
}

/// Carries out a plan: the outcome of every entry is sent through its sink,
/// in plan order, and every sink is used exactly once. A sink whose receiver
/// has gone away takes its outcome with it silently.
///
/// Which receivers are still there is not known here, so the report only
/// promises that every sink is accounted for.
pub fn deliver(plan: Vec<Delivery>) -> (report: DeliveryReport)
    ensures
        report.sent + report.receiver_gone == plan@.len(),
{
    let mut report = DeliveryReport { sent: 0, receiver_gone: 0 };
    assert(plan@.len() == plan.len());
    for delivery in iter: plan.into_iter()
        invariant
            iter.seq() == plan@,
            plan@.len() <= usize::MAX,
            report.sent + report.receiver_gone == iter.index(),
    {
        let handed_over: bool = delivery.response_tx.send(delivery.outcome).is_ok();
        report = record_delivery(report, handed_over);
    }
    report
}

/// Finishes a batch: routes what the backend returned to the sinks of the
/// batch, position by position, and delivers it. Every sink of the batch is
/// sent an outcome, whatever the backend returned.
pub fn complete_batch(sinks: Vec<ResponseSender>, result: BackendResult) -> (report: DeliveryReport)
    ensures
        report.sent + report.receiver_gone == sinks@.len(),
{
    let plan = route_results(sinks, result);
    deliver(plan)
}

} // verus!
