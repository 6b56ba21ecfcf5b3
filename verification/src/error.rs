//! Failures that a caller of the scheduler can observe.

use vstd::prelude::*;
use vstd::string::StringExecFns;

verus! {

/// Why a submission did not produce a response.
#[derive(Debug)]
pub enum EngineError {
    /// The scheduler no longer accepts work.
    QueueClosed,
    /// The result sink was destroyed before anything was delivered through it.
    SinkDropped,
    /// The backend reported a failure; the text is its message.
    BackendFailure(String),
}

/// An error, as mathematics.
pub enum ErrorView {
    QueueClosed,
    SinkDropped,
    BackendFailure(Seq<char>),
}

impl View for EngineError {
    type V = ErrorView;

    open spec fn view(&self) -> ErrorView {
        match *self {
            EngineError::QueueClosed => ErrorView::QueueClosed,
            EngineError::SinkDropped => ErrorView::SinkDropped,
            EngineError::BackendFailure(text) => ErrorView::BackendFailure(text@),
        }
    }
}

/// The text that describes an error.
pub open spec fn message_of(e: ErrorView) -> Seq<char> {
    match e {
        ErrorView::QueueClosed => "Engine queue is closed"@,
        ErrorView::SinkDropped => "Response channel closed"@,
        ErrorView::BackendFailure(text) => text,
    }
}

impl EngineError {
    /// Describes the error in words.
    pub fn message(&self) -> (text: String)
        ensures
            text@ == message_of(self@),
    {
        match self {
            EngineError::QueueClosed => String::from_str("Engine queue is closed"),
            EngineError::SinkDropped => String::from_str("Response channel closed"),
            EngineError::BackendFailure(text) => text.clone(),
        }
    }
}

} // verus!
