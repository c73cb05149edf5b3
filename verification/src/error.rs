//! Failures reported by stores, the recorder, the engine and its seams.

use vstd::prelude::*;
use vstd::string::*;

use crate::attributes::{SearchAttributeError, SearchAttributeErrorView};
use crate::ids::{hyphenated, ScheduleId, TimerId, TimerIdView, WorkflowId};
use crate::text::{decimal, decimal_text, joined};

verus! {

/// Failure of an event or visibility store.
#[derive(Debug, PartialEq, Eq)]
pub enum StoreError {
    /// The history head is not where the writer expected it.
    SequenceConflict {
        /// Head that the writer expected.
        expected: u64,
        /// Head that the store holds.
        found: u64,
    },
    /// The backend failed or refused the request.
    Backend(String),
    /// Data could not be encoded or decoded.
    Serialization(String),
}

/// Mathematical value of a [`StoreError`].
pub enum StoreErrorView {
    /// The history head is not where the writer expected it.
    SequenceConflict {
        /// Head that the writer expected.
        expected: u64,
        /// Head that the store holds.
        found: u64,
    },
    /// The backend failed or refused the request.
    Backend(Seq<char>),
    /// Data could not be encoded or decoded.
    Serialization(Seq<char>),
}

impl View for StoreError {
    type V = StoreErrorView;

    open spec fn view(&self) -> StoreErrorView {
        match self {
            StoreError::SequenceConflict { expected, found } => StoreErrorView::SequenceConflict {
                expected: *expected,
                found: *found,
            },
            StoreError::Backend(message) => StoreErrorView::Backend(message@),
            StoreError::Serialization(message) => StoreErrorView::Serialization(message@),
        }
    }
}

impl StoreErrorView {
    /// The text under which the failure is reported.
    pub open spec fn text(self) -> Seq<char> {
        match self {
            StoreErrorView::SequenceConflict { expected, found } => "sequence conflict: expected "@
                + decimal(expected as nat) + ", found "@ + decimal(found as nat),
            StoreErrorView::Backend(message) => "store backend error: "@ + message,
            StoreErrorView::Serialization(message) => "store serialization error: "@ + message,
        }
    }
}

impl StoreError {
    /// The text under which the failure is reported.
    pub fn to_string(&self) -> (text: String)
        ensures
            text@ == self@.text(),
    {
        match self {
            StoreError::SequenceConflict { expected, found } => {
                let mut text = joined(
                    "sequence conflict: expected ",
                    decimal_text(*expected as u128).as_str(),
                );
                text.append(", found ");
                text.append(decimal_text(*found as u128).as_str());
                text
            },
            StoreError::Backend(message) => joined("store backend error: ", message.as_str()),
            StoreError::Serialization(message) => joined(
                "store serialization error: ",
                message.as_str(),
            ),
        }
    }
}

/// What a store operation without a result returned.
pub open spec fn store_outcome(outcome: Result<(), StoreError>) -> Result<(), StoreErrorView> {
    match outcome {
        Ok(()) => Ok(()),
        Err(error) => Err(error@),
    }
}

/// Failure of the recorder.
#[derive(Debug, PartialEq, Eq)]
pub enum DurabilityError {
    /// The store failed or refused the request.
    Store(StoreError),
    /// A history does not have the shape that the operation needs.
    HistoryShape {
        /// What is wrong with it.
        reason: String,
    },
    /// A search attribute does not fit the schema.
    SearchAttribute(SearchAttributeError),
}

/// Mathematical value of a [`DurabilityError`].
pub enum DurabilityErrorView {
    /// The store failed or refused the request.
    Store(StoreErrorView),
    /// A history does not have the shape that the operation needs.
    HistoryShape {
        /// What is wrong with it.
        reason: Seq<char>,
    },
    /// A search attribute does not fit the schema.
    SearchAttribute(SearchAttributeErrorView),
}

impl View for DurabilityError {
    type V = DurabilityErrorView;

    open spec fn view(&self) -> DurabilityErrorView {
        match self {
            DurabilityError::Store(error) => DurabilityErrorView::Store(error@),
            DurabilityError::HistoryShape { reason } => DurabilityErrorView::HistoryShape {
                reason: reason@,
            },
            DurabilityError::SearchAttribute(error) => DurabilityErrorView::SearchAttribute(error@),
        }
    }
}

impl DurabilityErrorView {
    /// The text under which the failure is reported.
    pub open spec fn text(self) -> Seq<char> {
        match self {
            DurabilityErrorView::Store(error) => "durable store failed: "@ + error.text(),
            DurabilityErrorView::HistoryShape { reason } => "history shape: "@ + reason,
            DurabilityErrorView::SearchAttribute(error) => match error {
                SearchAttributeErrorView::Unregistered {
                    name,
                } => "search attribute is not registered: "@ + name,
                SearchAttributeErrorView::TypeMismatch {
                    name,
                    ..
                } => "search attribute has another type: "@ + name,
            },
        }
    }
}

impl DurabilityError {
    /// The text under which the failure is reported.
    pub fn to_string(&self) -> (text: String)
        ensures
            text@ == self@.text(),
    {
        match self {
            DurabilityError::Store(error) => joined(
                "durable store failed: ",
                error.to_string().as_str(),
            ),
            DurabilityError::HistoryShape { reason } => joined("history shape: ", reason.as_str()),
            DurabilityError::SearchAttribute(error) => match error {
                SearchAttributeError::Unregistered { name } => joined(
                    "search attribute is not registered: ",
                    name.as_str(),
                ),
                SearchAttributeError::TypeMismatch { name, .. } => joined(
                    "search attribute has another type: ",
                    name.as_str(),
                ),
            },
        }
    }
}

/// What a recording operation returned.
pub open spec fn durable_outcome(outcome: Result<(), DurabilityError>) -> Result<
    (),
    DurabilityErrorView,
> {
    match outcome {
        Ok(()) => Ok(()),
        Err(error) => Err(error@),
    }
}

/// Failure of the engine.
#[derive(Debug, PartialEq, Eq)]
pub enum EngineError {
    /// No event store was supplied.
    MissingStore,
    /// No visibility store was supplied.
    MissingVisibilityStore,
    /// Persisted or packaged data could not be used.
    Load {
        /// What is wrong with it.
        reason: String,
    },
    /// The runtime failed.
    Runtime {
        /// What went wrong.
        reason: String,
    },
    /// No live run and no terminal history answers to the request.
    WorkflowNotFound {
        /// Workflow type, or workflow and run, that was asked for.
        workflow_type: String,
    },
    /// The schedule is absent or deleted.
    ScheduleNotFound {
        /// The schedule that was asked for.
        schedule_id: ScheduleId,
    },
    /// The engine no longer accepts new work.
    ShuttingDown,
    /// The store failed or refused the request.
    Store(StoreError),
    /// The recorder failed.
    Durability(DurabilityError),
}

/// Mathematical value of an [`EngineError`].
pub enum EngineErrorView {
    /// No event store was supplied.
    MissingStore,
    /// No visibility store was supplied.
    MissingVisibilityStore,
    /// Persisted or packaged data could not be used.
    Load {
        /// What is wrong with it.
        reason: Seq<char>,
    },
    /// The runtime failed.
    Runtime {
        /// What went wrong.
        reason: Seq<char>,
    },
    /// No live run and no terminal history answers to the request.
    WorkflowNotFound {
        /// Workflow type, or workflow and run, that was asked for.
        workflow_type: Seq<char>,
    },
    /// The schedule is absent or deleted.
    ScheduleNotFound {
        /// The schedule that was asked for.
        schedule_id: ScheduleId,
    },
    /// The engine no longer accepts new work.
    ShuttingDown,
    /// The store failed or refused the request.
    Store(StoreErrorView),
    /// The recorder failed.
    Durability(DurabilityErrorView),
}

impl View for EngineError {
    type V = EngineErrorView;

    open spec fn view(&self) -> EngineErrorView {
        match self {
            EngineError::MissingStore => EngineErrorView::MissingStore,
            EngineError::MissingVisibilityStore => EngineErrorView::MissingVisibilityStore,
            EngineError::Load { reason } => EngineErrorView::Load { reason: reason@ },
            EngineError::Runtime { reason } => EngineErrorView::Runtime { reason: reason@ },
            EngineError::WorkflowNotFound { workflow_type } => EngineErrorView::WorkflowNotFound {
                workflow_type: workflow_type@,
            },
            EngineError::ScheduleNotFound { schedule_id } => EngineErrorView::ScheduleNotFound {
                schedule_id: *schedule_id,
            },
            EngineError::ShuttingDown => EngineErrorView::ShuttingDown,
            EngineError::Store(error) => EngineErrorView::Store(error@),
            EngineError::Durability(error) => EngineErrorView::Durability(error@),
        }
    }
}

/// Failure of the seam between services and the engine.
#[derive(Debug, PartialEq, Eq)]
pub enum EngineSeamError {
    /// A message could not be delivered.
    Delivery {
        /// What went wrong.
        reason: String,
    },
    /// A child workflow could not be started.
    ChildSpawn {
        /// What went wrong.
        reason: String,
    },
    /// A child workflow or an activity could not be terminated.
    ChildTermination {
        /// What went wrong.
        reason: String,
    },
    /// The timer wheel refused the request.
    TimerWheel {
        /// What went wrong.
        reason: String,
    },
    /// An event could not be recorded.
    Recorder {
        /// What went wrong.
        reason: String,
    },
    /// The workflow is not known.
    UnknownWorkflow {
        /// The workflow that was asked for.
        workflow_id: WorkflowId,
    },
}

/// Mathematical value of an [`EngineSeamError`].
pub enum EngineSeamErrorView {
    /// A message could not be delivered.
    Delivery {
        /// What went wrong.
        reason: Seq<char>,
    },
    /// A child workflow could not be started.
    ChildSpawn {
        /// What went wrong.
        reason: Seq<char>,
    },
    /// A child workflow or an activity could not be terminated.
    ChildTermination {
        /// What went wrong.
        reason: Seq<char>,
    },
    /// The timer wheel refused the request.
    TimerWheel {
        /// What went wrong.
        reason: Seq<char>,
    },
    /// An event could not be recorded.
    Recorder {
        /// What went wrong.
        reason: Seq<char>,
    },
    /// The workflow is not known.
    UnknownWorkflow {
        /// The workflow that was asked for.
        workflow_id: WorkflowId,
    },
}

impl View for EngineSeamError {
    type V = EngineSeamErrorView;

    open spec fn view(&self) -> EngineSeamErrorView {
        match self {
            EngineSeamError::Delivery { reason } => EngineSeamErrorView::Delivery {
                reason: reason@,
            },
            EngineSeamError::ChildSpawn { reason } => EngineSeamErrorView::ChildSpawn {
                reason: reason@,
            },
            EngineSeamError::ChildTermination { reason } => EngineSeamErrorView::ChildTermination {
                reason: reason@,
            },
            EngineSeamError::TimerWheel { reason } => EngineSeamErrorView::TimerWheel {
                reason: reason@,
            },
            EngineSeamError::Recorder { reason } => EngineSeamErrorView::Recorder {
                reason: reason@,
            },
            EngineSeamError::UnknownWorkflow {
                workflow_id,
            } => EngineSeamErrorView::UnknownWorkflow { workflow_id: *workflow_id },
        }
    }
}

impl EngineSeamErrorView {
    /// The text under which the failure is reported.
    pub open spec fn text(self) -> Seq<char> {
        match self {
            EngineSeamErrorView::Delivery { reason } => "workflow delivery failed: "@ + reason,
            EngineSeamErrorView::ChildSpawn { reason } => "child workflow spawn failed: "@ + reason,
            EngineSeamErrorView::ChildTermination { reason } => "child termination failed: "@
                + reason,
            EngineSeamErrorView::TimerWheel { reason } => "timer wheel failed: "@ + reason,
            EngineSeamErrorView::Recorder { reason } => "event recording failed: "@ + reason,
            EngineSeamErrorView::UnknownWorkflow { workflow_id } => "unknown workflow "@
                + hyphenated(workflow_id.value),
        }
    }
}

impl EngineSeamError {
    /// The text under which the failure is reported.
    pub fn to_string(&self) -> (text: String)
        ensures
            text@ == self@.text(),
    {
        match self {
            EngineSeamError::Delivery { reason } => joined(
                "workflow delivery failed: ",
                reason.as_str(),
            ),
            EngineSeamError::ChildSpawn { reason } => joined(
                "child workflow spawn failed: ",
                reason.as_str(),
            ),
            EngineSeamError::ChildTermination { reason } => joined(
                "child termination failed: ",
                reason.as_str(),
            ),
            EngineSeamError::TimerWheel { reason } => joined(
                "timer wheel failed: ",
                reason.as_str(),
            ),
            EngineSeamError::Recorder { reason } => joined(
                "event recording failed: ",
                reason.as_str(),
            ),
            EngineSeamError::UnknownWorkflow { workflow_id } => joined(
                "unknown workflow ",
                workflow_id.to_string().as_str(),
            ),
        }
    }
}

/// Failure of the durable timer service.
#[derive(Debug, PartialEq, Eq)]
pub enum TimerServiceError {
    /// An anonymous sleep cannot be cancelled on its own.
    AnonymousTimerNotCancellable {
        /// The sleep that was named.
        timer_id: TimerId,
    },
    /// The store failed or refused the request.
    Store(StoreError),
    /// The engine seam failed.
    Engine(EngineSeamError),
}

/// Mathematical value of a [`TimerServiceError`].
pub enum TimerServiceErrorView {
    /// An anonymous sleep cannot be cancelled on its own.
    AnonymousTimerNotCancellable {
        /// The sleep that was named.
        timer_id: TimerIdView,
    },
    /// The store failed or refused the request.
    Store(StoreErrorView),
    /// The engine seam failed.
    Engine(EngineSeamErrorView),
}

impl View for TimerServiceError {
    type V = TimerServiceErrorView;

    open spec fn view(&self) -> TimerServiceErrorView {
        match self {
            TimerServiceError::AnonymousTimerNotCancellable {
                timer_id,
            } => TimerServiceErrorView::AnonymousTimerNotCancellable { timer_id: timer_id@ },
            TimerServiceError::Store(error) => TimerServiceErrorView::Store(error@),
            TimerServiceError::Engine(error) => TimerServiceErrorView::Engine(error@),
        }
    }
}

impl TimerServiceErrorView {
    /// The text under which the failure is reported.
    pub open spec fn text(self) -> Seq<char> {
        match self {
            TimerServiceErrorView::AnonymousTimerNotCancellable {
                timer_id,
            } => "anonymous timer cannot be cancelled: "@ + timer_id.text(),
            TimerServiceErrorView::Store(error) => "timer store operation failed: "@ + error.text(),
            TimerServiceErrorView::Engine(error) => "timer engine operation failed: "@
                + error.text(),
        }
    }
}

impl TimerServiceError {
    /// The text under which the failure is reported.
    pub fn to_string(&self) -> (text: String)
        ensures
            text@ == self@.text(),
    {
        match self {
            TimerServiceError::AnonymousTimerNotCancellable { timer_id } => joined(
                "anonymous timer cannot be cancelled: ",
                timer_id.to_string().as_str(),
            ),
            TimerServiceError::Store(error) => joined(
                "timer store operation failed: ",
                error.to_string().as_str(),
            ),
            TimerServiceError::Engine(error) => joined(
                "timer engine operation failed: ",
                error.to_string().as_str(),
            ),
        }
    }
}

/// A failure is told as what failed, followed by its reason in full.
pub proof fn failures_are_told_with_their_reason(
    reason: Seq<char>,
    store: StoreErrorView,
    seam: EngineSeamErrorView,
    timer_id: TimerIdView,
    workflow_id: WorkflowId,
    expected: u64,
    found: u64,
)
    ensures
        (StoreErrorView::SequenceConflict { expected, found }).text() == "sequence conflict: expected "@
            + decimal(expected as nat) + ", found "@ + decimal(found as nat),
        StoreErrorView::Backend(reason).text() == "store backend error: "@ + reason,
        StoreErrorView::Serialization(reason).text() == "store serialization error: "@ + reason,
        DurabilityErrorView::Store(store).text() == "durable store failed: "@ + store.text(),
        (DurabilityErrorView::HistoryShape { reason }).text() == "history shape: "@ + reason,
        (EngineSeamErrorView::Delivery { reason }).text() == "workflow delivery failed: "@ + reason,
        (EngineSeamErrorView::ChildSpawn { reason }).text() == "child workflow spawn failed: "@
            + reason,
        (EngineSeamErrorView::ChildTermination { reason }).text() == "child termination failed: "@
            + reason,
        (EngineSeamErrorView::TimerWheel { reason }).text() == "timer wheel failed: "@ + reason,
        (EngineSeamErrorView::Recorder { reason }).text() == "event recording failed: "@ + reason,
        (EngineSeamErrorView::UnknownWorkflow { workflow_id }).text() == "unknown workflow "@
            + hyphenated(workflow_id.value),
        (TimerServiceErrorView::AnonymousTimerNotCancellable { timer_id }).text()
            == "anonymous timer cannot be cancelled: "@ + timer_id.text(),
        TimerServiceErrorView::Store(store).text() == "timer store operation failed: "@
            + store.text(),
        TimerServiceErrorView::Engine(seam).text() == "timer engine operation failed: "@
            + seam.text(),
{
}

} // verus!
