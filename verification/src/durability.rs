//! Commands of workflow code and how they are resolved.

use vstd::prelude::*;
use vstd::string::*;

use crate::error::DurabilityError;
use crate::ids::{TimerId, WorkflowId};
use crate::payload::{ActivityError, Payload};
use crate::timestamp::Timestamp;

verus! {

/// What ties a command to its events in a history.
#[derive(Debug, PartialEq, Eq)]
pub enum CorrelationKey {
    /// Ordinal of an activity.
    Activity(u64),
    /// A timer.
    Timer(TimerId),
    /// A signal by name, and how many of that name came before.
    Signal {
        /// Name of the signal.
        name: String,
        /// Position among the signals of that name.
        index: usize,
    },
    /// Position of a child's start.
    Child(u64),
}

/// A command of workflow code.
#[allow(inconsistent_fields)]
#[derive(Debug, PartialEq, Eq)]
pub enum Command {
    /// Run an activity.
    RunActivity {
        /// Correlation.
        key: CorrelationKey,
        /// Type of the activity.
        activity_type: String,
        /// Its input.
        input: Payload,
    },
    /// Start a timer.
    StartTimer {
        /// Correlation.
        key: CorrelationKey,
        /// When the timer fires.
        fire_at: Timestamp,
    },
    /// Wait for a signal.
    AwaitSignal {
        /// Correlation.
        key: CorrelationKey,
    },
    /// Start a child workflow.
    SpawnChild {
        /// Correlation.
        key: CorrelationKey,
        /// Type of the child.
        workflow_type: String,
        /// Its input.
        input: Payload,
    },
    /// Wait for a child workflow.
    AwaitChild {
        /// The child.
        child_workflow_id: WorkflowId,
    },
}

/// What a history says of a command.
#[derive(Debug, PartialEq, Eq)]
pub enum Resolution {
    /// The activity returned.
    ActivityCompleted(Payload),
    /// The activity failed for good.
    ActivityFailedTerminal(ActivityError),
    /// The timer was started.
    TimerStarted,
    /// The timer fired.
    TimerFired,
    /// The timer was cancelled.
    TimerCancelled,
    /// The signal was delivered.
    SignalDelivered(Payload),
    /// The child was started.
    ChildStarted(WorkflowId),
    /// The child returned.
    ChildCompleted(Payload),
}

/// Whether a command was resolved from the history.
#[derive(Debug, PartialEq, Eq)]
pub enum ResolveOutcome {
    /// The history resolves it.
    Recorded(Resolution),
    /// It is new and has to be carried out.
    ResumeLive,
}

/// What came of an activity that was carried out.
#[derive(Debug, PartialEq, Eq)]
pub enum LiveActivityOutcome {
    /// It returned.
    Completed(Payload),
    /// It failed.
    Failed(ActivityError),
}

/// What came of a child workflow that was carried out.
#[derive(Debug, PartialEq, Eq)]
pub enum LiveChildOutcome {
    /// It returned.
    Completed {
        /// The child.
        child_workflow_id: WorkflowId,
        /// Its result.
        result: Payload,
    },
}

/// What carries out commands that the history does not resolve.
pub trait LiveExecutor {
    /// Runs an activity.
    fn run_activity(&self, activity_type: String, input: Payload) -> (outcome: Result<
        LiveActivityOutcome,
        DurabilityError,
    >);

    /// Starts a timer.
    fn start_timer(&self, timer_id: TimerId, fire_at: Timestamp) -> (started: Result<
        (),
        DurabilityError,
    >);

    /// Waits for a signal.
    fn await_signal(&self, name: String, index: usize) -> (payload: Result<
        Payload,
        DurabilityError,
    >);

    /// Runs a child workflow.
    fn spawn_child(&self, workflow_type: String, input: Payload) -> (outcome: Result<
        LiveChildOutcome,
        DurabilityError,
    >);
}

/// The command that asks for a timer.
pub fn timer_command(timer_id: TimerId, fire_at: Timestamp) -> (command: Command)
    ensures
        command == (Command::StartTimer { key: CorrelationKey::Timer(timer_id), fire_at }),
{
    Command::StartTimer { key: CorrelationKey::Timer(timer_id), fire_at }
}

} // verus!
