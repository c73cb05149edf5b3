//! Workflow history events.

use vstd::prelude::*;
use vstd::string::*;

use crate::attributes::{SearchAttributeValueView, SearchAttributes};
use crate::ids::{ActivityId, RunId, ScheduleId, TimerId, TimerIdView, WorkflowId};
use crate::payload::{
    ActivityError, ActivityErrorView, Payload, PayloadView, WorkflowError, WorkflowErrorView,
};
use crate::schedule::{ScheduleConfig, ScheduleConfigView};
use crate::text::{clone_optional_text, optional_text, same_optional_text, same_text};
use crate::timestamp::Timestamp;

verus! {

/// What every event carries: its place, its time and its workflow.
#[derive(Clone, Copy, Debug, PartialEq, Eq, Structural)]
pub struct EventEnvelope {
    /// Position in the workflow's history, counted from one.
    pub seq: u64,
    /// When the event was recorded.
    pub recorded_at: Timestamp,
    /// Workflow whose history holds the event.
    pub workflow_id: WorkflowId,
}

/// One recorded step of a workflow.
#[allow(inconsistent_fields)]
#[derive(Debug, PartialEq, Eq)]
pub enum Event {
    /// A run of the workflow began.
    WorkflowStarted {
        /// Place, time and workflow.
        envelope: EventEnvelope,
        /// Type of the workflow.
        workflow_type: String,
        /// Input handed to the run.
        input: Payload,
        /// The run that began.
        run_id: RunId,
        /// The run that this one continues, if any.
        parent_run_id: Option<RunId>,
    },
    /// The run ended with a result.
    WorkflowCompleted {
        /// Place, time and workflow.
        envelope: EventEnvelope,
        /// Result of the run.
        result: Payload,
    },
    /// The run ended with a failure.
    WorkflowFailed {
        /// Place, time and workflow.
        envelope: EventEnvelope,
        /// The failure.
        error: WorkflowError,
    },
    /// The run was cancelled.
    WorkflowCancelled {
        /// Place, time and workflow.
        envelope: EventEnvelope,
        /// Why it was cancelled.
        reason: String,
    },
    /// The run exceeded its time limit.
    WorkflowTimedOut {
        /// Place, time and workflow.
        envelope: EventEnvelope,
        /// Name of the limit.
        timeout: String,
    },
    /// The run ended so that another run continues it.
    WorkflowContinuedAsNew {
        /// Place, time and workflow.
        envelope: EventEnvelope,
        /// Input of the next run.
        input: Payload,
        /// Type of the next run, where it changes.
        workflow_type: Option<String>,
        /// The run that ended.
        parent_run_id: RunId,
    },
    /// Search attributes of the workflow changed.
    SearchAttributesUpdated {
        /// Place, time and workflow.
        envelope: EventEnvelope,
        /// Workflow that the attributes belong to.
        workflow_id: WorkflowId,
        /// The changed attributes.
        attributes: SearchAttributes,
    },
    /// An activity was scheduled.
    ActivityScheduled {
        /// Place, time and workflow.
        envelope: EventEnvelope,
        /// The activity.
        activity_id: ActivityId,
        /// Type of the activity.
        activity_type: String,
        /// Input of the activity.
        input: Payload,
    },
    /// An activity attempt began.
    ActivityStarted {
        /// Place, time and workflow.
        envelope: EventEnvelope,
        /// The activity.
        activity_id: ActivityId,
    },
    /// An activity ended with a result.
    ActivityCompleted {
        /// Place, time and workflow.
        envelope: EventEnvelope,
        /// The activity.
        activity_id: ActivityId,
        /// Its result.
        result: Payload,
    },
    /// An activity attempt failed.
    ActivityFailed {
        /// Place, time and workflow.
        envelope: EventEnvelope,
        /// The activity.
        activity_id: ActivityId,
        /// The failure.
        error: ActivityError,
        /// Ordinal of the attempt.
        attempt: u32,
    },
    /// An activity was cancelled.
    ActivityCancelled {
        /// Place, time and workflow.
        envelope: EventEnvelope,
        /// The activity.
        activity_id: ActivityId,
    },
    /// A timer was scheduled.
    TimerStarted {
        /// Place, time and workflow.
        envelope: EventEnvelope,
        /// The timer.
        timer_id: TimerId,
        /// When it is due.
        fire_at: Timestamp,
    },
    /// A timer fired.
    TimerFired {
        /// Place, time and workflow.
        envelope: EventEnvelope,
        /// The timer.
        timer_id: TimerId,
    },
    /// A timer was cancelled.
    TimerCancelled {
        /// Place, time and workflow.
        envelope: EventEnvelope,
        /// The timer.
        timer_id: TimerId,
    },
    /// A signal was delivered to the workflow.
    SignalReceived {
        /// Place, time and workflow.
        envelope: EventEnvelope,
        /// Name of the signal.
        name: String,
        /// Data of the signal.
        payload: Payload,
    },
    /// The workflow sent a signal.
    SignalSent {
        /// Place, time and workflow.
        envelope: EventEnvelope,
        /// The receiver.
        target_workflow_id: WorkflowId,
        /// Name of the signal.
        name: String,
        /// Data of the signal.
        payload: Payload,
    },
    /// A child workflow began.
    ChildWorkflowStarted {
        /// Place, time and workflow.
        envelope: EventEnvelope,
        /// The child.
        child_workflow_id: WorkflowId,
        /// Type of the child.
        workflow_type: String,
        /// Input of the child.
        input: Payload,
    },
    /// A child workflow ended with a result.
    ChildWorkflowCompleted {
        /// Place, time and workflow.
        envelope: EventEnvelope,
        /// The child.
        child_workflow_id: WorkflowId,
        /// Its result.
        result: Payload,
    },
    /// A child workflow failed.
    ChildWorkflowFailed {
        /// Place, time and workflow.
        envelope: EventEnvelope,
        /// The child.
        child_workflow_id: WorkflowId,
        /// The failure.
        error: WorkflowError,
    },
    /// A child workflow was cancelled.
    ChildWorkflowCancelled {
        /// Place, time and workflow.
        envelope: EventEnvelope,
        /// The child.
        child_workflow_id: WorkflowId,
    },
    /// A schedule was created.
    ScheduleCreated {
        /// Place, time and workflow.
        envelope: EventEnvelope,
        /// The schedule.
        schedule_id: ScheduleId,
        /// Its configuration.
        config: ScheduleConfig,
    },
    /// A schedule's configuration changed.
    ScheduleUpdated {
        /// Place, time and workflow.
        envelope: EventEnvelope,
        /// The schedule.
        schedule_id: ScheduleId,
        /// Its new configuration.
        config: ScheduleConfig,
    },
    /// A schedule was paused.
    SchedulePaused {
        /// Place, time and workflow.
        envelope: EventEnvelope,
        /// The schedule.
        schedule_id: ScheduleId,
    },
    /// A schedule was resumed.
    ScheduleResumed {
        /// Place, time and workflow.
        envelope: EventEnvelope,
        /// The schedule.
        schedule_id: ScheduleId,
    },
    /// A schedule was deleted.
    ScheduleDeleted {
        /// Place, time and workflow.
        envelope: EventEnvelope,
        /// The schedule.
        schedule_id: ScheduleId,
    },
    /// A schedule started a workflow.
    ScheduleTriggered {
        /// Place, time and workflow.
        envelope: EventEnvelope,
        /// The schedule.
        schedule_id: ScheduleId,
        /// The workflow that it started.
        workflow_id: WorkflowId,
        /// The run that it started.
        run_id: RunId,
    },
}

/// What happened, apart from place, time and workflow.
#[allow(inconsistent_fields)]
pub enum EventBody {
    /// A run of the workflow began.
    WorkflowStarted {
        /// Type of the workflow.
        workflow_type: Seq<char>,
        /// Input handed to the run.
        input: PayloadView,
        /// The run that began.
        run_id: RunId,
        /// The run that this one continues, if any.
        parent_run_id: Option<RunId>,
    },
    /// The run ended with a result.
    WorkflowCompleted {
        /// Result of the run.
        result: PayloadView,
    },
    /// The run ended with a failure.
    WorkflowFailed {
        /// The failure.
        error: WorkflowErrorView,
    },
    /// The run was cancelled.
    WorkflowCancelled {
        /// Why it was cancelled.
        reason: Seq<char>,
    },
    /// The run exceeded its time limit.
    WorkflowTimedOut {
        /// Name of the limit.
        timeout: Seq<char>,
    },
    /// The run ended so that another run continues it.
    WorkflowContinuedAsNew {
        /// Input of the next run.
        input: PayloadView,
        /// Type of the next run, where it changes.
        workflow_type: Option<Seq<char>>,
        /// The run that ended.
        parent_run_id: RunId,
    },
    /// Search attributes of the workflow changed.
    SearchAttributesUpdated {
        /// Workflow that the attributes belong to.
        workflow_id: WorkflowId,
        /// The changed attributes.
        attributes: Map<Seq<char>, SearchAttributeValueView>,
    },
    /// An activity was scheduled.
    ActivityScheduled {
        /// The activity.
        activity_id: ActivityId,
        /// Type of the activity.
        activity_type: Seq<char>,
        /// Input of the activity.
        input: PayloadView,
    },
    /// An activity attempt began.
    ActivityStarted {
        /// The activity.
        activity_id: ActivityId,
    },
    /// An activity ended with a result.
    ActivityCompleted {
        /// The activity.
        activity_id: ActivityId,
        /// Its result.
        result: PayloadView,
    },
    /// An activity attempt failed.
    ActivityFailed {
        /// The activity.
        activity_id: ActivityId,
        /// The failure.
        error: ActivityErrorView,
        /// Ordinal of the attempt.
        attempt: u32,
    },
    /// An activity was cancelled.
    ActivityCancelled {
        /// The activity.
        activity_id: ActivityId,
    },
    /// A timer was scheduled.
    TimerStarted {
        /// The timer.
        timer_id: TimerIdView,
        /// When it is due.
        fire_at: Timestamp,
    },
    /// A timer fired.
    TimerFired {
        /// The timer.
        timer_id: TimerIdView,
    },
    /// A timer was cancelled.
    TimerCancelled {
        /// The timer.
        timer_id: TimerIdView,
    },
    /// A signal was delivered to the workflow.
    SignalReceived {
        /// Name of the signal.
        name: Seq<char>,
        /// Data of the signal.
        payload: PayloadView,
    },
    /// The workflow sent a signal.
    SignalSent {
        /// The receiver.
        target_workflow_id: WorkflowId,
        /// Name of the signal.
        name: Seq<char>,
        /// Data of the signal.
        payload: PayloadView,
    },
    /// A child workflow began.
    ChildWorkflowStarted {
        /// The child.
        child_workflow_id: WorkflowId,
        /// Type of the child.
        workflow_type: Seq<char>,
        /// Input of the child.
        input: PayloadView,
    },
    /// A child workflow ended with a result.
    ChildWorkflowCompleted {
        /// The child.
        child_workflow_id: WorkflowId,
        /// Its result.
        result: PayloadView,
    },
    /// A child workflow failed.
    ChildWorkflowFailed {
        /// The child.
        child_workflow_id: WorkflowId,
        /// The failure.
        error: WorkflowErrorView,
    },
    /// A child workflow was cancelled.
    ChildWorkflowCancelled {
        /// The child.
        child_workflow_id: WorkflowId,
    },
    /// A schedule was created.
    ScheduleCreated {
        /// The schedule.
        schedule_id: ScheduleId,
        /// Its configuration.
        config: ScheduleConfigView,
    },
    /// A schedule's configuration changed.
    ScheduleUpdated {
        /// The schedule.
        schedule_id: ScheduleId,
        /// Its new configuration.
        config: ScheduleConfigView,
    },
    /// A schedule was paused.
    SchedulePaused {
        /// The schedule.
        schedule_id: ScheduleId,
    },
    /// A schedule was resumed.
    ScheduleResumed {
        /// The schedule.
        schedule_id: ScheduleId,
    },
    /// A schedule was deleted.
    ScheduleDeleted {
        /// The schedule.
        schedule_id: ScheduleId,
    },
    /// A schedule started a workflow.
    ScheduleTriggered {
        /// The schedule.
        schedule_id: ScheduleId,
        /// The workflow that it started.
        workflow_id: WorkflowId,
        /// The run that it started.
        run_id: RunId,
    },
}

/// Mathematical value of an [`Event`].
pub struct EventView {
    /// Place, time and workflow.
    pub envelope: EventEnvelope,
    /// What happened.
    pub body: EventBody,
}

impl View for Event {
    type V = EventView;

    open spec fn view(&self) -> EventView {
        match self {
            Event::WorkflowStarted { envelope, workflow_type, input, run_id, parent_run_id } => EventView {
                envelope: *envelope,
                body: EventBody::WorkflowStarted {
                    workflow_type: workflow_type@,
                    input: input@,
                    run_id: *run_id,
                    parent_run_id: *parent_run_id,
                },
            },
            Event::WorkflowCompleted { envelope, result } => EventView {
                envelope: *envelope,
                body: EventBody::WorkflowCompleted {
                    result: result@,
                },
            },
            Event::WorkflowFailed { envelope, error } => EventView {
                envelope: *envelope,
                body: EventBody::WorkflowFailed {
                    error: error@,
                },
            },
            Event::WorkflowCancelled { envelope, reason } => EventView {
                envelope: *envelope,
                body: EventBody::WorkflowCancelled {
                    reason: reason@,
                },
            },
            Event::WorkflowTimedOut { envelope, timeout } => EventView {
                envelope: *envelope,
                body: EventBody::WorkflowTimedOut {
                    timeout: timeout@,
                },
            },
            Event::WorkflowContinuedAsNew { envelope, input, workflow_type, parent_run_id } => EventView {
                envelope: *envelope,
                body: EventBody::WorkflowContinuedAsNew {
                    input: input@,
                    workflow_type: optional_text(*workflow_type),
                    parent_run_id: *parent_run_id,
                },
            },
            Event::SearchAttributesUpdated { envelope, workflow_id, attributes } => EventView {
                envelope: *envelope,
                body: EventBody::SearchAttributesUpdated {
                    workflow_id: *workflow_id,
                    attributes: attributes@,
                },
            },
            Event::ActivityScheduled { envelope, activity_id, activity_type, input } => EventView {
                envelope: *envelope,
                body: EventBody::ActivityScheduled {
                    activity_id: *activity_id,
                    activity_type: activity_type@,
                    input: input@,
                },
            },
            Event::ActivityStarted { envelope, activity_id } => EventView {
                envelope: *envelope,
                body: EventBody::ActivityStarted {
                    activity_id: *activity_id,
                },
            },
            Event::ActivityCompleted { envelope, activity_id, result } => EventView {
                envelope: *envelope,
                body: EventBody::ActivityCompleted {
                    activity_id: *activity_id,
                    result: result@,
                },
            },
            Event::ActivityFailed { envelope, activity_id, error, attempt } => EventView {
                envelope: *envelope,
                body: EventBody::ActivityFailed {
                    activity_id: *activity_id,
                    error: error@,
                    attempt: *attempt,
                },
            },
            Event::ActivityCancelled { envelope, activity_id } => EventView {
                envelope: *envelope,
                body: EventBody::ActivityCancelled {
                    activity_id: *activity_id,
                },
            },
            Event::TimerStarted { envelope, timer_id, fire_at } => EventView {
                envelope: *envelope,
                body: EventBody::TimerStarted {
                    timer_id: timer_id@,
                    fire_at: *fire_at,
                },
            },
            Event::TimerFired { envelope, timer_id } => EventView {
                envelope: *envelope,
                body: EventBody::TimerFired {
                    timer_id: timer_id@,
                },
            },
            Event::TimerCancelled { envelope, timer_id } => EventView {
                envelope: *envelope,
                body: EventBody::TimerCancelled {
                    timer_id: timer_id@,
                },
            },
            Event::SignalReceived { envelope, name, payload } => EventView {
                envelope: *envelope,
                body: EventBody::SignalReceived {
                    name: name@,
                    payload: payload@,
                },
            },
            Event::SignalSent { envelope, target_workflow_id, name, payload } => EventView {
                envelope: *envelope,
                body: EventBody::SignalSent {
                    target_workflow_id: *target_workflow_id,
                    name: name@,
                    payload: payload@,
                },
            },
            Event::ChildWorkflowStarted { envelope, child_workflow_id, workflow_type, input } => EventView {
                envelope: *envelope,
                body: EventBody::ChildWorkflowStarted {
                    child_workflow_id: *child_workflow_id,
                    workflow_type: workflow_type@,
                    input: input@,
                },
            },
            Event::ChildWorkflowCompleted { envelope, child_workflow_id, result } => EventView {
                envelope: *envelope,
                body: EventBody::ChildWorkflowCompleted {
                    child_workflow_id: *child_workflow_id,
                    result: result@,
                },
            },
            Event::ChildWorkflowFailed { envelope, child_workflow_id, error } => EventView {
                envelope: *envelope,
                body: EventBody::ChildWorkflowFailed {
                    child_workflow_id: *child_workflow_id,
                    error: error@,
                },
            },
            Event::ChildWorkflowCancelled { envelope, child_workflow_id } => EventView {
                envelope: *envelope,
                body: EventBody::ChildWorkflowCancelled {
                    child_workflow_id: *child_workflow_id,
                },
            },
            Event::ScheduleCreated { envelope, schedule_id, config } => EventView {
                envelope: *envelope,
                body: EventBody::ScheduleCreated {
                    schedule_id: *schedule_id,
                    config: config@,
                },
            },
            Event::ScheduleUpdated { envelope, schedule_id, config } => EventView {
                envelope: *envelope,
                body: EventBody::ScheduleUpdated {
                    schedule_id: *schedule_id,
                    config: config@,
                },
            },
            Event::SchedulePaused { envelope, schedule_id } => EventView {
                envelope: *envelope,
                body: EventBody::SchedulePaused {
                    schedule_id: *schedule_id,
                },
            },
            Event::ScheduleResumed { envelope, schedule_id } => EventView {
                envelope: *envelope,
                body: EventBody::ScheduleResumed {
                    schedule_id: *schedule_id,
                },
            },
            Event::ScheduleDeleted { envelope, schedule_id } => EventView {
                envelope: *envelope,
                body: EventBody::ScheduleDeleted {
                    schedule_id: *schedule_id,
                },
            },
            Event::ScheduleTriggered { envelope, schedule_id, workflow_id, run_id } => EventView {
                envelope: *envelope,
                body: EventBody::ScheduleTriggered {
                    schedule_id: *schedule_id,
                    workflow_id: *workflow_id,
                    run_id: *run_id,
                },
            },
        }
    }
}

impl Clone for Event {
    fn clone(&self) -> (copy: Self)
        ensures
            copy@ == self@,
    {
        match self {
            Event::WorkflowStarted { envelope, workflow_type, input, run_id, parent_run_id } => Event::WorkflowStarted {
                envelope: *envelope,
                workflow_type: workflow_type.clone(),
                input: input.clone(),
                run_id: *run_id,
                parent_run_id: *parent_run_id,
            },
            Event::WorkflowCompleted { envelope, result } => Event::WorkflowCompleted {
                envelope: *envelope,
                result: result.clone(),
            },
            Event::WorkflowFailed { envelope, error } => Event::WorkflowFailed {
                envelope: *envelope,
                error: error.clone(),
            },
            Event::WorkflowCancelled { envelope, reason } => Event::WorkflowCancelled {
                envelope: *envelope,
                reason: reason.clone(),
            },
            Event::WorkflowTimedOut { envelope, timeout } => Event::WorkflowTimedOut {
                envelope: *envelope,
                timeout: timeout.clone(),
            },
            Event::WorkflowContinuedAsNew { envelope, input, workflow_type, parent_run_id } => Event::WorkflowContinuedAsNew {
                envelope: *envelope,
                input: input.clone(),
                workflow_type: clone_optional_text(workflow_type),
                parent_run_id: *parent_run_id,
            },
            Event::SearchAttributesUpdated { envelope, workflow_id, attributes } => Event::SearchAttributesUpdated {
                envelope: *envelope,
                workflow_id: *workflow_id,
                attributes: attributes.clone(),
            },
            Event::ActivityScheduled { envelope, activity_id, activity_type, input } => Event::ActivityScheduled {
                envelope: *envelope,
                activity_id: *activity_id,
                activity_type: activity_type.clone(),
                input: input.clone(),
            },
            Event::ActivityStarted { envelope, activity_id } => Event::ActivityStarted {
                envelope: *envelope,
                activity_id: *activity_id,
            },
            Event::ActivityCompleted { envelope, activity_id, result } => Event::ActivityCompleted {
                envelope: *envelope,
                activity_id: *activity_id,
                result: result.clone(),
            },
            Event::ActivityFailed { envelope, activity_id, error, attempt } => Event::ActivityFailed {
                envelope: *envelope,
                activity_id: *activity_id,
                error: error.clone(),
                attempt: *attempt,
            },
            Event::ActivityCancelled { envelope, activity_id } => Event::ActivityCancelled {
                envelope: *envelope,
                activity_id: *activity_id,
            },
            Event::TimerStarted { envelope, timer_id, fire_at } => Event::TimerStarted {
                envelope: *envelope,
                timer_id: timer_id.clone(),
                fire_at: *fire_at,
            },
            Event::TimerFired { envelope, timer_id } => Event::TimerFired {
                envelope: *envelope,
                timer_id: timer_id.clone(),
            },
            Event::TimerCancelled { envelope, timer_id } => Event::TimerCancelled {
                envelope: *envelope,
                timer_id: timer_id.clone(),
            },
            Event::SignalReceived { envelope, name, payload } => Event::SignalReceived {
                envelope: *envelope,
                name: name.clone(),
                payload: payload.clone(),
            },
            Event::SignalSent { envelope, target_workflow_id, name, payload } => Event::SignalSent {
                envelope: *envelope,
                target_workflow_id: *target_workflow_id,
                name: name.clone(),
                payload: payload.clone(),
            },
            Event::ChildWorkflowStarted { envelope, child_workflow_id, workflow_type, input } => Event::ChildWorkflowStarted {
                envelope: *envelope,
                child_workflow_id: *child_workflow_id,
                workflow_type: workflow_type.clone(),
                input: input.clone(),
            },
            Event::ChildWorkflowCompleted { envelope, child_workflow_id, result } => Event::ChildWorkflowCompleted {
                envelope: *envelope,
                child_workflow_id: *child_workflow_id,
                result: result.clone(),
            },
            Event::ChildWorkflowFailed { envelope, child_workflow_id, error } => Event::ChildWorkflowFailed {
                envelope: *envelope,
                child_workflow_id: *child_workflow_id,
                error: error.clone(),
            },
            Event::ChildWorkflowCancelled { envelope, child_workflow_id } => Event::ChildWorkflowCancelled {
                envelope: *envelope,
                child_workflow_id: *child_workflow_id,
            },
            Event::ScheduleCreated { envelope, schedule_id, config } => Event::ScheduleCreated {
                envelope: *envelope,
                schedule_id: *schedule_id,
                config: config.clone(),
            },
            Event::ScheduleUpdated { envelope, schedule_id, config } => Event::ScheduleUpdated {
                envelope: *envelope,
                schedule_id: *schedule_id,
                config: config.clone(),
            },
            Event::SchedulePaused { envelope, schedule_id } => Event::SchedulePaused {
                envelope: *envelope,
                schedule_id: *schedule_id,
            },
            Event::ScheduleResumed { envelope, schedule_id } => Event::ScheduleResumed {
                envelope: *envelope,
                schedule_id: *schedule_id,
            },
            Event::ScheduleDeleted { envelope, schedule_id } => Event::ScheduleDeleted {
                envelope: *envelope,
                schedule_id: *schedule_id,
            },
            Event::ScheduleTriggered { envelope, schedule_id, workflow_id, run_id } => Event::ScheduleTriggered {
                envelope: *envelope,
                schedule_id: *schedule_id,
                workflow_id: *workflow_id,
                run_id: *run_id,
            },
        }
    }
}

fn same_run(left: &Option<RunId>, right: &Option<RunId>) -> (same: bool)
    ensures
        same == (*left == *right),
{
    match (left, right) {
        (Some(a), Some(b)) => a.value == b.value,
        (None, None) => true,
        _ => false,
    }
}

impl Event {
    /// Place, time and workflow.
    pub fn envelope(&self) -> (envelope: &EventEnvelope)
        ensures
            *envelope == self@.envelope,
    {
        match self {
            Event::WorkflowStarted { envelope, .. } => envelope,
            Event::WorkflowCompleted { envelope, .. } => envelope,
            Event::WorkflowFailed { envelope, .. } => envelope,
            Event::WorkflowCancelled { envelope, .. } => envelope,
            Event::WorkflowTimedOut { envelope, .. } => envelope,
            Event::WorkflowContinuedAsNew { envelope, .. } => envelope,
            Event::SearchAttributesUpdated { envelope, .. } => envelope,
            Event::ActivityScheduled { envelope, .. } => envelope,
            Event::ActivityStarted { envelope, .. } => envelope,
            Event::ActivityCompleted { envelope, .. } => envelope,
            Event::ActivityFailed { envelope, .. } => envelope,
            Event::ActivityCancelled { envelope, .. } => envelope,
            Event::TimerStarted { envelope, .. } => envelope,
            Event::TimerFired { envelope, .. } => envelope,
            Event::TimerCancelled { envelope, .. } => envelope,
            Event::SignalReceived { envelope, .. } => envelope,
            Event::SignalSent { envelope, .. } => envelope,
            Event::ChildWorkflowStarted { envelope, .. } => envelope,
            Event::ChildWorkflowCompleted { envelope, .. } => envelope,
            Event::ChildWorkflowFailed { envelope, .. } => envelope,
            Event::ChildWorkflowCancelled { envelope, .. } => envelope,
            Event::ScheduleCreated { envelope, .. } => envelope,
            Event::ScheduleUpdated { envelope, .. } => envelope,
            Event::SchedulePaused { envelope, .. } => envelope,
            Event::ScheduleResumed { envelope, .. } => envelope,
            Event::ScheduleDeleted { envelope, .. } => envelope,
            Event::ScheduleTriggered { envelope, .. } => envelope,
        }
    }

    /// Position in the workflow's history.
    pub fn seq(&self) -> (seq: u64)
        ensures
            seq == self@.envelope.seq,
    {
        self.envelope().seq
    }

    /// When the event was recorded.
    pub fn recorded_at(&self) -> (recorded_at: Timestamp)
        ensures
            recorded_at == self@.envelope.recorded_at,
    {
        self.envelope().recorded_at
    }

    /// Whether two events record the same.
    pub fn same(&self, other: &Self) -> (same: bool)
        ensures
            same == (self@ == other@),
    {
        if *self.envelope() != *other.envelope() {
            return false;
        }
        match (self, other) {
            (
                Event::WorkflowStarted { workflow_type: a0, input: a1, run_id: a2, parent_run_id: a3, .. },
                Event::WorkflowStarted { workflow_type: b0, input: b1, run_id: b2, parent_run_id: b3, .. },
            ) => same_text(a0.as_str(), b0.as_str()) && a1.same(b1) && *a2 == *b2 && same_run(a3, b3),
            (
                Event::WorkflowCompleted { result: a0, .. },
                Event::WorkflowCompleted { result: b0, .. },
            ) => a0.same(b0),
            (
                Event::WorkflowFailed { error: a0, .. },
                Event::WorkflowFailed { error: b0, .. },
            ) => a0.same(b0),
            (
                Event::WorkflowCancelled { reason: a0, .. },
                Event::WorkflowCancelled { reason: b0, .. },
            ) => same_text(a0.as_str(), b0.as_str()),
            (
                Event::WorkflowTimedOut { timeout: a0, .. },
                Event::WorkflowTimedOut { timeout: b0, .. },
            ) => same_text(a0.as_str(), b0.as_str()),
            (
                Event::WorkflowContinuedAsNew { input: a0, workflow_type: a1, parent_run_id: a2, .. },
                Event::WorkflowContinuedAsNew { input: b0, workflow_type: b1, parent_run_id: b2, .. },
            ) => a0.same(b0) && same_optional_text(a1, b1) && *a2 == *b2,
            (
                Event::SearchAttributesUpdated { workflow_id: a0, attributes: a1, .. },
                Event::SearchAttributesUpdated { workflow_id: b0, attributes: b1, .. },
            ) => *a0 == *b0 && a1.same(b1),
            (
                Event::ActivityScheduled { activity_id: a0, activity_type: a1, input: a2, .. },
                Event::ActivityScheduled { activity_id: b0, activity_type: b1, input: b2, .. },
            ) => *a0 == *b0 && same_text(a1.as_str(), b1.as_str()) && a2.same(b2),
            (
                Event::ActivityStarted { activity_id: a0, .. },
                Event::ActivityStarted { activity_id: b0, .. },
            ) => *a0 == *b0,
            (
                Event::ActivityCompleted { activity_id: a0, result: a1, .. },
                Event::ActivityCompleted { activity_id: b0, result: b1, .. },
            ) => *a0 == *b0 && a1.same(b1),
            (
                Event::ActivityFailed { activity_id: a0, error: a1, attempt: a2, .. },
                Event::ActivityFailed { activity_id: b0, error: b1, attempt: b2, .. },
            ) => *a0 == *b0 && a1.same(b1) && *a2 == *b2,
            (
                Event::ActivityCancelled { activity_id: a0, .. },
                Event::ActivityCancelled { activity_id: b0, .. },
            ) => *a0 == *b0,
            (
                Event::TimerStarted { timer_id: a0, fire_at: a1, .. },
                Event::TimerStarted { timer_id: b0, fire_at: b1, .. },
            ) => a0.same(b0) && *a1 == *b1,
            (
                Event::TimerFired { timer_id: a0, .. },
                Event::TimerFired { timer_id: b0, .. },
            ) => a0.same(b0),
            (
                Event::TimerCancelled { timer_id: a0, .. },
                Event::TimerCancelled { timer_id: b0, .. },
            ) => a0.same(b0),
            (
                Event::SignalReceived { name: a0, payload: a1, .. },
                Event::SignalReceived { name: b0, payload: b1, .. },
            ) => same_text(a0.as_str(), b0.as_str()) && a1.same(b1),
            (
                Event::SignalSent { target_workflow_id: a0, name: a1, payload: a2, .. },
                Event::SignalSent { target_workflow_id: b0, name: b1, payload: b2, .. },
            ) => *a0 == *b0 && same_text(a1.as_str(), b1.as_str()) && a2.same(b2),
            (
                Event::ChildWorkflowStarted { child_workflow_id: a0, workflow_type: a1, input: a2, .. },
                Event::ChildWorkflowStarted { child_workflow_id: b0, workflow_type: b1, input: b2, .. },
            ) => *a0 == *b0 && same_text(a1.as_str(), b1.as_str()) && a2.same(b2),
            (
                Event::ChildWorkflowCompleted { child_workflow_id: a0, result: a1, .. },
                Event::ChildWorkflowCompleted { child_workflow_id: b0, result: b1, .. },
            ) => *a0 == *b0 && a1.same(b1),
            (
                Event::ChildWorkflowFailed { child_workflow_id: a0, error: a1, .. },
                Event::ChildWorkflowFailed { child_workflow_id: b0, error: b1, .. },
            ) => *a0 == *b0 && a1.same(b1),
            (
                Event::ChildWorkflowCancelled { child_workflow_id: a0, .. },
                Event::ChildWorkflowCancelled { child_workflow_id: b0, .. },
            ) => *a0 == *b0,
            (
                Event::ScheduleCreated { schedule_id: a0, config: a1, .. },
                Event::ScheduleCreated { schedule_id: b0, config: b1, .. },
            ) => *a0 == *b0 && a1.same(b1),
            (
                Event::ScheduleUpdated { schedule_id: a0, config: a1, .. },
                Event::ScheduleUpdated { schedule_id: b0, config: b1, .. },
            ) => *a0 == *b0 && a1.same(b1),
            (
                Event::SchedulePaused { schedule_id: a0, .. },
                Event::SchedulePaused { schedule_id: b0, .. },
            ) => *a0 == *b0,
            (
                Event::ScheduleResumed { schedule_id: a0, .. },
                Event::ScheduleResumed { schedule_id: b0, .. },
            ) => *a0 == *b0,
            (
                Event::ScheduleDeleted { schedule_id: a0, .. },
                Event::ScheduleDeleted { schedule_id: b0, .. },
            ) => *a0 == *b0,
            (
                Event::ScheduleTriggered { schedule_id: a0, workflow_id: a1, run_id: a2, .. },
                Event::ScheduleTriggered { schedule_id: b0, workflow_id: b1, run_id: b2, .. },
            ) => *a0 == *b0 && *a1 == *b1 && *a2 == *b2,
            _ => false,
        }
    }
}

/// Values of a list of events.
pub open spec fn event_views(events: Seq<Event>) -> Seq<EventView> {
    events.map_values(|event: Event| event@)
}

/// Copies a list of events.
pub fn clone_events(events: &[Event]) -> (copy: Vec<Event>)
    ensures
        event_views(copy@) == event_views(events@),
{
    let mut copy: Vec<Event> = Vec::new();
    let mut i: usize = 0;
    while i < events.len()
        invariant
            i <= events.len(),
            copy.len() == i,
            forall|j: int| 0 <= j < i ==> (#[trigger] copy@[j])@ == events@[j]@,
        decreases events.len() - i,
    {
        copy.push(events[i].clone());
        i += 1;
    }
    assert(event_views(copy@) =~= event_views(events@));
    copy
}

/// Whether two lists hold the same events in the same order.
pub fn same_events(left: &[Event], right: &[Event]) -> (same: bool)
    ensures
        same == (event_views(left@) == event_views(right@)),
{
    if left.len() != right.len() {
        assert(event_views(left@).len() != event_views(right@).len());
        return false;
    }
    let mut i: usize = 0;
    while i < left.len()
        invariant
            i <= left.len(),
            left.len() == right.len(),
            forall|j: int| 0 <= j < i ==> (#[trigger] left@[j])@ == right@[j]@,
        decreases left.len() - i,
    {
        if !left[i].same(&right[i]) {
            assert(event_views(left@)[i as int] != event_views(right@)[i as int]);
            return false;
        }
        i += 1;
    }
    assert(event_views(left@) =~= event_views(right@));
    true
}

} // verus!
