//! The seam between services and the engine.

use vstd::prelude::*;
use vstd::string::*;

use crate::engine::handles::{
    first_place, first_place_is, of_workflow, HandleResidency, HandleView, Registry,
};
use crate::error::{EngineSeamError, EngineSeamErrorView};
use crate::event::Event;
use crate::ids::{Pid, TimerId, TimerIdView, WorkflowId};
use crate::payload::{Payload, PayloadView};
use crate::timestamp::Timestamp;

verus! {

/// Process of a resident workflow.
#[derive(Clone, Copy, Debug, PartialEq, Eq, Structural)]
pub struct WorkflowProcessHandle {
    /// The process.
    pub process: Pid,
}

impl WorkflowProcessHandle {
    /// The handle of a process.
    pub fn new(pid: Pid) -> (handle: Self)
        ensures
            handle.process == pid,
    {
        WorkflowProcessHandle { process: pid }
    }

    /// The process.
    pub fn pid(&self) -> (pid: Pid)
        ensures
            pid == self.process,
    {
        self.process
    }
}

/// Where a workflow is.
#[derive(Clone, Copy, Debug, PartialEq, Eq, Structural)]
pub enum WorkflowResidency {
    /// In memory, in a process.
    Resident(WorkflowProcessHandle),
    /// Known, but not in memory.
    NonResident,
    /// Ended.
    Terminal,
    /// Not known.
    Unknown,
}

/// Where a workflow is, by the live runs: its first registered run decides.
pub open spec fn residency_in(
    handles: Seq<HandleView>,
    workflow_id: WorkflowId,
) -> WorkflowResidency {
    let place = first_place(handles, of_workflow(workflow_id));
    if place >= handles.len() {
        WorkflowResidency::Unknown
    } else if handles[place].residency == HandleResidency::Resident {
        WorkflowResidency::Resident(WorkflowProcessHandle { process: handles[place].pid })
    } else {
        WorkflowResidency::NonResident
    }
}

/// Where a workflow is, by the live runs.
pub fn resolve_in(registry: &Registry, workflow_id: &WorkflowId) -> (residency: WorkflowResidency)
    ensures
        residency == residency_in(registry@, *workflow_id),
{
    match registry.place_of_workflow(workflow_id) {
        Some(place) => {
            let handles = registry.list();
            proof {
                assert(registry@[place as int] == handles@[place as int]@);
            }
            if handles[place].residency == HandleResidency::Resident {
                WorkflowResidency::Resident(WorkflowProcessHandle::new(handles[place].pid))
            } else {
                WorkflowResidency::NonResident
            }
        },
        None => WorkflowResidency::Unknown,
    }
}

/// A message for the mailbox of a workflow process.
#[derive(Debug, PartialEq, Eq)]
pub enum WorkflowMailboxMessage {
    /// A signal arrived.
    SignalReceived {
        /// Name of the signal.
        name: String,
        /// What came with it.
        payload: Payload,
    },
    /// A timer fired.
    TimerFired {
        /// The timer.
        timer_id: TimerId,
        /// When it was to fire.
        fire_at: Timestamp,
    },
    /// A query asks for an answer.
    Query {
        /// Name of the query.
        name: String,
        /// Its arguments.
        payload: Payload,
    },
}

/// Mathematical value of a [`WorkflowMailboxMessage`].
pub enum MailboxMessageView {
    /// A signal arrived.
    SignalReceived {
        /// Name of the signal.
        name: Seq<char>,
        /// What came with it.
        payload: PayloadView,
    },
    /// A timer fired.
    TimerFired {
        /// The timer.
        timer_id: TimerIdView,
        /// When it was to fire.
        fire_at: Timestamp,
    },
    /// A query asks for an answer.
    Query {
        /// Name of the query.
        name: Seq<char>,
        /// Its arguments.
        payload: PayloadView,
    },
}

impl View for WorkflowMailboxMessage {
    type V = MailboxMessageView;

    open spec fn view(&self) -> MailboxMessageView {
        match self {
            WorkflowMailboxMessage::SignalReceived {
                name,
                payload,
            } => MailboxMessageView::SignalReceived { name: name@, payload: payload@ },
            WorkflowMailboxMessage::TimerFired {
                timer_id,
                fire_at,
            } => MailboxMessageView::TimerFired { timer_id: timer_id@, fire_at: *fire_at },
            WorkflowMailboxMessage::Query { name, payload } => MailboxMessageView::Query {
                name: name@,
                payload: payload@,
            },
        }
    }
}

/// A message on its way to a process.
#[derive(Debug, PartialEq, Eq)]
pub struct MailboxDelivery {
    /// The process.
    pub process: WorkflowProcessHandle,
    /// The message.
    pub message: WorkflowMailboxMessage,
}

/// A timer that is to be armed in the live wheel.
#[derive(Debug, PartialEq, Eq)]
pub struct TimerWheelEntry {
    /// Process that waits for the timer.
    pub process: WorkflowProcessHandle,
    /// The timer.
    pub timer_id: TimerId,
    /// When it fires.
    pub fire_at: Timestamp,
}

/// Mathematical value of a [`TimerWheelEntry`].
pub struct TimerWheelEntryView {
    /// Process that waits for the timer.
    pub process: WorkflowProcessHandle,
    /// The timer.
    pub timer_id: TimerIdView,
    /// When it fires.
    pub fire_at: Timestamp,
}

impl View for TimerWheelEntry {
    type V = TimerWheelEntryView;

    open spec fn view(&self) -> TimerWheelEntryView {
        TimerWheelEntryView {
            process: self.process,
            timer_id: self.timer_id@,
            fire_at: self.fire_at,
        }
    }
}

/// What a request over the seam without a result returned.
pub open spec fn seam_outcome(outcome: Result<(), EngineSeamError>) -> Result<
    (),
    EngineSeamErrorView,
> {
    match outcome {
        Ok(()) => Ok(()),
        Err(error) => Err(error@),
    }
}

/// What services ask of an engine. Where its workflows are is open unless it says so.
pub trait EngineHandle {
    /// Where a workflow is, or why that cannot be told.
    open spec fn residency(&self, workflow_id: WorkflowId) -> Result<
        WorkflowResidency,
        EngineSeamErrorView,
    > {
        arbitrary()
    }

    /// Where a workflow is.
    fn resolve_workflow(&self, workflow_id: &WorkflowId) -> (residency: Result<
        WorkflowResidency,
        EngineSeamError,
    >)
        ensures
            match self.residency(*workflow_id) {
                Ok(found) => residency == Ok::<WorkflowResidency, EngineSeamError>(found),
                Err(error) => residency matches Err(e) && e@ == error,
            },
    ;

    /// Starts a child workflow of the given type.
    fn spawn_child_workflow(&self, workflow_type: &str) -> (spawned: Result<Pid, EngineSeamError>);

    /// Terminates a child workflow that is linked to its parent.
    fn terminate_linked_child_workflow(
        &self,
        parent_workflow_id: &WorkflowId,
        child_process: WorkflowProcessHandle,
        correlation: u64,
    ) -> (terminated: Result<(), EngineSeamError>);

    /// Terminates an activity that is linked to its parent.
    fn terminate_linked_activity(
        &self,
        parent_workflow_id: &WorkflowId,
        activity_process: Pid,
        correlation: u64,
    ) -> (terminated: Result<(), EngineSeamError>);

    /// Arms a timer in the live wheel.
    fn arm_timer(&self, entry: TimerWheelEntry) -> (armed: Result<(), EngineSeamError>);

    /// Disarms a timer in the live wheel.
    fn disarm_timer(&self, process: WorkflowProcessHandle, timer_id: &TimerId) -> (disarmed: Result<
        (),
        EngineSeamError,
    >);

    /// Records an event in the history of a workflow.
    fn record_workflow_event(&mut self, workflow_id: &WorkflowId, event: Event) -> (recorded: Result<
        (),
        EngineSeamError,
    >);
}

/// The first live run of a workflow tells where it is: in that run's process, or not in memory while
/// the run is suspended.
pub proof fn first_runs_tell_the_residency(
    handles: Seq<HandleView>,
    workflow_id: WorkflowId,
    place: int,
)
    requires
        0 <= place < handles.len(),
        handles[place].workflow_id == workflow_id,
        forall|i: int| 0 <= i < place ==> (#[trigger] handles[i]).workflow_id != workflow_id,
    ensures
        handles[place].residency is Resident ==> residency_in(handles, workflow_id)
            == WorkflowResidency::Resident(WorkflowProcessHandle { process: handles[place].pid }),
        handles[place].residency is Suspended ==> residency_in(handles, workflow_id)
            == WorkflowResidency::NonResident,
{
    first_place_is(handles, of_workflow(workflow_id), place);
}

/// A workflow without a live run is unknown.
pub proof fn workflows_without_a_live_run_are_unknown(
    handles: Seq<HandleView>,
    workflow_id: WorkflowId,
)
    requires
        forall|i: int|
            0 <= i < handles.len() ==> (#[trigger] handles[i]).workflow_id != workflow_id,
    ensures
        residency_in(handles, workflow_id) == WorkflowResidency::Unknown,
{
    first_place_is(handles, of_workflow(workflow_id), handles.len() as int);
}

} // verus!
