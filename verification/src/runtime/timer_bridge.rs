//! The seam through which timer calls of workflow processes reach the registry and the store.

use vstd::prelude::*;
use vstd::string::*;

use crate::engine::handles::{first_place, first_place_is, of_workflow, HandleView, Registry};
use crate::error::{DurabilityErrorView, EngineSeamError, EngineSeamErrorView, StoreErrorView};
use crate::event::{Event, EventBody, EventView};
use crate::ids::{Pid, TimerId, TimerIdView, WorkflowId};
use crate::recorder::{advanced, grown, record_decision};
use crate::seam::{
    residency_in, resolve_in, seam_outcome, EngineHandle, TimerWheelEntry, WorkflowProcessHandle,
    WorkflowResidency,
};
use crate::store::{EventStore, StoreCall};
use crate::text::joined;
use crate::timestamp::Timestamp;

verus! {

/// The live runs and the store that timer calls work on.
pub struct TimerNifBridge<S> {
    /// Live runs.
    pub registry: Registry,
    /// Event store.
    pub store: S,
}

/// Mathematical value of a [`TimerNifBridge`].
#[verifier::ext_equal]
pub struct BridgeView {
    /// Live runs.
    pub handles: Seq<HandleView>,
    /// Histories of the store.
    pub histories: Map<WorkflowId, Seq<EventView>>,
    /// Timer rows of the store.
    pub timers: Map<(WorkflowId, TimerIdView), Timestamp>,
    /// The requests that the store fails, with their failures.
    pub failures: Map<StoreCall, StoreErrorView>,
}

impl<S: EventStore> View for TimerNifBridge<S> {
    type V = BridgeView;

    open spec fn view(&self) -> BridgeView {
        BridgeView {
            handles: self.registry@,
            histories: self.store.histories(),
            timers: self.store.timers(),
            failures: self.store.failures(),
        }
    }
}

/// What it comes to that the recorder of the live run at a place writes an event.
pub open spec fn recorded_at_place(
    bridge: BridgeView,
    place: int,
    recorded_at: Timestamp,
    body: EventBody,
) -> (BridgeView, Result<(), DurabilityErrorView>) {
    let recorder = bridge.handles[place].recorder;
    let decided = record_decision(recorder, bridge.histories, bridge.failures, recorded_at, body);
    (
        BridgeView {
            handles: bridge.handles.update(
                place,
                HandleView { recorder: advanced(recorder, decided), ..bridge.handles[place] },
            ),
            histories: grown(recorder, bridge.histories, recorded_at, body, decided),
            ..bridge
        },
        decided,
    )
}

/// What recording an event for a workflow comes to: the recorder of the workflow's first live run
/// writes it.
pub open spec fn bridge_recorded(
    bridge: BridgeView,
    workflow_id: WorkflowId,
    recorded_at: Timestamp,
    body: EventBody,
) -> (BridgeView, Result<(), EngineSeamErrorView>) {
    let place = first_place(bridge.handles, of_workflow(workflow_id));
    if place >= bridge.handles.len() {
        (bridge, Err(EngineSeamErrorView::UnknownWorkflow { workflow_id }))
    } else {
        let (after, decided) = recorded_at_place(bridge, place, recorded_at, body);
        (
            after,
            match decided {
                Ok(()) => Ok(()),
                Err(error) => Err(EngineSeamErrorView::Recorder { reason: error.text() }),
            },
        )
    }
}

/// Name of an event in refusals.
pub open spec fn kind_of(body: EventBody) -> Seq<char> {
    match body {
        EventBody::TimerFired { .. } => "TimerFired"@,
        EventBody::TimerCancelled { .. } => "TimerCancelled"@,
        _ => "non-timer"@,
    }
}

/// Name of an event in refusals.
pub fn event_kind(event: &Event) -> (kind: &'static str)
    ensures
        kind@ == kind_of(event@.body),
{
    match event {
        Event::TimerFired { .. } => "TimerFired",
        Event::TimerCancelled { .. } => "TimerCancelled",
        _ => "non-timer",
    }
}

impl<S: EventStore> EngineHandle for TimerNifBridge<S> {
    open spec fn residency(&self, workflow_id: WorkflowId) -> Result<
        WorkflowResidency,
        EngineSeamErrorView,
    > {
        Ok(residency_in(self.registry@, workflow_id))
    }

    fn resolve_workflow(&self, workflow_id: &WorkflowId) -> (residency: Result<
        WorkflowResidency,
        EngineSeamError,
    >) {
        Ok(resolve_in(&self.registry, workflow_id))
    }

    fn spawn_child_workflow(&self, workflow_type: &str) -> (spawned: Result<Pid, EngineSeamError>)
        ensures
            spawned matches Err(e) && e@ == (EngineSeamErrorView::ChildSpawn {
                reason: "timer NIF bridge does not spawn child workflows"@,
            }),
    {
        Err(
            EngineSeamError::ChildSpawn {
                reason: "timer NIF bridge does not spawn child workflows".to_owned(),
            },
        )
    }

    fn terminate_linked_child_workflow(
        &self,
        parent_workflow_id: &WorkflowId,
        child_process: WorkflowProcessHandle,
        correlation: u64,
    ) -> (terminated: Result<(), EngineSeamError>)
        ensures
            seam_outcome(terminated) == Err::<(), EngineSeamErrorView>(
                EngineSeamErrorView::ChildTermination {
                    reason: "timer NIF bridge does not terminate child workflows"@,
                },
            ),
    {
        Err(
            EngineSeamError::ChildTermination {
                reason: "timer NIF bridge does not terminate child workflows".to_owned(),
            },
        )
    }

    fn terminate_linked_activity(
        &self,
        parent_workflow_id: &WorkflowId,
        activity_process: Pid,
        correlation: u64,
    ) -> (terminated: Result<(), EngineSeamError>)
        ensures
            seam_outcome(terminated) == Err::<(), EngineSeamErrorView>(
                EngineSeamErrorView::ChildTermination {
                    reason: "timer NIF bridge does not terminate activities"@,
                },
            ),
    {
        Err(
            EngineSeamError::ChildTermination {
                reason: "timer NIF bridge does not terminate activities".to_owned(),
            },
        )
    }

    /// Nothing to arm: the calling process waits by itself.
    fn arm_timer(&self, entry: TimerWheelEntry) -> (armed: Result<(), EngineSeamError>)
        ensures
            armed == Ok::<(), EngineSeamError>(()),
    {
        Ok(())
    }

    /// Nothing to disarm.
    fn disarm_timer(&self, process: WorkflowProcessHandle, timer_id: &TimerId) -> (disarmed: Result<
        (),
        EngineSeamError,
    >)
        ensures
            disarmed == Ok::<(), EngineSeamError>(()),
    {
        Ok(())
    }

    /// Records that a timer fired or was cancelled; no other event is taken.
    fn record_workflow_event(&mut self, workflow_id: &WorkflowId, event: Event) -> (recorded: Result<
        (),
        EngineSeamError,
    >)
        ensures
            event@.body is TimerFired || event@.body is TimerCancelled ==> (
            final(self)@,
            seam_outcome(recorded),
        ) == bridge_recorded(
                old(self)@,
                *workflow_id,
                event@.envelope.recorded_at,
                event@.body,
            ),
            !(event@.body is TimerFired || event@.body is TimerCancelled) ==> final(self)@
                == old(self)@ && seam_outcome(recorded) == Err::<(), EngineSeamErrorView>(
                EngineSeamErrorView::Recorder {
                    reason: "timer NIF bridge cannot record "@ + kind_of(event@.body),
                },
            ),
    {
        let recorded_at = event.recorded_at();
        let (timer_id, fired) = match event {
            Event::TimerFired { timer_id, .. } => (timer_id, true),
            Event::TimerCancelled { timer_id, .. } => (timer_id, false),
            other => {
                return Err(
                    EngineSeamError::Recorder {
                        reason: joined("timer NIF bridge cannot record ", event_kind(&other)),
                    },
                );
            },
        };
        let place = match self.registry.place_of_workflow(workflow_id) {
            Some(place) => place,
            None => {
                return Err(EngineSeamError::UnknownWorkflow { workflow_id: *workflow_id });
            },
        };
        let outcome = if fired {
            self.registry.record_timer_fired(place, &mut self.store, recorded_at, timer_id)
        } else {
            self.registry.record_timer_cancelled(place, &mut self.store, recorded_at, timer_id)
        };
        match outcome {
            Ok(()) => Ok(()),
            Err(error) => Err(EngineSeamError::Recorder { reason: error.to_string() }),
        }
    }
}

/// An event for a workflow without a live run is refused, and nothing changes.
pub proof fn events_of_unknown_workflows_are_refused(
    bridge: BridgeView,
    workflow_id: WorkflowId,
    recorded_at: Timestamp,
    body: EventBody,
)
    requires
        forall|i: int|
            0 <= i < bridge.handles.len() ==> (#[trigger] bridge.handles[i]).workflow_id
                != workflow_id,
    ensures
        bridge_recorded(bridge, workflow_id, recorded_at, body) == (
            bridge,
            Err::<(), EngineSeamErrorView>(EngineSeamErrorView::UnknownWorkflow { workflow_id }),
        ),
{
    first_place_is(bridge.handles, of_workflow(workflow_id), bridge.handles.len() as int);
}

/// Only the recorder of a workflow's first live run moves on when an event is recorded for the
/// workflow, and it moves by one event: every other run, and everything else of that run, stays as
/// it was.
pub proof fn only_the_first_run_records(
    bridge: BridgeView,
    workflow_id: WorkflowId,
    recorded_at: Timestamp,
    body: EventBody,
    place: int,
    i: int,
)
    requires
        0 <= place < bridge.handles.len(),
        bridge.handles[place].workflow_id == workflow_id,
        forall|j: int|
            0 <= j < place ==> (#[trigger] bridge.handles[j]).workflow_id != workflow_id,
        0 <= i < bridge.handles.len(),
    ensures
        ({
            let (after, outcome) = bridge_recorded(bridge, workflow_id, recorded_at, body);
            let head = bridge.handles[place].recorder.head;
            &&& after.handles.len() == bridge.handles.len()
            &&& i != place ==> after.handles[i] == bridge.handles[i]
            &&& after.handles[place] == (HandleView {
                recorder: after.handles[place].recorder,
                ..bridge.handles[place]
            })
            &&& after.handles[place].recorder.workflow_id
                == bridge.handles[place].recorder.workflow_id
            &&& outcome is Ok ==> after.handles[place].recorder.head == head + 1
            &&& outcome is Err ==> after.handles[place].recorder.head == head && after.histories
                == bridge.histories
            &&& outcome matches Err(error) ==> error is Recorder
            &&& after.timers == bridge.timers
        }),
{
    first_place_is(bridge.handles, of_workflow(workflow_id), place);
}

/// An event is named by its kind where it is about the end of a timer, and as something else otherwise.
pub proof fn events_are_named_by_kind(body: EventBody)
    ensures
        body is TimerFired ==> kind_of(body) == "TimerFired"@,
        body is TimerCancelled ==> kind_of(body) == "TimerCancelled"@,
        !(body is TimerFired) && !(body is TimerCancelled) ==> kind_of(body) == "non-timer"@,
{
}

} // verus!
