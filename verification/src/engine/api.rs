//! The engine: schedules, results, listings and shutdown.
//!
//! Everything that waits is left to the caller. A request that needs it comes back as a step: what
//! the caller has to do, and how it reports what came of it.

use vstd::prelude::*;
use vstd::string::*;

use crate::engine::gate::{gate_after, GateStep, GateView, ShutdownGate};
use crate::engine::handles::{
    first_place, first_place_in_range, first_place_is, of_run, reconciled, resumed, HandleView,
    Registry, SupervisionTree, WorkflowHandle,
};
use crate::engine::outcome::{
    callers_get_what_was_recorded, outcome_to_result, result_of, result_view, run_label,
    run_outcome, run_outcome_from_history, run_text, runs_end_as_recorded, spans_run, speaks_of,
    unknown_runs_have_no_outcome, workflow_not_found, TerminalOutcome, TerminalOutcomeView,
};
use crate::engine::schedules::{
    arms, change_body, coordinator_workflow, described, description_view, existing, kept_by_id,
    no_schedule, schedule_coordinator_workflow_id, schedule_views, ScheduleBook, ScheduleChange, ScheduleState,
    ScheduleStateView,
};
use crate::error::{
    DurabilityErrorView, EngineError, EngineErrorView, EngineSeamError, EngineSeamErrorView,
    StoreErrorView,
};
use crate::event::{Event, EventBody, EventView};
use crate::ids::{Pid, RunId, ScheduleId, TimerId, WorkflowId};
use crate::order::{
    enumerates, in_order, items_of, listing_length, lists, sorted_pairs, without_keys, Keyed,
};
use crate::payload::{Payload, PayloadView, WorkflowError, WorkflowErrorView};
use crate::projection::{
    status_of, summary_of, WorkflowFilter, WorkflowFilterView, WorkflowSummary, WorkflowSummaryView,
};
use crate::recorder::{
    in_step, next_event, record_effect, record_outcome, Recorder, RecorderView,
};
use crate::schedule::ScheduleConfig;
use crate::seam::{
    residency_in, resolve_in, seam_outcome, EngineHandle, MailboxMessageView, TimerWheelEntry,
    WorkflowMailboxMessage, WorkflowProcessHandle, WorkflowResidency,
};
use crate::store::{
    appended, appended_events_are_read_back, contiguous, failing, history_in, selected_summaries,
    workflow_summary_views, EventStore, StoreCall,
};
use crate::table::{
    keys_distinct, pair_map, pair_map_holds, picked, picked_keys_distinct, picked_lists,
    picked_next, Table,
};
use crate::text::joined;
use crate::timestamp::Timestamp;

verus! {

/// Live embedded workflow engine.
pub struct Engine<S, V, L> {
    store: S,
    visibility_store: V,
    loaded_workflows: L,
    schedule_recorder: Recorder,
    schedules: ScheduleBook,
    registry: Registry,
    supervision: SupervisionTree,
    shutdown_gate: ShutdownGate,
}

/// Parts that an engine is made of.
pub struct EngineComponents<S, V, L> {
    /// Event store.
    pub store: S,
    /// Visibility store.
    pub visibility_store: V,
    /// Workflow packages that the runtime has loaded.
    pub loaded_workflows: L,
    /// Live runs.
    pub registry: Registry,
    /// Supervisors.
    pub supervision: SupervisionTree,
}

/// Mathematical value of an [`Engine`].
pub struct EngineView<S, V, L> {
    /// Event store.
    pub store: S,
    /// Visibility store.
    pub visibility_store: V,
    /// Workflow packages that the runtime has loaded.
    pub loaded_workflows: L,
    /// Writer of the schedule coordinator's history.
    pub recorder: RecorderView,
    /// Projected schedules.
    pub schedules: Map<ScheduleId, ScheduleStateView>,
    /// Live runs.
    pub handles: Seq<HandleView>,
    /// Supervisors of workflow types.
    pub supervisors: Seq<(Seq<char>, Seq<Pid>)>,
    /// Gate of the engine's operations.
    pub gate: GateView,
}

impl<S, V, L> View for Engine<S, V, L> {
    type V = EngineView<S, V, L>;

    closed spec fn view(&self) -> EngineView<S, V, L> {
        EngineView {
            store: self.store,
            visibility_store: self.visibility_store,
            loaded_workflows: self.loaded_workflows,
            recorder: self.schedule_recorder@,
            schedules: self.schedules@,
            handles: self.registry@,
            supervisors: self.supervision@,
            gate: self.shutdown_gate@,
        }
    }
}

/// Mathematical value of an operation's result.
pub open spec fn engine_outcome(outcome: Result<(), EngineError>) -> Result<(), EngineErrorView> {
    match outcome {
        Ok(()) => Ok(()),
        Err(error) => Err(error@),
    }
}

/// What happens while a caller waits for a run.
#[derive(Debug, PartialEq, Eq)]
pub enum ResultEvent {
    /// The result was asked for.
    Asked,
    /// The runtime said how the process ended, or failed to.
    ProcessEnded(Result<Result<Payload, WorkflowError>, EngineError>),
    /// The run was terminated with the process's outcome, or could not be.
    Terminated(Result<(), EngineError>),
    /// The completion channel holds an outcome, or none yet.
    Notified(Option<TerminalOutcome>),
    /// The completion channel was closed.
    ChannelClosed,
}

/// What a caller that waits for a run does next.
#[derive(Debug, PartialEq, Eq)]
pub enum ResultStep {
    /// Return this.
    Done(Result<Payload, WorkflowError>),
    /// Ask the runtime how the process ended.
    AskRuntime {
        /// The process.
        pid: Pid,
    },
    /// Terminate the run with this result.
    Complete(Payload),
    /// Terminate the run with this failure.
    Fail(WorkflowError),
    /// Wait for the completion channel.
    AwaitCompletion,
}

/// Mathematical value of a [`ResultStep`].
pub enum ResultStepView {
    /// Return this.
    Done(Result<PayloadView, WorkflowErrorView>),
    /// Ask the runtime how the process ended.
    AskRuntime {
        /// The process.
        pid: Pid,
    },
    /// Terminate the run with this result.
    Complete(PayloadView),
    /// Terminate the run with this failure.
    Fail(WorkflowErrorView),
    /// Wait for the completion channel.
    AwaitCompletion,
}

impl View for ResultStep {
    type V = ResultStepView;

    open spec fn view(&self) -> ResultStepView {
        match *self {
            ResultStep::Done(result) => ResultStepView::Done(result_view(result)),
            ResultStep::AskRuntime { pid } => ResultStepView::AskRuntime { pid },
            ResultStep::Complete(payload) => ResultStepView::Complete(payload@),
            ResultStep::Fail(error) => ResultStepView::Fail(error@),
            ResultStep::AwaitCompletion => ResultStepView::AwaitCompletion,
        }
    }
}

/// What the history and the live runs say of a run: its result, once it ended; where it has not,
/// whether it is live.
pub open spec fn looked_up<S: EventStore, V, L>(
    engine: EngineView<S, V, L>,
    id: WorkflowId,
    run: RunId,
) -> Result<Result<Result<PayloadView, WorkflowErrorView>, HandleView>, EngineErrorView> {
    match failing(engine.store.failures(), StoreCall::ReadHistory { workflow_id: id }) {
        Some(error) => Err(EngineErrorView::Store(error)),
        None => match run_outcome(history_in(engine.store.histories(), id), run) {
            Some(outcome) => Ok(Ok(result_of(outcome))),
            None => {
                let place = first_place(engine.handles, of_run(id, run));
                if place < engine.handles.len() {
                    Ok(Err(engine.handles[place]))
                } else {
                    Err(EngineErrorView::WorkflowNotFound { workflow_type: run_text(id, run) })
                }
            },
        },
    }
}

/// What a caller that waits for a run does next.
pub open spec fn result_step<S: EventStore, V, L>(
    engine: EngineView<S, V, L>,
    id: WorkflowId,
    run: RunId,
    event: ResultEvent,
) -> Result<ResultStepView, EngineErrorView> {
    match event {
        ResultEvent::Asked => match looked_up(engine, id, run) {
            Ok(Ok(result)) => Ok(ResultStepView::Done(result)),
            Ok(Err(handle)) => Ok(ResultStepView::AskRuntime { pid: handle.pid }),
            Err(error) => Err(error),
        },
        ResultEvent::ProcessEnded(Ok(Ok(payload))) => Ok(ResultStepView::Complete(payload@)),
        ResultEvent::ProcessEnded(Ok(Err(error))) => Ok(ResultStepView::Fail(error@)),
        ResultEvent::ProcessEnded(Err(error)) => Err(error@),
        ResultEvent::Terminated(Err(error)) => Err(error@),
        ResultEvent::Terminated(Ok(())) => match looked_up(engine, id, run) {
            Ok(Ok(result)) => Ok(ResultStepView::Done(result)),
            Ok(Err(_)) => Ok(ResultStepView::AwaitCompletion),
            Err(error) => Err(error),
        },
        ResultEvent::Notified(Some(outcome)) => Ok(ResultStepView::Done(result_of(outcome@))),
        ResultEvent::Notified(None) => Ok(ResultStepView::AwaitCompletion),
        ResultEvent::ChannelClosed => match failing(
            engine.store.failures(),
            StoreCall::ReadHistory { workflow_id: id },
        ) {
            Some(error) => Err(EngineErrorView::Store(error)),
            None => match run_outcome(history_in(engine.store.histories(), id), run) {
                Some(outcome) => Ok(ResultStepView::Done(result_of(outcome))),
                None => Err(
                    EngineErrorView::Runtime {
                        reason: "completion channel closed before workflow `"@ + run_text(id, run)
                            + "` finished"@,
                    },
                ),
            },
        },
    }
}

/// An operation on a live run: a run that is not live is not found, and nothing changes; otherwise
/// the operation is let in, and its end is that of the work.
pub open spec fn passed_on_live_run<S: EventStore, V, L, Q, T>(
    before: EngineView<S, V, L>,
    after: EngineView<S, V, L>,
    id: WorkflowId,
    run: RunId,
    event: OperationEvent<Q, T>,
    step: Result<OperationStep<Q, T>, EngineError>,
) -> bool {
    if event is Asked && first_place(before.handles, of_run(id, run)) >= before.handles.len() {
        &&& step matches Err(error) && error@ == (EngineErrorView::WorkflowNotFound {
            workflow_type: run_text(id, run),
        })
        &&& after == before
    } else {
        &&& step == operation_step(false, event)
        &&& after == (EngineView {
            gate: operation_gate(before.gate, GateStep::Operation, event),
            ..before
        })
    }
}

/// What recording for the schedule coordinator and then projecting a schedule returns.
pub open spec fn kept_schedule(
    decided: Result<(), DurabilityErrorView>,
    projected: Result<ScheduleState, EngineError>,
) -> Result<(), EngineErrorView> {
    match decided {
        Err(error) => Err(EngineErrorView::Durability(error)),
        Ok(()) => match projected {
            Ok(_) => Ok(()),
            Err(error) => Err(error@),
        },
    }
}

/// The effect of recording a schedule event and keeping the projected state. Where both succeed and
/// the schedule is to be armed, the operation stays under way.
pub open spec fn schedule_effect<S: EventStore, V, L>(
    before: EngineView<S, V, L>,
    after: EngineView<S, V, L>,
    recorded_at: Timestamp,
    body: EventBody,
    projected: Result<ScheduleState, EngineError>,
    kept: ScheduleStateView,
    arming: bool,
) -> bool {
    let outcome = kept_schedule(
        record_outcome(before.recorder, before.store, recorded_at, body),
        projected,
    );
    &&& record_effect(
        before.recorder,
        after.recorder,
        before.store,
        after.store,
        recorded_at,
        body,
    )
    &&& after.schedules == (if outcome is Ok {
        before.schedules.insert(kept.schedule_id, kept)
    } else {
        before.schedules
    })
    &&& after.gate == (if outcome is Ok && arming {
        gate_after(before.gate, GateStep::Operation)
    } else {
        before.gate
    })
    &&& after.handles == before.handles
    &&& after.supervisors == before.supervisors
    &&& after.visibility_store == before.visibility_store
    &&& after.loaded_workflows == before.loaded_workflows
}

/// What changing a schedule returns: a schedule that does not exist is refused, then the change is
/// recorded, and then the projected state is kept.
pub open spec fn change_result<S: EventStore, V, L>(
    engine: EngineView<S, V, L>,
    recorded_at: Timestamp,
    schedule_id: ScheduleId,
    change: ScheduleChange,
    projected: Result<ScheduleState, EngineError>,
) -> Result<(), EngineErrorView> {
    if !existing(engine.schedules).contains_key(schedule_id) {
        Err(no_schedule(schedule_id))
    } else {
        kept_schedule(
            record_outcome(
                engine.recorder,
                engine.store,
                recorded_at,
                change_body(change, schedule_id),
            ),
            projected,
        )
    }
}

/// A schedule was changed: what was returned, and the effect.
pub open spec fn changed<S: EventStore, V, L>(
    before: EngineView<S, V, L>,
    after: EngineView<S, V, L>,
    recorded_at: Timestamp,
    schedule_id: ScheduleId,
    change: ScheduleChange,
    projected: Result<ScheduleState, EngineError>,
    outcome: Result<(), EngineError>,
) -> bool {
    &&& engine_outcome(outcome) == change_result(
        before,
        recorded_at,
        schedule_id,
        change,
        projected,
    )
    &&& if existing(before.schedules).contains_key(schedule_id) {
        schedule_effect(
            before,
            after,
            recorded_at,
            change_body(change, schedule_id),
            projected,
            projected->Ok_0@.behind(schedule_id, change),
            arms(change),
        )
    } else {
        after == before
    }
}

/// A workflow to start.
#[derive(Debug, PartialEq, Eq)]
pub struct StartWorkflowRequest {
    /// Type of the workflow.
    pub workflow_type: String,
    /// Its input.
    pub input: Payload,
}

/// The run that goes on behind a run.
#[derive(Debug, PartialEq, Eq)]
pub struct ContinueAsNewRequest {
    /// Its input.
    pub input: Payload,
    /// Its type, where that changes.
    pub workflow_type: Option<String>,
}

/// A schedule timer that fired.
#[derive(Debug, PartialEq, Eq)]
pub struct ScheduleTimerFired {
    /// The schedule.
    pub schedule_id: ScheduleId,
    /// When it was due.
    pub fire_at: Timestamp,
}

/// What happened in an operation whose work is done outside.
#[derive(Debug, PartialEq, Eq)]
pub enum OperationEvent<Q, T> {
    /// The operation was asked for.
    Asked(Q),
    /// Its work ended.
    Ended(Result<T, EngineError>),
}

/// What an operation whose work is done outside has to do next.
#[derive(Debug, PartialEq, Eq)]
pub enum OperationStep<Q, T> {
    /// Do the work that was asked for.
    Run(Q),
    /// Hand out the result.
    Done(T),
}

/// What an operation returns for an event: a refused one is not run, the work is what was asked for,
/// and decides the rest.
pub open spec fn operation_step<Q, T>(refused: bool, event: OperationEvent<Q, T>) -> Result<
    OperationStep<Q, T>,
    EngineError,
> {
    match event {
        OperationEvent::Asked(request) => if refused {
            Err(EngineError::ShuttingDown)
        } else {
            Ok(OperationStep::Run(request))
        },
        OperationEvent::Ended(Ok(value)) => Ok(OperationStep::Done(value)),
        OperationEvent::Ended(Err(error)) => Err(error),
    }
}

/// The shutdown gate after an event of an operation that passes it with `entry`.
pub open spec fn operation_gate<Q, T>(
    gate: GateView,
    entry: GateStep,
    event: OperationEvent<Q, T>,
) -> GateView {
    match event {
        OperationEvent::Asked(_) => gate_after(gate, entry),
        OperationEvent::Ended(_) => gate_after(gate, GateStep::Finish),
    }
}

/// The schedules after several states were kept, one after the other.
pub open spec fn kept_all(
    schedules: Map<ScheduleId, ScheduleStateView>,
    states: Seq<ScheduleState>,
) -> Map<ScheduleId, ScheduleStateView>
    decreases states.len(),
{
    if states.len() == 0 {
        schedules
    } else {
        kept_all(schedules, states.drop_last()).insert(states.last().schedule_id, states.last()@)
    }
}

/// The writer of the schedule coordinator's history behind a catch-up: it goes on behind what is
/// stored, and stays as it is where nothing is.
pub open spec fn caught_up(
    recorder: RecorderView,
    histories: Map<WorkflowId, Seq<EventView>>,
) -> RecorderView {
    let history = history_in(histories, coordinator_workflow());
    if history.len() > 0 {
        RecorderView {
            workflow_id: coordinator_workflow(),
            head: history.len() as u64,
            run: None,
        }
    } else {
        recorder
    }
}

impl<S: EventStore, V, L> Engine<S, V, L> {
    /// An engine made of the given parts, with an open gate and no schedules.
    pub fn new(components: EngineComponents<S, V, L>) -> (engine: Self)
        ensures
            engine@ == (EngineView {
                store: components.store,
                visibility_store: components.visibility_store,
                loaded_workflows: components.loaded_workflows,
                recorder: RecorderView {
                    workflow_id: coordinator_workflow(),
                    head: 0,
                    run: None,
                },
                schedules: Map::empty(),
                handles: components.registry@,
                supervisors: components.supervision@,
                gate: GateView { shutting_down: false, active: 0 },
            }),
    {
        Engine {
            store: components.store,
            visibility_store: components.visibility_store,
            loaded_workflows: components.loaded_workflows,
            schedule_recorder: Recorder::new(schedule_coordinator_workflow_id()),
            schedules: ScheduleBook::new(),
            registry: components.registry,
            supervision: components.supervision,
            shutdown_gate: ShutdownGate::new(),
        }
    }

    /// Brings the writer of the schedule coordinator's history in step with what is stored, so that
    /// a rebuilt engine goes on behind it.
    pub fn catchup_schedule_coordinator(&mut self) -> (outcome: Result<(), EngineError>)
        ensures
            match failing(
                old(self)@.store.failures(),
                StoreCall::ReadHistory { workflow_id: coordinator_workflow() },
            ) {
                Some(error) => outcome matches Err(e) && e@ == EngineErrorView::Store(error)
                    && final(self)@ == old(self)@,
                None => outcome is Ok && final(self)@ == (EngineView {
                    recorder: caught_up(old(self)@.recorder, old(self)@.store.histories()),
                    ..old(self)@
                }),
            },
    {
        let history = match self.store.read_history(&schedule_coordinator_workflow_id()) {
            Ok(history) => history,
            Err(error) => {
                return Err(EngineError::Store(error));
            },
        };
        if history.len() > 0 {
            self.schedule_recorder = Recorder::resume_at(
                schedule_coordinator_workflow_id(),
                history.len() as u64,
            );
        }
        Ok(())
    }

    /// Event store.
    pub fn store(&self) -> (store: &S)
        ensures
            *store == self@.store,
    {
        &self.store
    }

    /// Workflow packages that the runtime has loaded.
    pub fn loaded_workflows(&self) -> (loaded: &L)
        ensures
            *loaded == self@.loaded_workflows,
    {
        &self.loaded_workflows
    }

    /// Visibility store.
    pub fn visibility_store(&self) -> (store: &V)
        ensures
            *store == self@.visibility_store,
    {
        &self.visibility_store
    }

    /// Live runs.
    pub fn registry(&self) -> (registry: &Registry)
        ensures
            registry@ == self@.handles,
    {
        &self.registry
    }

    /// Supervisors.
    pub fn supervision(&self) -> (supervision: &SupervisionTree)
        ensures
            supervision@ == self@.supervisors,
    {
        &self.supervision
    }

    /// Workflow whose history holds the durable schedule events.
    pub fn schedule_coordinator_workflow_id(&self) -> (id: WorkflowId)
        ensures
            id == coordinator_workflow(),
    {
        schedule_coordinator_workflow_id()
    }

    /// Lets a start pass, unless the engine is shutting down.
    pub fn begin_start(&mut self) -> (passed: Result<(), EngineError>)
        requires
            old(self)@.gate.active < usize::MAX,
        ensures
            final(self)@ == (EngineView {
                gate: gate_after(old(self)@.gate, GateStep::Start),
                ..old(self)@
            }),
            passed == (if old(self)@.gate.shutting_down {
                Err::<(), EngineError>(EngineError::ShuttingDown)
            } else {
                Ok::<(), EngineError>(())
            }),
    {
        self.shutdown_gate.begin_start()
    }

    /// Lets an operation on existing work pass.
    pub fn begin_operation(&mut self)
        requires
            old(self)@.gate.active < usize::MAX,
        ensures
            final(self)@ == (EngineView {
                gate: gate_after(old(self)@.gate, GateStep::Operation),
                ..old(self)@
            }),
    {
        self.shutdown_gate.begin_operation()
    }

    /// Ends an operation; returns whether none is under way any more.
    pub fn finish_operation(&mut self) -> (idle: bool)
        ensures
            final(self)@ == (EngineView {
                gate: gate_after(old(self)@.gate, GateStep::Finish),
                ..old(self)@
            }),
            idle == (final(self)@.gate.active == 0),
    {
        self.shutdown_gate.finish_operation()
    }

    /// Stops accepting new starts; returns whether the runtime can be shut down right away, or
    /// operations have to end first.
    pub fn shutdown(&mut self) -> (idle: bool)
        ensures
            final(self)@ == (EngineView {
                gate: gate_after(old(self)@.gate, GateStep::Close),
                ..old(self)@
            }),
            idle == (final(self)@.gate.active == 0),
    {
        self.shutdown_gate.close()
    }

    /// Starts a workflow: refused while shutting down, and otherwise decided by the work.
    pub fn start_workflow<T>(
        &mut self,
        event: OperationEvent<StartWorkflowRequest, T>,
    ) -> (step: Result<OperationStep<StartWorkflowRequest, T>, EngineError>)
        requires
            old(self)@.gate.active < usize::MAX,
        ensures
            step == operation_step(old(self)@.gate.shutting_down, event),
            final(self)@ == (EngineView {
                gate: operation_gate(old(self)@.gate, GateStep::Start, event),
                ..old(self)@
            }),
    {
        match event {
            OperationEvent::Asked(request) => match self.shutdown_gate.begin_start() {
                Ok(()) => Ok(OperationStep::Run(request)),
                Err(error) => Err(error),
            },
            OperationEvent::Ended(result) => self.end_operation(result),
        }
    }

    fn end_operation<Q, T>(&mut self, result: Result<T, EngineError>) -> (step: Result<
        OperationStep<Q, T>,
        EngineError,
    >)
        ensures
            step == operation_step(false, OperationEvent::<Q, T>::Ended(result)),
            final(self)@ == (EngineView {
                gate: gate_after(old(self)@.gate, GateStep::Finish),
                ..old(self)@
            }),
    {
        let _ = self.shutdown_gate.finish_operation();
        match result {
            Ok(value) => Ok(OperationStep::Done(value)),
            Err(error) => Err(error),
        }
    }

    fn pass_operation<Q, T>(&mut self, event: OperationEvent<Q, T>) -> (step: Result<
        OperationStep<Q, T>,
        EngineError,
    >)
        requires
            old(self)@.gate.active < usize::MAX,
        ensures
            step == operation_step(false, event),
            final(self)@ == (EngineView {
                gate: operation_gate(old(self)@.gate, GateStep::Operation, event),
                ..old(self)@
            }),
    {
        match event {
            OperationEvent::Asked(request) => {
                self.shutdown_gate.begin_operation();
                Ok(OperationStep::Run(request))
            },
            OperationEvent::Ended(result) => self.end_operation(result),
        }
    }

    fn pass_on_live_run<Q, T>(
        &mut self,
        id: &WorkflowId,
        run: &RunId,
        event: OperationEvent<Q, T>,
    ) -> (step: Result<OperationStep<Q, T>, EngineError>)
        requires
            old(self)@.gate.active < usize::MAX,
        ensures
            passed_on_live_run(old(self)@, final(self)@, *id, *run, event, step),
    {
        let refused = match &event {
            OperationEvent::Asked(_) => self.registry.get(id, run).is_none(),
            OperationEvent::Ended(_) => false,
        };
        if refused {
            return Err(workflow_not_found(id, run));
        }
        self.pass_operation(event)
    }

    /// Cancels a live run, for a reason: a run that is not live is not found; otherwise decided by the work, also
    /// while shutting down.
    pub fn cancel<T>(
        &mut self,
        id: &WorkflowId,
        run: &RunId,
        event: OperationEvent<String, T>,
    ) -> (step: Result<OperationStep<String, T>, EngineError>)
        requires
            old(self)@.gate.active < usize::MAX,
        ensures
            passed_on_live_run(old(self)@, final(self)@, *id, *run, event, step),
    {
        self.pass_on_live_run(id, run, event)
    }

    /// Continues a live run as a new one: a run that is not live is not found; otherwise decided by
    /// the work, also while shutting down.
    pub fn continue_as_new<T>(
        &mut self,
        id: &WorkflowId,
        run: &RunId,
        event: OperationEvent<ContinueAsNewRequest, T>,
    ) -> (step: Result<OperationStep<ContinueAsNewRequest, T>, EngineError>)
        requires
            old(self)@.gate.active < usize::MAX,
        ensures
            passed_on_live_run(old(self)@, final(self)@, *id, *run, event, step),
    {
        self.pass_on_live_run(id, run, event)
    }

    /// Evaluates a schedule whose timer fired: decided by the work, also while shutting down.
    pub fn handle_schedule_timer_fired<T>(
        &mut self,
        event: OperationEvent<ScheduleTimerFired, T>,
    ) -> (step: Result<OperationStep<ScheduleTimerFired, T>, EngineError>)
        requires
            old(self)@.gate.active < usize::MAX,
        ensures
            step == operation_step(false, event),
            final(self)@ == (EngineView {
                gate: operation_gate(old(self)@.gate, GateStep::Operation, event),
                ..old(self)@
            }),
    {
        self.pass_operation(event)
    }

    /// Makes a suspended run resident. Deferred signals are flushed by the caller, and a failure to
    /// deliver one does not undo the resumption.
    pub fn resume_workflow(&mut self, id: &WorkflowId, run: &RunId) -> (handle: Result<
        &WorkflowHandle,
        EngineError,
    >)
        ensures
            final(self)@ == (EngineView {
                handles: resumed(old(self)@.handles, *id, *run),
                ..old(self)@
            }),
            ({
                let place = first_place(old(self)@.handles, of_run(*id, *run));
                if place < old(self)@.handles.len() {
                    handle matches Ok(h) && h@ == resumed(old(self)@.handles, *id, *run)[place]
                } else {
                    handle matches Err(e) && e@ == (EngineErrorView::WorkflowNotFound {
                        workflow_type: run_text(*id, *run),
                    })
                }
            }),
    {
        match self.registry.resume(id, run) {
            Some(handle) => Ok(handle),
            None => Err(workflow_not_found(id, run)),
        }
    }

    /// Keeps the schedule states that were recovered from the coordinator's history.
    pub fn recover_schedules_on_startup(
        &mut self,
        recovered: Result<Vec<ScheduleState>, EngineError>,
    ) -> (outcome: Result<(), EngineError>)
        ensures
            match recovered {
                Ok(states) => outcome is Ok && final(self)@ == (EngineView {
                    schedules: kept_all(old(self)@.schedules, states@),
                    ..old(self)@
                }),
                Err(error) => outcome == Err::<(), EngineError>(error) && final(self)@
                    == old(self)@,
            },
    {
        let states = match recovered {
            Ok(states) => states,
            Err(error) => {
                return Err(error);
            },
        };
        let ghost before = self@;
        let mut i: usize = 0;
        assert(states@.take(0) =~= Seq::empty());
        while i < states.len()
            invariant
                i <= states.len(),
                self@ == (EngineView {
                    schedules: kept_all(before.schedules, states@.take(i as int)),
                    ..before
                }),
            decreases states.len() - i,
        {
            assert(states@.take(i + 1).drop_last() =~= states@.take(i as int));
            let state = states[i].clone();
            assert(state.schedule_id == states@[i as int]@.schedule_id);
            self.schedules.upsert_state(state);
            i += 1;
        }
        assert(states@.take(i as int) =~= states@);
        Ok(())
    }

    /// Creates a durable schedule. `projected` is the state that the configuration projects at the
    /// given time. On success the operation stays under way until the caller has armed the schedule.
    pub fn create_schedule(
        &mut self,
        recorded_at: Timestamp,
        schedule_id: ScheduleId,
        config: ScheduleConfig,
        projected: Result<ScheduleState, EngineError>,
    ) -> (created: Result<ScheduleId, EngineError>)
        requires
            old(self)@.gate.active < usize::MAX,
        ensures
            old(self)@.gate.shutting_down ==> created == Err::<ScheduleId, EngineError>(
                EngineError::ShuttingDown,
            ) && final(self)@ == old(self)@,
            !old(self)@.gate.shutting_down ==> {
                let body = EventBody::ScheduleCreated { schedule_id, config: config@ };
                &&& match kept_schedule(
                    record_outcome(old(self)@.recorder, old(self)@.store, recorded_at, body),
                    projected,
                ) {
                    Ok(()) => created == Ok::<ScheduleId, EngineError>(schedule_id),
                    Err(error) => created matches Err(e) && e@ == error,
                }
                &&& schedule_effect(
                    old(self)@,
                    final(self)@,
                    recorded_at,
                    body,
                    projected,
                    ScheduleStateView { schedule_id, ..projected->Ok_0@ },
                    true,
                )
            },
    {
        match self.shutdown_gate.begin_start() {
            Ok(()) => {},
            Err(error) => {
                return Err(error);
            },
        }
        match self.schedule_recorder.record_schedule_created(
            &mut self.store,
            recorded_at,
            schedule_id,
            config,
        ) {
            Ok(()) => {},
            Err(error) => {
                let _ = self.shutdown_gate.finish_operation();
                return Err(EngineError::Durability(error));
            },
        }
        match projected {
            Ok(state) => {
                self.schedules.upsert_state(ScheduleState { schedule_id, ..state });
                Ok(schedule_id)
            },
            Err(error) => {
                let _ = self.shutdown_gate.finish_operation();
                Err(error)
            },
        }
    }

    fn change_schedule(
        &mut self,
        recorded_at: Timestamp,
        schedule_id: &ScheduleId,
        change: ScheduleChange,
        projected: Result<ScheduleState, EngineError>,
    ) -> (outcome: Result<(), EngineError>)
        requires
            old(self)@.gate.active < usize::MAX,
        ensures
            changed(
                old(self)@,
                final(self)@,
                recorded_at,
                *schedule_id,
                change,
                projected,
                outcome,
            ),
    {
        self.shutdown_gate.begin_operation();
        match self.schedules.ensure_schedule_exists(schedule_id) {
            Ok(()) => {},
            Err(error) => {
                let _ = self.shutdown_gate.finish_operation();
                return Err(error);
            },
        }
        let arming = change.arms_schedule();
        let pausing = matches!(change, ScheduleChange::Pause);
        let resuming = matches!(change, ScheduleChange::Resume);
        let deleting = matches!(change, ScheduleChange::Delete);
        let recorded = match change {
            ScheduleChange::Update(config) => self.schedule_recorder.record_schedule_updated(
                &mut self.store,
                recorded_at,
                *schedule_id,
                config,
            ),
            ScheduleChange::Pause => self.schedule_recorder.record_schedule_paused(
                &mut self.store,
                recorded_at,
                *schedule_id,
            ),
            ScheduleChange::Resume => self.schedule_recorder.record_schedule_resumed(
                &mut self.store,
                recorded_at,
                *schedule_id,
            ),
            ScheduleChange::Delete => self.schedule_recorder.record_schedule_deleted(
                &mut self.store,
                recorded_at,
                *schedule_id,
            ),
        };
        match recorded {
            Ok(()) => {},
            Err(error) => {
                let _ = self.shutdown_gate.finish_operation();
                return Err(EngineError::Durability(error));
            },
        }
        match projected {
            Ok(state) => {
                self.schedules.upsert_state(
                    ScheduleState {
                        schedule_id: *schedule_id,
                        is_paused: pausing || (state.is_paused && !resuming),
                        is_deleted: deleting || state.is_deleted,
                        ..state
                    },
                );
                if !arming {
                    let _ = self.shutdown_gate.finish_operation();
                }
                Ok(())
            },
            Err(error) => {
                let _ = self.shutdown_gate.finish_operation();
                Err(error)
            },
        }
    }

    /// Gives an existing schedule another configuration. On success the operation stays under way until
    /// the caller has armed the schedule.
    pub fn update_schedule(
        &mut self,
        recorded_at: Timestamp,
        schedule_id: &ScheduleId,
        config: ScheduleConfig,
        projected: Result<ScheduleState, EngineError>,
    ) -> (outcome: Result<(), EngineError>)
        requires
            old(self)@.gate.active < usize::MAX,
        ensures
            changed(
                old(self)@,
                final(self)@,
                recorded_at,
                *schedule_id,
                ScheduleChange::Update(config),
                projected,
                outcome,
            ),
    {
        self.change_schedule(recorded_at, schedule_id, ScheduleChange::Update(config), projected)
    }

    /// Pauses an existing schedule.
    pub fn pause_schedule(
        &mut self,
        recorded_at: Timestamp,
        schedule_id: &ScheduleId,
        projected: Result<ScheduleState, EngineError>,
    ) -> (outcome: Result<(), EngineError>)
        requires
            old(self)@.gate.active < usize::MAX,
        ensures
            changed(
                old(self)@,
                final(self)@,
                recorded_at,
                *schedule_id,
                ScheduleChange::Pause,
                projected,
                outcome,
            ),
    {
        self.change_schedule(recorded_at, schedule_id, ScheduleChange::Pause, projected)
    }

    /// Resumes an existing schedule. On success the operation stays under way until the caller has armed
    /// the schedule.
    pub fn resume_schedule(
        &mut self,
        recorded_at: Timestamp,
        schedule_id: &ScheduleId,
        projected: Result<ScheduleState, EngineError>,
    ) -> (outcome: Result<(), EngineError>)
        requires
            old(self)@.gate.active < usize::MAX,
        ensures
            changed(
                old(self)@,
                final(self)@,
                recorded_at,
                *schedule_id,
                ScheduleChange::Resume,
                projected,
                outcome,
            ),
    {
        self.change_schedule(recorded_at, schedule_id, ScheduleChange::Resume, projected)
    }

    /// Deletes an existing schedule, so that it is no longer listed or armed.
    pub fn delete_schedule(
        &mut self,
        recorded_at: Timestamp,
        schedule_id: &ScheduleId,
        projected: Result<ScheduleState, EngineError>,
    ) -> (outcome: Result<(), EngineError>)
        requires
            old(self)@.gate.active < usize::MAX,
        ensures
            changed(
                old(self)@,
                final(self)@,
                recorded_at,
                *schedule_id,
                ScheduleChange::Delete,
                projected,
                outcome,
            ),
    {
        self.change_schedule(recorded_at, schedule_id, ScheduleChange::Delete, projected)
    }

    /// The existing schedules: by their next trigger, then by the text of their identifiers. Each is
    /// kept under its own identifier.
    pub fn list_schedules(&self) -> (schedules: Vec<ScheduleState>)
        ensures
            lists(schedule_views(schedules@), existing(self@.schedules)),
            in_order(schedules@),
            kept_by_id(self@.schedules),
    {
        self.schedules.list_schedules()
    }

    /// One existing schedule.
    pub fn describe_schedule(&self, schedule_id: &ScheduleId) -> (state: Result<
        ScheduleState,
        EngineError,
    >)
        ensures
            description_view(state) == described(self@.schedules, *schedule_id),
            kept_by_id(self@.schedules),
    {
        self.schedules.describe_schedule(schedule_id)
    }

    fn recorded_result(&self, id: &WorkflowId, run: &RunId) -> (result: Result<
        Option<Result<Payload, WorkflowError>>,
        EngineError,
    >)
        ensures
            match failing(
                self@.store.failures(),
                StoreCall::ReadHistory { workflow_id: *id },
            ) {
                Some(error) => result matches Err(e) && e@ == EngineErrorView::Store(error),
                None => match run_outcome(history_in(self@.store.histories(), *id), *run) {
                    Some(outcome) => result matches Ok(Some(r)) && result_view(r) == result_of(
                        outcome,
                    ),
                    None => result matches Ok(None),
                },
            },
    {
        match self.store.read_history(id) {
            Ok(history) => match run_outcome_from_history(history.as_slice(), run) {
                Some(outcome) => Ok(Some(outcome_to_result(outcome))),
                None => Ok(None),
            },
            Err(error) => Err(EngineError::Store(error)),
        }
    }

    /// The next step of a caller that waits for the result of a run. A run that ended answers right
    /// away; a live one is waited for; any other is not found.
    pub fn result(&self, id: &WorkflowId, run: &RunId, event: ResultEvent) -> (step: Result<
        ResultStep,
        EngineError,
    >)
        ensures
            match result_step(self@, *id, *run, event) {
                Ok(view) => step matches Ok(s) && s@ == view,
                Err(error) => step matches Err(e) && e@ == error,
            },
    {
        let asked = match event {
            ResultEvent::Asked => true,
            ResultEvent::ProcessEnded(Ok(Ok(payload))) => {
                return Ok(ResultStep::Complete(payload));
            },
            ResultEvent::ProcessEnded(Ok(Err(error))) => {
                return Ok(ResultStep::Fail(error));
            },
            ResultEvent::ProcessEnded(Err(error)) => {
                return Err(error);
            },
            ResultEvent::Terminated(Err(error)) => {
                return Err(error);
            },
            ResultEvent::Terminated(Ok(())) => false,
            ResultEvent::Notified(Some(outcome)) => {
                return Ok(ResultStep::Done(outcome_to_result(outcome)));
            },
            ResultEvent::Notified(None) => {
                return Ok(ResultStep::AwaitCompletion);
            },
            ResultEvent::ChannelClosed => {
                return match self.recorded_result(id, run) {
                    Ok(Some(result)) => Ok(ResultStep::Done(result)),
                    Ok(None) => {
                        let mut reason = joined(
                            "completion channel closed before workflow `",
                            run_label(id, run).as_str(),
                        );
                        reason.append("` finished");
                        Err(EngineError::Runtime { reason })
                    },
                    Err(error) => Err(error),
                };
            },
        };
        match self.recorded_result(id, run) {
            Ok(Some(result)) => {
                return Ok(ResultStep::Done(result));
            },
            Ok(None) => {},
            Err(error) => {
                return Err(error);
            },
        }
        match self.registry.get(id, run) {
            Some(handle) => {
                if asked {
                    Ok(ResultStep::AskRuntime { pid: handle.pid })
                } else {
                    Ok(ResultStep::AwaitCompletion)
                }
            },
            None => Err(workflow_not_found(id, run)),
        }
    }

    /// Summaries of the stored and the live workflows that match the filter. Stored projections
    /// count; live runs are projected from their histories and merged, so that no workflow is listed
    /// twice.
    pub fn list_workflows(&mut self, filter: &WorkflowFilter) -> (listed: Result<
        Vec<WorkflowSummary>,
        EngineError,
    >)
        ensures
            match failing(old(self)@.store.failures(), StoreCall::Query { filter: filter@ }) {
                Some(error) => listed matches Err(e) && e@ == EngineErrorView::Store(error)
                    && final(self)@ == old(self)@,
                None => if readable(
                    old(self)@.handles,
                    old(self)@.store.failures(),
                    old(self)@.handles.len() as int,
                ) {
                    &&& listed matches Ok(summaries) && in_order(summaries@) && merged_listing(
                        old(self)@.store.histories(),
                        old(self)@.handles,
                        filter@,
                        summaries@,
                    )
                    &&& final(self)@ == (EngineView {
                        handles: all_reconciled(
                            old(self)@.handles,
                            old(self)@.handles.len() as int,
                            old(self)@.store.histories(),
                        ),
                        ..old(self)@
                    })
                } else {
                    exists|place: int| #[trigger]
                        unreadable_at(old(self)@.handles, old(self)@.store.failures(), place) && (
                        listed matches Err(e) && e@ == EngineErrorView::Store(
                            read_failure(
                                old(self)@.handles,
                                old(self)@.store.failures(),
                                place,
                            )->Some_0,
                        )) && final(self)@ == (EngineView {
                            handles: all_reconciled(
                                old(self)@.handles,
                                place,
                                old(self)@.store.histories(),
                            ),
                            ..old(self)@
                        })
                },
            },
    {
        let ghost before = self@;
        let ghost histories = self.store.histories();
        let queried = match self.store.query(filter) {
            Ok(queried) => queried,
            Err(error) => {
                return Err(EngineError::Store(error));
            },
        };
        let ghost stored = workflow_summary_views(queried@);
        let mut table: Table<WorkflowId, WorkflowSummary> = Table::new();
        let mut i: usize = 0;
        proof {
            assert(stored.take(0) =~= Seq::empty());
            assert(table_summaries(table@) =~= Map::empty());
        }
        while i < queried.len()
            invariant
                i <= queried.len(),
                stored == workflow_summary_views(queried@),
                table_summaries(table@) == merged(stored.take(i as int)),
            decreases queried.len() - i,
        {
            let summary = queried[i].clone();
            let ghost earlier = table@;
            proof {
                assert(stored.take(i + 1).drop_last() =~= stored.take(i as int));
                assert(stored.take(i + 1).last() == queried@[i as int]@);
            }
            let _ = table.insert(summary.workflow_id, summary);
            proof {
                assert(table_summaries(table@) =~= table_summaries(earlier).insert(
                    summary.workflow_id,
                    summary@,
                ));
            }
            i += 1;
        }
        proof {
            assert(stored.take(i as int) =~= stored);
        }
        let count = self.registry.list().len();
        let mut k: usize = 0;
        while k < count
            invariant
                k <= count,
                count == before.handles.len(),
                before == old(self)@,
                failing(before.store.failures(), StoreCall::Query { filter: filter@ }) is None,
                readable(before.handles, before.store.failures(), k as int),
                histories == before.store.histories(),
                self.store == before.store,
                self@ == (EngineView { handles: self.registry@, ..before }),
                self.registry@ == all_reconciled(before.handles, k as int, histories),
                self.registry@.len() == count,
                table_summaries(table@) == overlaid(
                    merged(stored),
                    before.handles,
                    k as int,
                    histories,
                    filter@,
                ),
            decreases count - k,
        {
            proof {
                reconciling_keeps_runs(before.handles, k as int, histories);
                reconciling_keeps_runs(before.handles, k + 1, histories);
            }
            let handles = self.registry.list();
            assert(self.registry@[k as int] == handles@[k as int]@);
            let workflow_id = handles[k].workflow_id;
            let run_id = handles[k].run_id;
            let history = match self.store.read_history(&workflow_id) {
                Ok(history) => history,
                Err(error) => {
                    proof {
                        assert(unreadable_at(
                            before.handles,
                            before.store.failures(),
                            k as int,
                        ));
                    }
                    return Err(EngineError::Store(error));
                },
            };
            self.registry.reconcile(&workflow_id, &run_id, history.as_slice());
            if let Some(summary) = WorkflowSummary::from_history(history.as_slice()) {
                if filter.matches(&summary) {
                    let ghost earlier = table@;
                    let _ = table.insert(summary.workflow_id, summary);
                    proof {
                        assert(table_summaries(table@) =~= table_summaries(earlier).insert(
                            summary.workflow_id,
                            summary@,
                        ));
                    }
                }
            }
            k += 1;
        }
        let summaries = sorted_summaries(&table);
        proof {
            assert(merged_listing(histories, before.handles, filter@, summaries@)) by {
                assert(workflow_summary_views(queried@) == stored);
                if own_histories(histories) {
                    merging_lists_the_selected(
                        histories,
                        before.handles,
                        filter@,
                        stored,
                        before.handles.len() as int,
                    );
                }
            }
        }
        Ok(summaries)
    }
}

/// The summaries of a table, by workflow.
pub open spec fn table_summaries(table: Map<WorkflowId, WorkflowSummary>) -> Map<
    WorkflowId,
    WorkflowSummaryView,
> {
    table.map_values(|summary: WorkflowSummary| summary@)
}

/// Summaries by workflow; a later one replaces an earlier one of the same workflow.
pub open spec fn merged(summaries: Seq<WorkflowSummaryView>) -> Map<
    WorkflowId,
    WorkflowSummaryView,
>
    decreases summaries.len(),
{
    if summaries.len() == 0 {
        Map::empty()
    } else {
        merged(summaries.drop_last()).insert(summaries.last().workflow_id, summaries.last())
    }
}

/// Summaries with those of the first `n` live runs that match the filter, projected from their
/// histories.
pub open spec fn overlaid(
    base: Map<WorkflowId, WorkflowSummaryView>,
    handles: Seq<HandleView>,
    n: int,
    histories: Map<WorkflowId, Seq<EventView>>,
    filter: WorkflowFilterView,
) -> Map<WorkflowId, WorkflowSummaryView>
    decreases n,
{
    if n <= 0 {
        base
    } else {
        let earlier = overlaid(base, handles, n - 1, histories, filter);
        match summary_of(history_in(histories, handles[n - 1].workflow_id)) {
            Some(summary) if filter.matches(summary) => earlier.insert(
                summary.workflow_id,
                summary,
            ),
            _ => earlier,
        }
    }
}

/// The live runs with the cached status of the first `n` brought up to date.
pub open spec fn all_reconciled(
    handles: Seq<HandleView>,
    n: int,
    histories: Map<WorkflowId, Seq<EventView>>,
) -> Seq<HandleView>
    decreases n,
{
    if n <= 0 {
        handles
    } else {
        reconciled(
            all_reconciled(handles, n - 1, histories),
            handles[n - 1].workflow_id,
            handles[n - 1].run_id,
            status_of(history_in(histories, handles[n - 1].workflow_id)),
        )
    }
}

/// The failure that reading the history of a live run's workflow meets, if it does.
pub open spec fn read_failure(
    handles: Seq<HandleView>,
    failures: Map<StoreCall, StoreErrorView>,
    place: int,
) -> Option<StoreErrorView> {
    failing(failures, StoreCall::ReadHistory { workflow_id: handles[place].workflow_id })
}

/// The histories of the first `n` live runs can be read.
pub open spec fn readable(
    handles: Seq<HandleView>,
    failures: Map<StoreCall, StoreErrorView>,
    n: int,
) -> bool {
    forall|place: int| 0 <= place < n ==> #[trigger] read_failure(handles, failures, place) is None
}

/// The live run at a place is the first whose history cannot be read.
pub open spec fn unreadable_at(
    handles: Seq<HandleView>,
    failures: Map<StoreCall, StoreErrorView>,
    place: int,
) -> bool {
    &&& 0 <= place < handles.len()
    &&& readable(handles, failures, place)
    &&& read_failure(handles, failures, place) is Some
}

/// Every history that has a summary tells of its own workflow.
pub open spec fn own_histories(histories: Map<WorkflowId, Seq<EventView>>) -> bool {
    forall|id: WorkflowId| #[trigger]
        histories.contains_key(id) && summary_of(histories[id]) is Some ==> summary_of(
            histories[id],
        )->Some_0.workflow_id == id
}

/// `summaries` lists what the store selects, merged with the live runs. Where every history tells
/// of its own workflow that is exactly what the store selects.
pub open spec fn merged_listing(
    histories: Map<WorkflowId, Seq<EventView>>,
    handles: Seq<HandleView>,
    filter: WorkflowFilterView,
    summaries: Seq<WorkflowSummary>,
) -> bool {
    &&& exists|queried: Seq<WorkflowSummary>|
        #![trigger workflow_summary_views(queried)]
        {
            &&& lists(
                workflow_summary_views(queried),
                selected_summaries(histories, filter),
            )
            &&& in_order(queried)
            &&& lists(
                workflow_summary_views(summaries),
                overlaid(
                    merged(workflow_summary_views(queried)),
                    handles,
                    handles.len() as int,
                    histories,
                    filter,
                ),
            )
        }
    &&& own_histories(histories) ==> lists(
        workflow_summary_views(summaries),
        selected_summaries(histories, filter),
    )
}

proof fn reconciling_keeps_runs(
    handles: Seq<HandleView>,
    n: int,
    histories: Map<WorkflowId, Seq<EventView>>,
)
    requires
        0 <= n <= handles.len(),
    ensures
        all_reconciled(handles, n, histories).len() == handles.len(),
        forall|i: int|
            #![trigger all_reconciled(handles, n, histories)[i]]
            0 <= i < handles.len() ==> all_reconciled(handles, n, histories)[i].workflow_id
                == handles[i].workflow_id && all_reconciled(handles, n, histories)[i].run_id
                == handles[i].run_id,
    decreases n,
{
    if n > 0 {
        reconciling_keeps_runs(handles, n - 1, histories);
        let earlier = all_reconciled(handles, n - 1, histories);
        first_place_in_range(
            earlier,
            of_run(handles[n - 1].workflow_id, handles[n - 1].run_id),
        );
    }
}

proof fn merging_keeps_values(
    summaries: Seq<WorkflowSummaryView>,
    keys: Seq<WorkflowId>,
    n: int,
)
    requires
        0 <= n <= summaries.len(),
        keys.len() == summaries.len(),
        keys.no_duplicates(),
        forall|i: int| 0 <= i < keys.len() ==> (#[trigger] summaries[i]).workflow_id == keys[i],
    ensures
        forall|i: int|
            0 <= i < n ==> merged(summaries.take(n)).contains_key(#[trigger] keys[i]) && merged(
                summaries.take(n),
            )[keys[i]] == summaries[i],
        forall|id: WorkflowId| #[trigger]
            merged(summaries.take(n)).contains_key(id) ==> exists|i: int|
                0 <= i < n && keys[i] == id,
    decreases n,
{
    if n > 0 {
        merging_keeps_values(summaries, keys, n - 1);
        let earlier = merged(summaries.take(n - 1));
        assert(summaries.take(n).drop_last() =~= summaries.take(n - 1));
        assert(summaries.take(n).last() == summaries[n - 1]);
        assert(merged(summaries.take(n)) == earlier.insert(keys[n - 1], summaries[n - 1]));
        assert forall|id: WorkflowId| #[trigger]
            merged(summaries.take(n)).contains_key(id) implies exists|i: int|
            0 <= i < n && keys[i] == id by {
            if id == keys[n - 1] {
            } else {
                assert(earlier.contains_key(id));
                let i = choose|i: int| 0 <= i < n - 1 && keys[i] == id;
                assert(0 <= i < n && keys[i] == id);
            }
        }
    }
}

proof fn merging_lists_the_selected(
    histories: Map<WorkflowId, Seq<EventView>>,
    handles: Seq<HandleView>,
    filter: WorkflowFilterView,
    queried: Seq<WorkflowSummaryView>,
    n: int,
)
    requires
        own_histories(histories),
        lists(queried, selected_summaries(histories, filter)),
        0 <= n <= handles.len(),
    ensures
        overlaid(merged(queried), handles, n, histories, filter) == selected_summaries(
            histories,
            filter,
        ),
    decreases n,
{
    let selected = selected_summaries(histories, filter);
    if n == 0 {
        let keys = choose|keys: Seq<WorkflowId>| enumerates(keys, queried, selected);
        assert forall|i: int| 0 <= i < keys.len() implies (#[trigger] queried[i]).workflow_id
            == keys[i] by {
            assert(keys.contains(keys[i]));
            assert(selected.contains_key(keys[i]));
            assert(histories.contains_key(keys[i]));
        }
        merging_keeps_values(queried, keys, queried.len() as int);
        assert(queried.take(queried.len() as int) =~= queried);
        assert forall|id: WorkflowId| merged(queried).contains_key(id) == #[trigger]
            selected.contains_key(id) by {
            if selected.contains_key(id) {
                assert(keys.contains(id));
                let i = choose|i: int| 0 <= i < keys.len() && keys[i] == id;
                assert(merged(queried).contains_key(keys[i]));
            }
            if merged(queried).contains_key(id) {
                let i = choose|i: int| 0 <= i < keys.len() && keys[i] == id;
                assert(keys.contains(keys[i]));
            }
        }
        assert(merged(queried) =~= selected) by {
            assert forall|id: WorkflowId| #[trigger] selected.contains_key(id) implies merged(
                queried,
            )[id] == selected[id] by {
                assert(keys.contains(id));
                let i = choose|i: int| 0 <= i < keys.len() && keys[i] == id;
                assert(merged(queried)[keys[i]] == queried[i]);
                assert(queried[i] == selected[keys[i]]);
            }
        }
    } else {
        merging_lists_the_selected(histories, handles, filter, queried, n - 1);
        let id = handles[n - 1].workflow_id;
        match summary_of(history_in(histories, id)) {
            Some(summary) => {
                assert(histories.contains_key(id));
                if filter.matches(summary) {
                    assert(selected.contains_key(id));
                    assert(selected.insert(summary.workflow_id, summary) =~= selected);
                }
            },
            None => {},
        }
    }
}

fn sorted_summaries(table: &Table<WorkflowId, WorkflowSummary>) -> (summaries: Vec<WorkflowSummary>)
    ensures
        in_order(summaries@),
        lists(workflow_summary_views(summaries@), table_summaries(table@)),
{
    let entries = table.entries();
    let ghost pairs = entries@;
    let ghost wanted = table_summaries(table@);
    let ghost value = |summary: WorkflowSummary| summary@;
    let mut found: Vec<Keyed<usize, WorkflowSummary>> = Vec::new();
    let mut i: usize = 0;
    while i < entries.len()
        invariant
            i <= entries.len(),
            entries@ == pairs,
            keys_distinct(pairs),
            pair_map(pairs) == table@,
            wanted == table_summaries(table@),
            value == (|summary: WorkflowSummary| summary@),
            picked(pairs, i as int, wanted, value, found@),
        decreases entries.len() - i,
    {
        let ghost earlier = found@;
        proof {
            pair_map_holds(pairs, i as int);
        }
        found.push(Keyed { key: i, item: entries[i].1.clone() });
        proof {
            picked_next(pairs, i as int, wanted, value, earlier, found@.last());
            assert(found@ =~= earlier.push(found@.last()));
        }
        i += 1;
    }
    proof {
        picked_keys_distinct(pairs, i as int, wanted, value, found@);
    }
    let ordered = sorted_pairs(found);
    let summaries = without_keys(ordered);
    proof {
        picked_lists(pairs, wanted, value, found@, ordered@);
        assert(items_of(ordered@).map_values(value) =~= workflow_summary_views(summaries@));
    }
    summaries
}

/// What is handed to the runtime for a mailbox message.
#[derive(Debug, PartialEq, Eq)]
pub struct SignalDelivery {
    /// The process.
    pub pid: Pid,
    /// Name of the signal.
    pub name: String,
    /// What came with it.
    pub payload: Payload,
}

/// The signal that a mailbox message delivers to a process, by its name and payload; other messages are
/// refused.
pub open spec fn delivered_signal(
    process: WorkflowProcessHandle,
    message: MailboxMessageView,
    described: Seq<char>,
) -> Result<(Pid, Seq<char>, PayloadView), EngineSeamErrorView> {
    match message {
        MailboxMessageView::SignalReceived { name, payload } => Ok((process.process, name, payload)),
        _ => Err(
            EngineSeamErrorView::Delivery {
                reason: "unsupported workflow mailbox message: "@ + described,
            },
        ),
    }
}

/// A signal reaches the process that it is for, under its name and with its payload. No other message is
/// delivered, and the refusal says which it was.
pub proof fn only_signals_are_delivered(
    process: WorkflowProcessHandle,
    message: MailboxMessageView,
    described: Seq<char>,
)
    ensures
        delivered_signal(process, message, described) is Ok <==> message is SignalReceived,
        delivered_signal(process, message, described) matches Ok((pid, name, payload)) ==> pid
            == process.process && message == (MailboxMessageView::SignalReceived { name, payload }),
        delivered_signal(process, message, described) matches Err(error) ==> error == (
        EngineSeamErrorView::Delivery {
            reason: "unsupported workflow mailbox message: "@ + described,
        }),
{
}

/// Decides on the delivery of a mailbox message: only signals go to the runtime. `described` is how
/// the message appears in the refusal.
pub fn deliver_workflow_message(
    process: WorkflowProcessHandle,
    message: WorkflowMailboxMessage,
    described: &str,
) -> (delivery: Result<SignalDelivery, EngineSeamError>)
    ensures
        match delivered_signal(process, message@, described@) {
            Ok((pid, name, payload)) => delivery matches Ok(d) && d.pid == pid && d.name@ == name
                && d.payload@ == payload,
            Err(error) => delivery matches Err(e) && e@ == error,
        },
{
    match message {
        WorkflowMailboxMessage::SignalReceived { name, payload } => Ok(
            SignalDelivery { pid: process.pid(), name, payload },
        ),
        _ => Err(
            EngineSeamError::Delivery {
                reason: joined("unsupported workflow mailbox message: ", described),
            },
        ),
    }
}

impl<S: EventStore, V, L> EngineHandle for Engine<S, V, L> {
    open spec fn residency(&self, workflow_id: WorkflowId) -> Result<
        WorkflowResidency,
        EngineSeamErrorView,
    > {
        Ok(residency_in(self@.handles, workflow_id))
    }

    fn resolve_workflow(&self, workflow_id: &WorkflowId) -> (residency: Result<
        WorkflowResidency,
        EngineSeamError,
    >) {
        Ok(resolve_in(&self.registry, workflow_id))
    }

    fn spawn_child_workflow(&self, workflow_type: &str) -> (spawned: Result<Pid, EngineSeamError>)
        ensures
            spawned matches Err(e) && e@ == (EngineSeamErrorView::ChildSpawn {
                reason: "engine handle child spawning is not wired here"@,
            }),
    {
        Err(
            EngineSeamError::ChildSpawn {
                reason: "engine handle child spawning is not wired here".to_owned(),
            },
        )
    }

    fn terminate_linked_child_workflow(
        &self,
        parent_workflow_id: &WorkflowId,
        child_process: WorkflowProcessHandle,
        correlation: u64,
    ) -> (terminated: Result<(), EngineSeamError>)
        ensures
            seam_outcome(terminated) == Err::<(), EngineSeamErrorView>(
                EngineSeamErrorView::ChildTermination {
                    reason: "engine handle child termination is not wired here"@,
                },
            ),
    {
        Err(
            EngineSeamError::ChildTermination {
                reason: "engine handle child termination is not wired here".to_owned(),
            },
        )
    }

    fn terminate_linked_activity(
        &self,
        parent_workflow_id: &WorkflowId,
        activity_process: Pid,
        correlation: u64,
    ) -> (terminated: Result<(), EngineSeamError>)
        ensures
            seam_outcome(terminated) == Err::<(), EngineSeamErrorView>(
                EngineSeamErrorView::ChildTermination {
                    reason: "engine handle activity termination is not wired here"@,
                },
            ),
    {
        Err(
            EngineSeamError::ChildTermination {
                reason: "engine handle activity termination is not wired here".to_owned(),
            },
        )
    }

    fn arm_timer(&self, entry: TimerWheelEntry) -> (armed: Result<(), EngineSeamError>)
        ensures
            seam_outcome(armed) == Err::<(), EngineSeamErrorView>(
                EngineSeamErrorView::TimerWheel {
                    reason: "engine handle timer arming is not wired here"@,
                },
            ),
    {
        Err(
            EngineSeamError::TimerWheel {
                reason: "engine handle timer arming is not wired here".to_owned(),
            },
        )
    }

    fn disarm_timer(&self, process: WorkflowProcessHandle, timer_id: &TimerId) -> (disarmed: Result<
        (),
        EngineSeamError,
    >)
        ensures
            seam_outcome(disarmed) == Err::<(), EngineSeamErrorView>(
                EngineSeamErrorView::TimerWheel {
                    reason: "engine handle timer disarming is not wired here"@,
                },
            ),
    {
        Err(
            EngineSeamError::TimerWheel {
                reason: "engine handle timer disarming is not wired here".to_owned(),
            },
        )
    }

    fn record_workflow_event(&mut self, workflow_id: &WorkflowId, event: Event) -> (recorded: Result<
        (),
        EngineSeamError,
    >)
        ensures
            seam_outcome(recorded) == Err::<(), EngineSeamErrorView>(
                EngineSeamErrorView::Recorder {
                    reason: "engine handle event recording is not wired here"@,
                },
            ),
            final(self)@ == old(self)@,
    {
        Err(
            EngineSeamError::Recorder {
                reason: "engine handle event recording is not wired here".to_owned(),
            },
        )
    }
}

/// A rebuilt engine's writer of the schedule coordinator's history is in step with what is stored.
pub proof fn caught_up_coordinator_is_in_step(
    recorder: RecorderView,
    histories: Map<WorkflowId, Seq<EventView>>,
)
    requires
        recorder == (RecorderView { workflow_id: coordinator_workflow(), head: 0, run: None }),
        contiguous(history_in(histories, coordinator_workflow()), 0),
        history_in(histories, coordinator_workflow()).len() <= u64::MAX,
    ensures
        in_step(caught_up(recorder, histories), histories),
{
}

/// An operation that was let in and ended leaves the shutdown gate as it was, and a start that is
/// asked for behind a closed gate is refused without touching it.
pub proof fn ended_operations_leave_no_trace<Q, T>(
    gate: GateView,
    request: Q,
    result: Result<T, EngineError>,
)
    ensures
        ({
            let asked = OperationEvent::<Q, T>::Asked(request);
            let ended = OperationEvent::<Q, T>::Ended(result);
            let entered = operation_gate(gate, GateStep::Operation, asked);
            let started = operation_gate(gate, GateStep::Start, asked);
            &&& operation_gate(entered, GateStep::Operation, ended) == gate
            &&& !gate.shutting_down ==> operation_gate(started, GateStep::Start, ended) == gate
            &&& gate.shutting_down ==> started == gate && operation_step(
                gate.shutting_down,
                asked,
            ) == Err::<OperationStep<Q, T>, EngineError>(EngineError::ShuttingDown)
        }),
{
}

/// A run that ended is answered from the history, whatever else is known of it.
pub proof fn ended_runs_answer_at_once<S: EventStore, V, L>(
    engine: EngineView<S, V, L>,
    id: WorkflowId,
    run: RunId,
    outcome: TerminalOutcomeView,
)
    requires
        failing(engine.store.failures(), StoreCall::ReadHistory { workflow_id: id }) is None,
        run_outcome(history_in(engine.store.histories(), id), run) == Some(outcome),
    ensures
        result_step(engine, id, run, ResultEvent::Asked) == Ok::<ResultStepView, EngineErrorView>(
            ResultStepView::Done(result_of(outcome)),
        ),
        result_step(engine, id, run, ResultEvent::ChannelClosed) == Ok::<
            ResultStepView,
            EngineErrorView,
        >(ResultStepView::Done(result_of(outcome))),
{
}

/// A run that is not live and of which no stored event speaks is not found, also where another run
/// of the workflow ended.
pub proof fn unknown_runs_are_not_found<S: EventStore, V, L>(
    engine: EngineView<S, V, L>,
    id: WorkflowId,
    run: RunId,
)
    requires
        failing(engine.store.failures(), StoreCall::ReadHistory { workflow_id: id }) is None,
        first_place(engine.handles, of_run(id, run)) >= engine.handles.len(),
        forall|i: int|
            0 <= i < history_in(engine.store.histories(), id).len() ==> !speaks_of(
                (#[trigger] history_in(engine.store.histories(), id)[i]).body,
                run,
            ),
    ensures
        result_step(engine, id, run, ResultEvent::Asked) == Err::<ResultStepView, EngineErrorView>(
            EngineErrorView::WorkflowNotFound { workflow_type: run_text(id, run) },
        ),
        result_step(engine, id, run, ResultEvent::Terminated(Ok(()))) == Err::<
            ResultStepView,
            EngineErrorView,
        >(EngineErrorView::WorkflowNotFound { workflow_type: run_text(id, run) }),
{
    unknown_runs_have_no_outcome(history_in(engine.store.histories(), id), run);
}

/// Where deleting a schedule succeeds, the schedule existed, one `ScheduleDeleted` event of it was
/// appended to the coordinator's history, it is not found any longer, and all other schedules are as
/// they were.
pub proof fn deleted_schedules_do_not_exist<S: EventStore, V, L>(
    before: EngineView<S, V, L>,
    after: EngineView<S, V, L>,
    recorded_at: Timestamp,
    schedule_id: ScheduleId,
    projected: Result<ScheduleState, EngineError>,
)
    requires
        changed(
            before,
            after,
            recorded_at,
            schedule_id,
            ScheduleChange::Delete,
            projected,
            Ok(()),
        ),
    ensures
        described(before.schedules, schedule_id) is Ok,
        after.store.histories() == appended(
            before.store.histories(),
            before.recorder.workflow_id,
            seq![
                next_event(
                    before.recorder,
                    recorded_at,
                    EventBody::ScheduleDeleted { schedule_id },
                ),
            ],
        ),
        described(after.schedules, schedule_id) == Err::<ScheduleStateView, EngineErrorView>(
            no_schedule(schedule_id),
        ),
        forall|other: ScheduleId|
            other != schedule_id ==> #[trigger] described(after.schedules, other) == described(
                before.schedules,
                other,
            ),
        existing(after.schedules) == existing(before.schedules).remove(schedule_id),
{
    assert(existing(after.schedules) =~= existing(before.schedules).remove(schedule_id));
}

/// Where deleting a schedule succeeds, no listing holds it any longer, and the listings hold every
/// other schedule as before.
pub proof fn deleted_schedules_are_not_listed<S: EventStore, V, L>(
    before: EngineView<S, V, L>,
    after: EngineView<S, V, L>,
    recorded_at: Timestamp,
    schedule_id: ScheduleId,
    projected: Result<ScheduleState, EngineError>,
    listed: Seq<ScheduleStateView>,
    remaining: Seq<ScheduleStateView>,
    state: ScheduleStateView,
)
    requires
        changed(
            before,
            after,
            recorded_at,
            schedule_id,
            ScheduleChange::Delete,
            projected,
            Ok(()),
        ),
        kept_by_id(before.schedules),
        lists(listed, existing(before.schedules)),
        lists(remaining, existing(after.schedules)),
    ensures
        remaining.contains(state) <==> listed.contains(state) && state.schedule_id != schedule_id,
        remaining.len() + 1 == listed.len(),
        kept_by_id(after.schedules),
{
    deleted_schedules_do_not_exist(before, after, recorded_at, schedule_id, projected);
    listing_length(listed, existing(before.schedules));
    listing_length(remaining, existing(after.schedules));
    listed_by_key(listed, existing(before.schedules), state);
    listed_by_key(remaining, existing(after.schedules), state);
    let id = state.schedule_id;
    assert(remaining.contains(state) <==> existing(after.schedules).contains_key(id) && existing(
        after.schedules,
    )[id] == state);
}

/// A listing of schedules holds a schedule where it is kept under its identifier.
proof fn listed_by_key(
    values: Seq<ScheduleStateView>,
    wanted: Map<ScheduleId, ScheduleStateView>,
    state: ScheduleStateView,
)
    requires
        lists(values, wanted),
        kept_by_id(wanted),
    ensures
        values.contains(state) <==> wanted.contains_key(state.schedule_id)
            && wanted[state.schedule_id] == state,
{
    let keys = choose|keys: Seq<ScheduleId>| #[trigger] enumerates(keys, values, wanted);
    if values.contains(state) {
        let i = choose|i: int| 0 <= i < values.len() && values[i] == state;
        assert(keys.contains(keys[i]));
        assert(wanted.contains_key(keys[i]));
    }
    if wanted.contains_key(state.schedule_id) && wanted[state.schedule_id] == state {
        assert(keys.contains(state.schedule_id));
        let i = choose|i: int| 0 <= i < keys.len() && keys[i] == state.schedule_id;
        assert(values[i] == state);
    }
}

/// Deleting a schedule again is refused, and changes and records nothing.
pub proof fn schedules_are_deleted_once<S: EventStore, V, L>(
    before: EngineView<S, V, L>,
    after: EngineView<S, V, L>,
    last: EngineView<S, V, L>,
    recorded_at: Timestamp,
    later: Timestamp,
    schedule_id: ScheduleId,
    projected: Result<ScheduleState, EngineError>,
    again: Result<ScheduleState, EngineError>,
    outcome: Result<(), EngineError>,
)
    requires
        changed(
            before,
            after,
            recorded_at,
            schedule_id,
            ScheduleChange::Delete,
            projected,
            Ok(()),
        ),
        changed(after, last, later, schedule_id, ScheduleChange::Delete, again, outcome),
    ensures
        engine_outcome(outcome) == Err::<(), EngineErrorView>(no_schedule(schedule_id)),
        last == after,
{
    deleted_schedules_do_not_exist(before, after, recorded_at, schedule_id, projected);
}

/// A caller that asks for a run that ended gets what the history recorded: the result where the event
/// that ended the run holds one, and otherwise a failure, which is the recorded error where the run
/// failed.
pub proof fn ended_runs_are_answered_as_recorded<S: EventStore, V, L>(
    engine: EngineView<S, V, L>,
    id: WorkflowId,
    run: RunId,
    from: int,
    to: int,
)
    requires
        failing(engine.store.failures(), StoreCall::ReadHistory { workflow_id: id }) is None,
        spans_run(history_in(engine.store.histories(), id), run, from, to),
    ensures
        ({
            let end = history_in(engine.store.histories(), id)[to].body;
            let answer = result_step(engine, id, run, ResultEvent::Asked);
            &&& answer matches Ok(ResultStepView::Done(result)) && (result is Ok <==> end is
                WorkflowCompleted)
            &&& end matches EventBody::WorkflowCompleted { result } ==> answer == Ok::<
                ResultStepView,
                EngineErrorView,
            >(ResultStepView::Done(Ok(result)))
            &&& end matches EventBody::WorkflowFailed { error } ==> answer == Ok::<
                ResultStepView,
                EngineErrorView,
            >(ResultStepView::Done(Err(error)))
            &&& answer == result_step(engine, id, run, ResultEvent::ChannelClosed)
            &&& answer == result_step(engine, id, run, ResultEvent::Terminated(Ok(())))
        }),
{
    let history = history_in(engine.store.histories(), id);
    runs_end_as_recorded(history, run, from, to);
    callers_get_what_was_recorded(run_outcome(history, run)->Some_0);
}

/// A caller that waits for a live run that has not ended asks the process of that run, hands what the
/// process ended with to the termination, a result as a result and a failure as a failure, and gets the
/// outcome that it is notified of.
pub proof fn live_runs_are_waited_for<S: EventStore, V, L>(
    engine: EngineView<S, V, L>,
    id: WorkflowId,
    run: RunId,
    place: int,
    payload: Payload,
    error: WorkflowError,
    outcome: TerminalOutcome,
)
    requires
        failing(engine.store.failures(), StoreCall::ReadHistory { workflow_id: id }) is None,
        run_outcome(history_in(engine.store.histories(), id), run) is None,
        0 <= place < engine.handles.len(),
        engine.handles[place].workflow_id == id,
        engine.handles[place].run_id == run,
        forall|i: int|
            0 <= i < place ==> (#[trigger] engine.handles[i]).workflow_id != id
                || engine.handles[i].run_id != run,
    ensures
        result_step(engine, id, run, ResultEvent::Asked) == Ok::<ResultStepView, EngineErrorView>(
            ResultStepView::AskRuntime { pid: engine.handles[place].pid },
        ),
        result_step(engine, id, run, ResultEvent::ProcessEnded(Ok(Ok(payload)))) == Ok::<
            ResultStepView,
            EngineErrorView,
        >(ResultStepView::Complete(payload@)),
        result_step(engine, id, run, ResultEvent::ProcessEnded(Ok(Err(error)))) == Ok::<
            ResultStepView,
            EngineErrorView,
        >(ResultStepView::Fail(error@)),
        result_step(engine, id, run, ResultEvent::Terminated(Ok(()))) == Ok::<
            ResultStepView,
            EngineErrorView,
        >(ResultStepView::AwaitCompletion),
        result_step(engine, id, run, ResultEvent::Notified(None)) == Ok::<
            ResultStepView,
            EngineErrorView,
        >(ResultStepView::AwaitCompletion),
        result_step(engine, id, run, ResultEvent::Notified(Some(outcome))) matches Ok(
            ResultStepView::Done(result),
        ) && (result is Ok <==> outcome is Completed) && (
        outcome matches TerminalOutcome::Completed(returned) ==> result == Ok::<
            PayloadView,
            WorkflowErrorView,
        >(returned@)) && (outcome matches TerminalOutcome::Failed(failed) ==> result == Err::<
            PayloadView,
            WorkflowErrorView,
        >(failed@)),
{
    first_place_is(engine.handles, of_run(id, run), place);
    callers_get_what_was_recorded(outcome@);
}

/// Where a change of a schedule succeeds, describing that schedule gives the state that was projected,
/// under its own identifier: not paused where it was resumed, paused where it was paused, and otherwise
/// as the projection has it. All other schedules are described as before.
pub proof fn changed_schedules_are_described_as_changed<S: EventStore, V, L>(
    before: EngineView<S, V, L>,
    after: EngineView<S, V, L>,
    recorded_at: Timestamp,
    schedule_id: ScheduleId,
    change: ScheduleChange,
    projected: Result<ScheduleState, EngineError>,
    other: ScheduleId,
)
    requires
        changed(before, after, recorded_at, schedule_id, change, projected, Ok(())),
        projected matches Ok(state) ==> !state@.is_deleted,
        !(change is Delete),
    ensures
        projected is Ok,
        described(after.schedules, schedule_id) matches Ok(state) && {
            &&& state.schedule_id == schedule_id
            &&& state.config == projected->Ok_0@.config
            &&& state.next_trigger_at == projected->Ok_0@.next_trigger_at
            &&& !state.is_deleted
            &&& change is Resume ==> !state.is_paused
            &&& change is Pause ==> state.is_paused
            &&& change is Update ==> state.is_paused == projected->Ok_0@.is_paused
        },
        other != schedule_id ==> described(after.schedules, other) == described(
            before.schedules,
            other,
        ),
{
}

/// A schedule that was paused and then resumed is described as active again, and one that was resumed
/// and then paused as paused.
pub proof fn resuming_undoes_pausing<S: EventStore, V, L>(
    before: EngineView<S, V, L>,
    between: EngineView<S, V, L>,
    after: EngineView<S, V, L>,
    first_at: Timestamp,
    second_at: Timestamp,
    schedule_id: ScheduleId,
    pausing_first: bool,
    first: Result<ScheduleState, EngineError>,
    second: Result<ScheduleState, EngineError>,
)
    requires
        changed(
            before,
            between,
            first_at,
            schedule_id,
            if pausing_first {
                ScheduleChange::Pause
            } else {
                ScheduleChange::Resume
            },
            first,
            Ok(()),
        ),
        changed(
            between,
            after,
            second_at,
            schedule_id,
            if pausing_first {
                ScheduleChange::Resume
            } else {
                ScheduleChange::Pause
            },
            second,
            Ok(()),
        ),
        first matches Ok(state) ==> !state@.is_deleted,
        second matches Ok(state) ==> !state@.is_deleted,
    ensures
        described(between.schedules, schedule_id) matches Ok(state) && state.is_paused
            == pausing_first,
        described(after.schedules, schedule_id) matches Ok(state) && state.is_paused
            == !pausing_first,
{
}

/// Where a change of a schedule succeeds, one event is appended to the coordinator's history: the one
/// of that change, of that schedule, with the new configuration where it has one.
pub proof fn changes_are_recorded_as_what_they_are<S: EventStore, V, L>(
    before: EngineView<S, V, L>,
    after: EngineView<S, V, L>,
    recorded_at: Timestamp,
    schedule_id: ScheduleId,
    change: ScheduleChange,
    projected: Result<ScheduleState, EngineError>,
)
    requires
        changed(before, after, recorded_at, schedule_id, change, projected, Ok(())),
    ensures
        ({
            let history = history_in(before.store.histories(), before.recorder.workflow_id);
            let later = history_in(after.store.histories(), before.recorder.workflow_id);
            &&& later.len() == history.len() + 1
            &&& later.drop_last() == history
            &&& later.last().envelope.recorded_at == recorded_at
            &&& match change {
                ScheduleChange::Update(config) => later.last().body == (
                EventBody::ScheduleUpdated { schedule_id, config: config@ }),
                ScheduleChange::Pause => later.last().body == (EventBody::SchedulePaused {
                    schedule_id,
                }),
                ScheduleChange::Resume => later.last().body == (EventBody::ScheduleResumed {
                    schedule_id,
                }),
                ScheduleChange::Delete => later.last().body == (EventBody::ScheduleDeleted {
                    schedule_id,
                }),
            }
        }),
        after.store.timers() == before.store.timers(),
        after.handles == before.handles,
{
    let event = next_event(before.recorder, recorded_at, change_body(change, schedule_id));
    appended_events_are_read_back(
        before.store.histories(),
        before.recorder.workflow_id,
        before.recorder.workflow_id,
        seq![event],
    );
    let history = history_in(before.store.histories(), before.recorder.workflow_id);
    assert((history + seq![event]).drop_last() =~= history);
    assert((history + seq![event]).last() == event);
}

/// A schedule that does not exist cannot be changed: the change is refused by the schedule's identifier
/// and leaves the engine as it was. A change whose event cannot be recorded keeps every schedule.
pub proof fn refused_changes_keep_the_schedules<S: EventStore, V, L>(
    before: EngineView<S, V, L>,
    after: EngineView<S, V, L>,
    recorded_at: Timestamp,
    schedule_id: ScheduleId,
    change: ScheduleChange,
    projected: Result<ScheduleState, EngineError>,
    outcome: Result<(), EngineError>,
)
    requires
        changed(before, after, recorded_at, schedule_id, change, projected, outcome),
        outcome is Err,
    ensures
        after.schedules == before.schedules,
        after.gate == before.gate,
        described(before.schedules, schedule_id) is Err ==> after == before && outcome->Err_0@ == (
        EngineErrorView::ScheduleNotFound { schedule_id }),
        described(before.schedules, schedule_id) is Ok && projected is Ok ==>
            outcome->Err_0@ is Durability,
{
}

/// A schedule that was created or changed is kept exactly when its event was recorded and its new state
/// projected. It is then kept as given, the others stay as they were, its event comes last in the
/// coordinator's history, and an armed schedule passes the shutdown gate. A failure of either step is
/// told, and keeps no schedule.
pub proof fn schedules_are_kept_once_recorded<S: EventStore, V, L>(
    before: EngineView<S, V, L>,
    after: EngineView<S, V, L>,
    recorded_at: Timestamp,
    body: EventBody,
    projected: Result<ScheduleState, EngineError>,
    kept: ScheduleStateView,
    arming: bool,
    other: ScheduleId,
)
    requires
        schedule_effect(before, after, recorded_at, body, projected, kept, arming),
    ensures
        ({
            let decided = record_outcome(before.recorder, before.store, recorded_at, body);
            let outcome = kept_schedule(decided, projected);
            let history = history_in(before.store.histories(), before.recorder.workflow_id);
            let later = history_in(after.store.histories(), before.recorder.workflow_id);
            &&& outcome is Ok <==> decided is Ok && projected is Ok
            &&& decided matches Err(error) ==> outcome == Err::<(), EngineErrorView>(
                EngineErrorView::Durability(error),
            ) && later == history
            &&& decided is Ok ==> later == history.push(
                next_event(before.recorder, recorded_at, body),
            )
            &&& decided is Ok && projected is Err ==> outcome == Err::<(), EngineErrorView>(
                projected->Err_0@,
            )
            &&& outcome is Err ==> after.schedules == before.schedules && after.gate == before.gate
            &&& outcome is Ok ==> {
                &&& after.schedules.contains_key(kept.schedule_id)
                &&& after.schedules[kept.schedule_id] == kept
                &&& after.gate.shutting_down == before.gate.shutting_down
                &&& after.gate.active == before.gate.active + if arming {
                    1nat
                } else {
                    0nat
                }
            }
            &&& other != kept.schedule_id ==> (after.schedules.contains_key(other)
                <==> before.schedules.contains_key(other))
            &&& other != kept.schedule_id && before.schedules.contains_key(other)
                ==> after.schedules[other] == before.schedules[other]
        }),
{
    let event = next_event(before.recorder, recorded_at, body);
    let history = history_in(before.store.histories(), before.recorder.workflow_id);
    appended_events_are_read_back(
        before.store.histories(),
        before.recorder.workflow_id,
        before.recorder.workflow_id,
        seq![event],
    );
    assert(history + seq![event] =~= history.push(event));
}

/// Of the projected schedules that are loaded each is kept under its own identifier, the last of an
/// identifier in place of earlier ones; schedules that are not among them stay as they were.
pub proof fn loaded_schedules_are_all_kept(
    schedules: Map<ScheduleId, ScheduleStateView>,
    states: Seq<ScheduleState>,
    id: ScheduleId,
    last: int,
)
    requires
        -1 <= last < states.len(),
        last >= 0 ==> states[last].schedule_id == id,
        forall|i: int| last < i < states.len() ==> (#[trigger] states[i]).schedule_id != id,
    ensures
        last >= 0 ==> kept_all(schedules, states).contains_key(id) && kept_all(schedules, states)[id]
            == states[last]@,
        last < 0 ==> (kept_all(schedules, states).contains_key(id) <==> schedules.contains_key(id)),
        last < 0 && schedules.contains_key(id) ==> kept_all(schedules, states)[id] == schedules[id],
    decreases states.len(),
{
    if states.len() > 0 {
        let rest = states.drop_last();
        assert(states.last() == states[states.len() - 1]);
        if last < rest.len() {
            assert(forall|i: int| 0 <= i < rest.len() ==> #[trigger] rest[i] == states[i]);
            loaded_schedules_are_all_kept(schedules, rest, id, last);
        }
    }
}

/// Of summaries the last one of a workflow counts, and only workflows that have one are merged.
pub proof fn last_summaries_count(
    summaries: Seq<WorkflowSummaryView>,
    id: WorkflowId,
    last: int,
)
    requires
        -1 <= last < summaries.len(),
        last >= 0 ==> summaries[last].workflow_id == id,
        forall|i: int| last < i < summaries.len() ==> (#[trigger] summaries[i]).workflow_id != id,
    ensures
        last >= 0 ==> merged(summaries).contains_key(id) && merged(summaries)[id] == summaries[last],
        last < 0 ==> !merged(summaries).contains_key(id),
    decreases summaries.len(),
{
    if summaries.len() > 0 {
        let rest = summaries.drop_last();
        assert(summaries.last() == summaries[summaries.len() - 1]);
        if last < rest.len() {
            assert(forall|i: int| 0 <= i < rest.len() ==> #[trigger] rest[i] == summaries[i]);
            last_summaries_count(rest, id, last);
        }
    }
}

/// A listing holds a workflow exactly when its history has a start and the filter selects the summary
/// of that history, and tells that summary, where every history is of the workflow that it is kept
/// under.
pub proof fn listings_hold_the_matching_workflows(
    histories: Map<WorkflowId, Seq<EventView>>,
    handles: Seq<HandleView>,
    filter: WorkflowFilterView,
    summaries: Seq<WorkflowSummary>,
    summary: WorkflowSummaryView,
)
    requires
        own_histories(histories),
        merged_listing(histories, handles, filter, summaries),
    ensures
        workflow_summary_views(summaries).contains(summary) <==> histories.contains_key(
            summary.workflow_id,
        ) && summary_of(histories[summary.workflow_id]) == Some(summary) && filter.matches(summary),
{
    let wanted = selected_summaries(histories, filter);
    let values = workflow_summary_views(summaries);
    let keys = choose|keys: Seq<WorkflowId>| #[trigger] enumerates(keys, values, wanted);
    if values.contains(summary) {
        let i = choose|i: int| 0 <= i < values.len() && values[i] == summary;
        assert(keys.contains(keys[i]));
        assert(wanted.contains_key(keys[i]));
        assert(values[i] == wanted[keys[i]]);
    }
    if histories.contains_key(summary.workflow_id) && summary_of(histories[summary.workflow_id])
        == Some(summary) && filter.matches(summary) {
        assert(wanted.contains_key(summary.workflow_id));
        assert(keys.contains(summary.workflow_id));
        let i = choose|i: int| 0 <= i < keys.len() && keys[i] == summary.workflow_id;
        assert(values[i] == wanted[keys[i]]);
    }
}

/// Behind a listing every live run is cached with the status that its workflow's history projects;
/// nothing else of the runs changed.
pub proof fn listings_bring_live_runs_up_to_date(
    handles: Seq<HandleView>,
    n: int,
    histories: Map<WorkflowId, Seq<EventView>>,
    i: int,
)
    requires
        0 <= n <= handles.len(),
        0 <= i < handles.len(),
        forall|j: int|
            0 <= j < i ==> (#[trigger] handles[j]).workflow_id != handles[i].workflow_id
                || handles[j].run_id != handles[i].run_id,
    ensures
        ({
            let after = all_reconciled(handles, n, histories);
            &&& after.len() == handles.len()
            &&& after[i] == (HandleView {
                cached_status: after[i].cached_status,
                ..handles[i]
            })
            &&& i < n ==> after[i].cached_status == status_of(
                history_in(histories, handles[i].workflow_id),
            )
        }),
    decreases n,
{
    if n > 0 {
        listings_bring_live_runs_up_to_date(handles, n - 1, histories, i);
        let earlier = all_reconciled(handles, n - 1, histories);
        let id = handles[n - 1].workflow_id;
        let run = handles[n - 1].run_id;
        runs_stay_in_their_places(handles, n - 1, histories);
        let wanted = of_run(id, run);
        first_place_in_range(earlier, wanted);
        if handles[i].workflow_id == id && handles[i].run_id == run {
            assert forall|j: int| 0 <= j < i implies !wanted(#[trigger] earlier[j]) by {
                assert(handles[j].workflow_id == earlier[j].workflow_id);
            }
            first_place_is(earlier, wanted, i);
        }
    }
}

/// Bringing runs up to date keeps every run in its place.
proof fn runs_stay_in_their_places(
    handles: Seq<HandleView>,
    n: int,
    histories: Map<WorkflowId, Seq<EventView>>,
)
    requires
        0 <= n <= handles.len(),
    ensures
        all_reconciled(handles, n, histories).len() == handles.len(),
        forall|j: int|
            0 <= j < handles.len() ==> (#[trigger] all_reconciled(
                handles,
                n,
                histories,
            )[j]).workflow_id == handles[j].workflow_id && all_reconciled(
                handles,
                n,
                histories,
            )[j].run_id == handles[j].run_id,
    decreases n,
{
    if n > 0 {
        runs_stay_in_their_places(handles, n - 1, histories);
        first_place_in_range(
            all_reconciled(handles, n - 1, histories),
            of_run(handles[n - 1].workflow_id, handles[n - 1].run_id),
        );
    }
}

/// A result that cannot be looked up is a failure of the store, one that the process or its end could
/// not give is that failure, and a run whose channel closes before it ended has no result.
pub proof fn missing_results_are_failures<S: EventStore, V, L>(
    engine: EngineView<S, V, L>,
    id: WorkflowId,
    run: RunId,
    refusal: EngineError,
)
    ensures
        ({
            let failure = failing(
                engine.store.failures(),
                StoreCall::ReadHistory { workflow_id: id },
            );
            &&& failure matches Some(error) ==> result_step(engine, id, run, ResultEvent::Asked)
                == Err::<ResultStepView, EngineErrorView>(EngineErrorView::Store(error))
                && result_step(engine, id, run, ResultEvent::ChannelClosed) == Err::<
                ResultStepView,
                EngineErrorView,
            >(EngineErrorView::Store(error)) && result_step(
                engine,
                id,
                run,
                ResultEvent::Terminated(Ok(())),
            ) == Err::<ResultStepView, EngineErrorView>(EngineErrorView::Store(error))
            &&& result_step(engine, id, run, ResultEvent::ProcessEnded(Err(refusal))) == Err::<
                ResultStepView,
                EngineErrorView,
            >(refusal@)
            &&& result_step(engine, id, run, ResultEvent::Terminated(Err(refusal))) == Err::<
                ResultStepView,
                EngineErrorView,
            >(refusal@)
            &&& failure is None && run_outcome(history_in(engine.store.histories(), id), run) is None
                ==> (result_step(engine, id, run, ResultEvent::ChannelClosed) matches Err(error)
                && error is Runtime)
        }),
{
}

/// An operation that passes is run as it was asked for, and returns what it ended with.
pub proof fn operations_return_what_they_end_with<Q, T>(
    refused: bool,
    request: Q,
    value: T,
    error: EngineError,
)
    ensures
        operation_step::<Q, T>(false, OperationEvent::Asked(request)) == Ok::<
            OperationStep<Q, T>,
            EngineError,
        >(OperationStep::Run(request)),
        operation_step::<Q, T>(true, OperationEvent::Asked(request)) == Err::<
            OperationStep<Q, T>,
            EngineError,
        >(EngineError::ShuttingDown),
        operation_step::<Q, T>(refused, OperationEvent::Ended(Ok(value))) == Ok::<
            OperationStep<Q, T>,
            EngineError,
        >(OperationStep::Done(value)),
        operation_step::<Q, T>(refused, OperationEvent::Ended(Err(error))) == Err::<
            OperationStep<Q, T>,
            EngineError,
        >(error),
{
}

/// An operation on a run that is not live is refused before it passes the shutdown gate; one on a live
/// run passes and is run as it was asked for.
pub proof fn operations_need_a_live_run<S: EventStore, V, L, Q, T>(
    before: EngineView<S, V, L>,
    after: EngineView<S, V, L>,
    id: WorkflowId,
    run: RunId,
    request: Q,
    step: Result<OperationStep<Q, T>, EngineError>,
)
    requires
        passed_on_live_run(before, after, id, run, OperationEvent::Asked(request), step),
    ensures
        ({
            let live = exists|i: int|
                0 <= i < before.handles.len() && (#[trigger] before.handles[i]).workflow_id == id
                    && before.handles[i].run_id == run;
            &&& live <==> step is Ok
            &&& live ==> step == Ok::<OperationStep<Q, T>, EngineError>(OperationStep::Run(request))
                && after.gate.active == before.gate.active + 1
            &&& !live ==> after == before && step->Err_0@ == (EngineErrorView::WorkflowNotFound {
                workflow_type: run_text(id, run),
            })
        }),
{
    let wanted = of_run(id, run);
    first_place_in_range(before.handles, wanted);
    let place = first_place(before.handles, wanted);
    if place < before.handles.len() {
        assert(wanted(before.handles[place]));
        assert(before.handles[place].workflow_id == id);
    } else {
        assert forall|i: int| 0 <= i < before.handles.len() implies !(
        (#[trigger] before.handles[i]).workflow_id == id && before.handles[i].run_id == run) by {
            if wanted(before.handles[i]) {
                places_reach_no_further(before.handles, wanted, i);
            }
        }
    }
}

/// The first place is no further than any place with the property.
proof fn places_reach_no_further(
    handles: Seq<HandleView>,
    wanted: spec_fn(HandleView) -> bool,
    i: int,
)
    requires
        0 <= i < handles.len(),
        wanted(handles[i]),
    ensures
        first_place(handles, wanted) <= i,
    decreases handles.len(),
{
    if !wanted(handles[0]) {
        assert(handles.drop_first()[i - 1] == handles[i]);
        places_reach_no_further(handles.drop_first(), wanted, i - 1);
    }
}

/// A listing that cannot read the history of a live run ends with the first such run: there is one such
/// place at most.
pub proof fn listings_end_at_the_first_unreadable_run(
    handles: Seq<HandleView>,
    failures: Map<StoreCall, StoreErrorView>,
    place: int,
    other: int,
)
    requires
        unreadable_at(handles, failures, place),
    ensures
        failing(
            failures,
            StoreCall::ReadHistory { workflow_id: handles[place].workflow_id },
        ) is Some,
        0 <= other < place ==> failing(
            failures,
            StoreCall::ReadHistory { workflow_id: handles[other].workflow_id },
        ) is None,
        unreadable_at(handles, failures, other) ==> other == place,
{
    if 0 <= other < place {
        assert(read_failure(handles, failures, other) is None);
    }
    if unreadable_at(handles, failures, other) && place < other {
        assert(read_failure(handles, failures, place) is None);
    }
}

/// The summary that a live run adds to a listing: that of its workflow's history, where the filter selects
/// it.
pub open spec fn live_summary(
    handle: HandleView,
    histories: Map<WorkflowId, Seq<EventView>>,
    filter: WorkflowFilterView,
) -> Option<WorkflowSummaryView> {
    match summary_of(history_in(histories, handle.workflow_id)) {
        Some(summary) if filter.matches(summary) => Some(summary),
        _ => None,
    }
}

/// A listing tells of a workflow what the last live run with a selected summary of it tells, and where no
/// live run has one what was stored.
pub proof fn live_runs_are_told_over_stored_ones(
    base: Map<WorkflowId, WorkflowSummaryView>,
    handles: Seq<HandleView>,
    n: int,
    histories: Map<WorkflowId, Seq<EventView>>,
    filter: WorkflowFilterView,
    id: WorkflowId,
    last: int,
)
    requires
        0 <= n <= handles.len(),
        -1 <= last < n,
        last >= 0 ==> (live_summary(handles[last], histories, filter) matches Some(summary)
            && summary.workflow_id == id),
        forall|i: int|
            last < i < n ==> !(live_summary(#[trigger] handles[i], histories, filter) matches Some(
                summary,
            ) && summary.workflow_id == id),
    ensures
        ({
            let told = overlaid(base, handles, n, histories, filter);
            &&& last >= 0 ==> told.contains_key(id) && Some(told[id]) == live_summary(
                handles[last],
                histories,
                filter,
            )
            &&& last < 0 ==> (told.contains_key(id) <==> base.contains_key(id))
            &&& last < 0 && base.contains_key(id) ==> told[id] == base[id]
        }),
    decreases n,
{
    if n > 0 && last < n - 1 {
        live_runs_are_told_over_stored_ones(base, handles, n - 1, histories, filter, id, last);
        assert(!(live_summary(handles[n - 1], histories, filter) matches Some(summary)
            && summary.workflow_id == id));
    }
}

/// The histories of the first live runs can be read exactly when the store fails the request for none of
/// them.
pub proof fn readable_runs_have_readable_histories(
    handles: Seq<HandleView>,
    failures: Map<StoreCall, StoreErrorView>,
    n: int,
)
    ensures
        readable(handles, failures, n) <==> forall|place: int|
            0 <= place < n ==> failing(
                failures,
                StoreCall::ReadHistory { workflow_id: (#[trigger] handles[place]).workflow_id },
            ) is None,
{
    if readable(handles, failures, n) {
        assert forall|place: int| 0 <= place < n implies failing(
            failures,
            StoreCall::ReadHistory { workflow_id: (#[trigger] handles[place]).workflow_id },
        ) is None by {
            assert(read_failure(handles, failures, place) is None);
        }
    }
    if forall|place: int|
        0 <= place < n ==> failing(
            failures,
            StoreCall::ReadHistory { workflow_id: (#[trigger] handles[place]).workflow_id },
        ) is None {
        assert forall|place: int| 0 <= place < n implies #[trigger] read_failure(
            handles,
            failures,
            place,
        ) is None by {
            let handle = handles[place];
        }
    }
}

/// Histories are kept under their own workflows where every one that has a start was started by the
/// workflow that it is kept under.
pub proof fn started_histories_are_their_own(histories: Map<WorkflowId, Seq<EventView>>)
    requires
        forall|id: WorkflowId| #[trigger]
            histories.contains_key(id) ==> (summary_of(histories[id]) matches Some(summary)
                ==> summary.workflow_id == id),
    ensures
        own_histories(histories),
{
}

} // verus!
