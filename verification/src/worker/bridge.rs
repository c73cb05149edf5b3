//! Routing of activities to connected workers.
//!
//! A dispatch is a [`DispatchFlow`]: at every step it says what the calling thread has to do (wait
//! for a worker, send a task, wait for a result), and the thread reports what came of it. The
//! registry, the waiting results and the in-flight tasks belong to the
//! [`WorkerActivityDispatcher`], which may change between two steps of a flow: other dispatches,
//! arriving results and lost workers all act on it.

use vstd::prelude::*;
use vstd::slice::slice_to_vec;
use vstd::string::*;
use vstd::utf8::encode_utf8;

use crate::ids::{hyphenated, ActivityId, WorkflowId};
use crate::table::{Key, Table};
use crate::text::{decimal, joined};
use crate::worker::dispatch::{lost_worker_error, lost_worker_message, WirePayload};
use crate::worker::pending::{pending_key, result_texts, PendingActivities, PendingView};
use crate::worker::registry::{
    only_matching_workers_are_offered, rotation_step, without, ConnectedWorkerRegistry, RegistryView, WorkerHandle, WorkerId,
};

verus! {

/// A task that a worker is working on.
#[derive(Clone, Copy, Debug, PartialEq, Eq, Structural)]
pub struct InFlightActivity {
    /// The worker.
    pub worker_id: WorkerId,
    /// Owning workflow.
    pub workflow_id: WorkflowId,
    /// The activity.
    pub activity_id: ActivityId,
}

impl View for InFlightActivity {
    type V = InFlightActivity;

    open spec fn view(&self) -> InFlightActivity {
        *self
    }
}

impl Key for InFlightActivity {
    fn same_key(&self, other: &Self) -> (same: bool) {
        *self == *other
    }
}

/// The tasks that workers are working on.
#[derive(Debug)]
pub struct HeartbeatTracker {
    tasks: Table<InFlightActivity, ()>,
}

impl View for HeartbeatTracker {
    type V = Set<InFlightActivity>;

    closed spec fn view(&self) -> Set<InFlightActivity> {
        self.tasks@.dom()
    }
}

impl HeartbeatTracker {
    /// No tasks.
    pub fn new() -> (tracker: Self)
        ensures
            tracker@ == Set::<InFlightActivity>::empty(),
    {
        let tracker = HeartbeatTracker { tasks: Table::new() };
        assert(tracker@ =~= Set::<InFlightActivity>::empty());
        tracker
    }

    /// A worker was given a task.
    pub fn track_task(&mut self, task: InFlightActivity)
        ensures
            final(self)@ == old(self)@.insert(task),
    {
        let _ = self.tasks.insert(task, ());
        assert(self@ =~= old(self)@.insert(task));
    }

    /// A worker is done with a task, or never got it.
    pub fn complete_task(&mut self, task: InFlightActivity)
        ensures
            final(self)@ == old(self)@.remove(task),
    {
        let _ = self.tasks.remove(&task);
        assert(self@ =~= old(self)@.remove(task));
    }

    /// Number of tasks.
    pub fn in_flight_count(&self) -> (count: usize)
        ensures
            self@.finite(),
            count == self@.len(),
    {
        self.tasks.len()
    }
}

/// Whether the server has stopped accepting work.
#[derive(Clone, Copy, Debug, PartialEq, Eq, Structural)]
pub struct DrainState {
    /// Work is refused.
    pub draining: bool,
}

impl DrainState {
    /// Accepting work.
    pub fn new() -> (state: Self)
        ensures
            !state.draining,
    {
        DrainState { draining: false }
    }

    /// Stops accepting work; returns whether it was accepted until now.
    pub fn begin(&mut self) -> (first: bool)
        ensures
            final(self).draining,
            first == !old(self).draining,
    {
        let first = !self.draining;
        self.draining = true;
        first
    }

    /// Refuses work while draining.
    pub fn ensure_accepting(&self, namespace: &str, activity_type: &str) -> (accepting: Result<
        (),
        String,
    >)
        ensures
            match accepting {
                Ok(()) => !self.draining,
                Err(reason) => self.draining && reason@ == drain_refusal(
                    namespace@,
                    activity_type@,
                ),
            },
    {
        if self.draining {
            let mut reason = joined("worker dispatch failed in namespace `", namespace);
            reason.append("` for activity type `");
            reason.append(activity_type);
            reason.append("`: server is draining");
            Err(reason)
        } else {
            Ok(())
        }
    }
}

/// The refusal of work while draining.
pub open spec fn drain_refusal(namespace: Seq<char>, activity_type: Seq<char>) -> Seq<char> {
    "worker dispatch failed in namespace `"@ + namespace + "` for activity type `"@ + activity_type
        + "`: server is draining"@
}

/// Reason of a dispatch that reached no worker.
pub open spec fn all_workers_closed() -> Seq<char> {
    "all matching worker streams closed before task could be delivered"@
}

/// An activity to dispatch.
#[derive(Debug, PartialEq, Eq)]
pub struct ActivityDispatch {
    /// Namespace.
    pub namespace: String,
    /// Owning workflow.
    pub workflow_id: WorkflowId,
    /// The activity.
    pub activity_id: ActivityId,
    /// Activity type.
    pub name: String,
    /// JSON text of the input.
    pub input: String,
    /// Attempt, starting at one.
    pub attempt: u32,
    /// Labels, by name.
    pub labels: Vec<(String, String)>,
}

/// A task as a worker gets it.
#[derive(Debug, PartialEq, Eq)]
pub struct ActivityTask {
    /// Text of the workflow identifier.
    pub workflow_id: String,
    /// Activity ordinal.
    pub activity_id: u64,
    /// Activity type.
    pub activity_type: String,
    /// Input.
    pub input: WirePayload,
    /// Attempt.
    pub attempt: u32,
    /// Labels.
    pub labels: Vec<(String, String)>,
}

/// The task of a dispatch.
pub fn activity_task(
    activity_type: &str,
    input: &str,
    workflow_id: &WorkflowId,
    activity_id: &ActivityId,
    attempt: u32,
    labels: Vec<(String, String)>,
) -> (task: ActivityTask)
    ensures
        task.workflow_id@ == hyphenated(workflow_id.value),
        task.activity_id == activity_id.position,
        task.activity_type@ == activity_type@,
        task.input.content_type@ == "application/json"@,
        task.input.bytes@ == encode_utf8(input@),
        task.attempt == attempt,
        task.labels == labels,
{
    ActivityTask {
        workflow_id: workflow_id.to_string(),
        activity_id: activity_id.position,
        activity_type: activity_type.to_owned(),
        input: WirePayload {
            content_type: "application/json".to_owned(),
            bytes: slice_to_vec(input.as_bytes()),
        },
        attempt,
        labels,
    }
}

/// What the thread of a dispatch has to do next.
#[derive(Debug, PartialEq, Eq)]
pub enum DispatchStep {
    /// Wait until a worker registers, then resume.
    WaitForWorker,
    /// Try to send the task over a channel.
    Send {
        /// Worker behind the channel.
        worker_id: WorkerId,
        /// The channel.
        channel: u64,
    },
    /// Wait for the result, however long it takes.
    Await {
        /// Worker that has the task.
        worker_id: WorkerId,
    },
    /// Look whether a result is there already: the worker is gone.
    Poll {
        /// Worker that was lost.
        worker_id: WorkerId,
    },
    /// Return the result.
    Finished {
        /// The result.
        result: Result<String, String>,
    },
}

/// Mathematical value of a [`DispatchStep`].
pub enum DispatchStepView {
    /// Wait until a worker registers.
    WaitForWorker,
    /// Try to send the task.
    Send {
        /// Worker behind the channel.
        worker_id: WorkerId,
        /// The channel.
        channel: u64,
    },
    /// Wait for the result.
    Await {
        /// Worker that has the task.
        worker_id: WorkerId,
    },
    /// Look whether a result is there already.
    Poll {
        /// Worker that was lost.
        worker_id: WorkerId,
    },
    /// Return the result.
    Finished {
        /// The result.
        result: Result<Seq<char>, Seq<char>>,
    },
}

impl View for DispatchStep {
    type V = DispatchStepView;

    open spec fn view(&self) -> DispatchStepView {
        match *self {
            DispatchStep::WaitForWorker => DispatchStepView::WaitForWorker,
            DispatchStep::Send { worker_id, channel } => DispatchStepView::Send {
                worker_id,
                channel,
            },
            DispatchStep::Await { worker_id } => DispatchStepView::Await { worker_id },
            DispatchStep::Poll { worker_id } => DispatchStepView::Poll { worker_id },
            DispatchStep::Finished { result } => DispatchStepView::Finished {
                result: result_texts(result),
            },
        }
    }
}

/// One dispatch under way.
#[derive(Debug, PartialEq, Eq)]
pub struct DispatchFlow {
    namespace: String,
    activity_type: String,
    workflow_id: WorkflowId,
    activity_id: ActivityId,
    ticket: u64,
    candidates: Vec<WorkerHandle>,
    position: usize,
    step: DispatchStep,
}

/// Mathematical value of a [`DispatchFlow`].
#[verifier::ext_equal]
pub struct DispatchFlowView {
    /// Namespace of the activity.
    pub namespace: Seq<char>,
    /// Type of the activity.
    pub activity_type: Seq<char>,
    /// Owning workflow.
    pub workflow_id: WorkflowId,
    /// The activity.
    pub activity_id: ActivityId,
    /// Ticket under which the result arrives.
    pub ticket: u64,
    /// Workers to try, each with its channel.
    pub candidates: Seq<(WorkerId, u64)>,
    /// Position of the candidate that is being tried.
    pub position: nat,
    /// What to do next.
    pub step: DispatchStepView,
}

/// Number and channel of every worker of a list.
pub open spec fn candidates_of(workers: Seq<WorkerHandle>) -> Seq<(WorkerId, u64)> {
    workers.map_values(|worker: WorkerHandle| (worker.number(), worker@.channel))
}

impl View for DispatchFlow {
    type V = DispatchFlowView;

    closed spec fn view(&self) -> DispatchFlowView {
        DispatchFlowView {
            namespace: self.namespace@,
            activity_type: self.activity_type@,
            workflow_id: self.workflow_id,
            activity_id: self.activity_id,
            ticket: self.ticket,
            candidates: candidates_of(self.candidates@),
            position: self.position as nat,
            step: self.step@,
        }
    }
}

impl DispatchFlow {
    #[verifier::type_invariant]
    spec fn tries_a_candidate(self) -> bool {
        self.step is Send ==> self.position < self.candidates.len()
    }

    /// What to do next.
    pub fn step(&self) -> (step: &DispatchStep)
        ensures
            step@ == self@.step,
    {
        &self.step
    }

    /// Ticket under which the result arrives.
    pub fn ticket(&self) -> (ticket: u64)
        ensures
            ticket == self@.ticket,
    {
        self.ticket
    }

    /// The result, once there is nothing left to do.
    pub fn into_result(self) -> (result: Option<Result<String, String>>)
        ensures
            match self@.step {
                DispatchStepView::Finished { result: texts } => result matches Some(r)
                    && result_texts(r) == texts,
                _ => result is None,
            },
    {
        match self.step {
            DispatchStep::Finished { result } => Some(result),
            _ => None,
        }
    }

    fn finish(self, result: Result<String, String>) -> (next: Self)
        ensures
            next@ == finished(self@, result_texts(result)),
    {
        DispatchFlow { step: DispatchStep::Finished { result }, ..self }
    }
}

/// The flow, with nothing left to do but to return the result.
pub open spec fn finished(
    flow: DispatchFlowView,
    result: Result<Seq<char>, Seq<char>>,
) -> DispatchFlowView {
    DispatchFlowView { step: DispatchStepView::Finished { result }, ..flow }
}

/// Dispatcher that routes activities to connected workers.
pub struct WorkerActivityDispatcher {
    /// Connected workers.
    pub registry: ConnectedWorkerRegistry,
    /// Namespace named in refusals.
    pub namespace: String,
    /// Dispatches that wait for a result.
    pub pending: PendingActivities,
    /// Tasks that workers are working on.
    pub heartbeat_tracker: HeartbeatTracker,
    /// Whether work is refused.
    pub drain_state: DrainState,
}

/// Mathematical value of a [`WorkerActivityDispatcher`].
#[verifier::ext_equal]
pub struct DispatcherView {
    /// Connected workers.
    pub registry: RegistryView,
    /// Namespace named in refusals.
    pub namespace: Seq<char>,
    /// Dispatches that wait for a result.
    pub pending: PendingView,
    /// Tasks that workers are working on.
    pub in_flight: Set<InFlightActivity>,
    /// Whether work is refused.
    pub draining: bool,
}

impl View for WorkerActivityDispatcher {
    type V = DispatcherView;

    open spec fn view(&self) -> DispatcherView {
        DispatcherView {
            registry: self.registry@,
            namespace: self.namespace@,
            pending: self.pending@,
            in_flight: self.heartbeat_tracker@,
            draining: self.drain_state.draining,
        }
    }
}

/// The task of a flow with a given worker.
pub open spec fn flow_task(flow: DispatchFlowView, worker_id: WorkerId) -> InFlightActivity {
    InFlightActivity { worker_id, workflow_id: flow.workflow_id, activity_id: flow.activity_id }
}

/// The dispatcher without the waiting entry of a flow.
pub open spec fn abandoned(
    dispatcher: DispatcherView,
    flow: DispatchFlowView,
) -> DispatcherView {
    DispatcherView {
        pending: PendingView {
            entries: dispatcher.pending.entries.remove(
                pending_key(flow.workflow_id, flow.activity_id),
            ),
            ..dispatcher.pending
        },
        ..dispatcher
    }
}

/// The dispatcher without the waiting entry of a flow and without its task.
pub open spec fn cleaned_up(
    dispatcher: DispatcherView,
    flow: DispatchFlowView,
    worker_id: WorkerId,
) -> DispatcherView {
    let rest = abandoned(dispatcher, flow);
    DispatcherView { in_flight: rest.in_flight.remove(flow_task(flow, worker_id)), ..rest }
}

/// An attempt to place the task with the candidate at a position: the task is tracked and the
/// candidate's channel tried. Behind the last candidate, or while draining, the dispatch fails and
/// its waiting entry is given up.
pub open spec fn attempted(
    dispatcher: DispatcherView,
    flow: DispatchFlowView,
    position: nat,
) -> (DispatcherView, DispatchFlowView) {
    let flow = DispatchFlowView { position, ..flow };
    if position >= flow.candidates.len() {
        (abandoned(dispatcher, flow), finished(flow, Err(all_workers_closed())))
    } else if dispatcher.draining {
        (
            abandoned(dispatcher, flow),
            finished(flow, Err(drain_refusal(dispatcher.namespace, flow.activity_type))),
        )
    } else {
        let (worker_id, channel) = flow.candidates[position as int];
        (
            DispatcherView {
                in_flight: dispatcher.in_flight.insert(flow_task(flow, worker_id)),
                ..dispatcher
            },
            DispatchFlowView { step: DispatchStepView::Send { worker_id, channel }, ..flow },
        )
    }
}

/// One request for the workers of a namespace and type, each with the channel that it registered.
pub open spec fn offers(
    before: RegistryView,
    after: RegistryView,
    key: (Seq<char>, Seq<char>),
    candidates: Seq<(WorkerId, u64)>,
) -> bool {
    &&& rotation_step(
        before,
        after,
        key,
        candidates.map_values(|candidate: (WorkerId, u64)| candidate.0),
    )
    &&& forall|i: int|
        0 <= i < candidates.len() ==> (#[trigger] candidates[i]).1
            == before.workers[candidates[i].0].channel
}

/// What placing a task with given candidates comes to. Without candidates the flow waits for a
/// worker, or fails while draining.
pub open spec fn placed_on(
    dispatcher: DispatcherView,
    flow: DispatchFlowView,
    candidates: Seq<(WorkerId, u64)>,
) -> (DispatcherView, DispatchFlowView) {
    let flow = DispatchFlowView { candidates, ..flow };
    if candidates.len() > 0 {
        attempted(dispatcher, flow, 0)
    } else if dispatcher.draining {
        (
            abandoned(dispatcher, flow),
            finished(flow, Err(drain_refusal(flow.namespace, flow.activity_type))),
        )
    } else {
        (
            dispatcher,
            DispatchFlowView { step: DispatchStepView::WaitForWorker, ..flow },
        )
    }
}

/// The task of a flow is placed with the workers that the registry offers.
pub open spec fn placed(
    before: DispatcherView,
    flow: DispatchFlowView,
    after: DispatcherView,
    next: DispatchFlowView,
) -> bool {
    exists|registry: RegistryView, candidates: Seq<(WorkerId, u64)>| #[trigger]
        offers(before.registry, registry, (flow.namespace, flow.activity_type), candidates) && (
        after,
        next,
    ) == placed_on(DispatcherView { registry, ..before }, flow, candidates)
}

/// A flow that was just accepted, before its task is placed.
pub open spec fn accepted_flow(request: ActivityDispatch, ticket: u64) -> DispatchFlowView {
    DispatchFlowView {
        namespace: request.namespace@,
        activity_type: request.name@,
        workflow_id: request.workflow_id,
        activity_id: request.activity_id,
        ticket,
        candidates: Seq::empty(),
        position: 0,
        step: DispatchStepView::WaitForWorker,
    }
}

/// The dispatcher with a waiting entry for an activity.
pub open spec fn awaiting(
    dispatcher: DispatcherView,
    workflow_id: WorkflowId,
    activity_id: ActivityId,
) -> DispatcherView {
    let ticket = dispatcher.pending.next_ticket;
    DispatcherView {
        pending: PendingView {
            entries: dispatcher.pending.entries.insert(
                pending_key(workflow_id, activity_id),
                ticket,
            ),
            next_ticket: if ticket < u64::MAX {
                (ticket + 1) as u64
            } else {
                0
            },
            deliveries: dispatcher.pending.deliveries,
        },
        ..dispatcher
    }
}

/// What a flow comes to once the outcome of its send is known. A worker whose channel took the
/// task has it: if that worker is still registered the result is waited for, and otherwise it is
/// either there already or never comes. A worker whose channel did not is untracked and removed,
/// and the next candidate is tried.
pub open spec fn after_send(
    dispatcher: DispatcherView,
    flow: DispatchFlowView,
    sent: bool,
) -> (DispatcherView, DispatchFlowView) {
    match flow.step {
        DispatchStepView::Send { worker_id, .. } => if sent {
            (
                dispatcher,
                DispatchFlowView {
                    step: if dispatcher.registry.workers.contains_key(worker_id) {
                        DispatchStepView::Await { worker_id }
                    } else {
                        DispatchStepView::Poll { worker_id }
                    },
                    ..flow
                },
            )
        } else {
            attempted(
                DispatcherView {
                    registry: without(dispatcher.registry, worker_id),
                    in_flight: dispatcher.in_flight.remove(flow_task(flow, worker_id)),
                    ..dispatcher
                },
                flow,
                flow.position + 1,
            )
        },
        _ => (dispatcher, flow),
    }
}

/// What a flow comes to once it is known whether a result arrived under its ticket.
pub open spec fn after_reply(
    dispatcher: DispatcherView,
    flow: DispatchFlowView,
    reply: Option<Result<Seq<char>, Seq<char>>>,
) -> (DispatcherView, DispatchFlowView) {
    match flow.step {
        DispatchStepView::Await { worker_id } => match reply {
            Some(result) => (abandoned(dispatcher, flow), finished(flow, result)),
            None => (
                cleaned_up(dispatcher, flow, worker_id),
                finished(flow, Err("activity response channel dropped"@)),
            ),
        },
        DispatchStepView::Poll { worker_id } => match reply {
            Some(result) => (abandoned(dispatcher, flow), finished(flow, result)),
            None => (
                cleaned_up(dispatcher, flow, worker_id),
                finished(flow, Err("retryable:"@ + lost_worker_message(worker_id))),
            ),
        },
        _ => (dispatcher, flow),
    }
}

impl WorkerActivityDispatcher {
    /// A dispatcher over a registry and a tracker, accepting work.
    pub fn new(
        registry: ConnectedWorkerRegistry,
        namespace: &str,
        heartbeat_tracker: HeartbeatTracker,
    ) -> (dispatcher: Self)
        ensures
            dispatcher@ == (DispatcherView {
                registry: registry@,
                namespace: namespace@,
                pending: PendingView {
                    entries: Map::empty(),
                    next_ticket: 0,
                    deliveries: Seq::empty(),
                },
                in_flight: heartbeat_tracker@,
                draining: false,
            }),
    {
        WorkerActivityDispatcher {
            registry,
            namespace: namespace.to_owned(),
            pending: PendingActivities::new(),
            heartbeat_tracker,
            drain_state: DrainState::new(),
        }
    }

    /// The same dispatcher over the given waiting dispatches.
    pub fn with_pending(self, pending: PendingActivities) -> (dispatcher: Self)
        ensures
            dispatcher@ == (DispatcherView { pending: pending@, ..self@ }),
    {
        WorkerActivityDispatcher { pending, ..self }
    }

    /// The same dispatcher with the given drain gate.
    pub fn with_drain_state(self, drain_state: DrainState) -> (dispatcher: Self)
        ensures
            dispatcher@ == (DispatcherView { draining: drain_state.draining, ..self@ }),
    {
        WorkerActivityDispatcher { drain_state, ..self }
    }

    fn abandon_pending(&mut self, workflow_id: &WorkflowId, activity_id: &ActivityId)
        ensures
            final(self)@ == (DispatcherView {
                pending: PendingView {
                    entries: old(self)@.pending.entries.remove(
                        pending_key(*workflow_id, *activity_id),
                    ),
                    ..old(self)@.pending
                },
                ..old(self)@
            }),
    {
        self.pending.remove(workflow_id, activity_id);
    }

    fn cleanup_activity(
        &mut self,
        worker_id: WorkerId,
        workflow_id: WorkflowId,
        activity_id: ActivityId,
    )
        ensures
            final(self)@ == (DispatcherView {
                pending: PendingView {
                    entries: old(self)@.pending.entries.remove(
                        pending_key(workflow_id, activity_id),
                    ),
                    ..old(self)@.pending
                },
                in_flight: old(self)@.in_flight.remove(
                    InFlightActivity { worker_id, workflow_id, activity_id },
                ),
                ..old(self)@
            }),
    {
        self.pending.remove(&workflow_id, &activity_id);
        self.heartbeat_tracker.complete_task(
            InFlightActivity { worker_id, workflow_id, activity_id },
        );
    }

    fn try_candidate(&mut self, flow: DispatchFlow, position: usize) -> (next: DispatchFlow)
        ensures
            (final(self)@, next@) == attempted(old(self)@, flow@, position as nat),
    {
        let flow = DispatchFlow { position, step: DispatchStep::WaitForWorker, ..flow };
        if position >= flow.candidates.len() {
            self.abandon_pending(&flow.workflow_id, &flow.activity_id);
            return flow.finish(
                Err(
                    "all matching worker streams closed before task could be delivered".to_owned(),
                ),
            );
        }
        if let Err(reason) = self.drain_state.ensure_accepting(
            self.namespace.as_str(),
            flow.activity_type.as_str(),
        ) {
            self.abandon_pending(&flow.workflow_id, &flow.activity_id);
            return flow.finish(Err(reason));
        }
        let worker_id = flow.candidates[position].id();
        let channel = flow.candidates[position].sender();
        self.heartbeat_tracker.track_task(
            InFlightActivity {
                worker_id,
                workflow_id: flow.workflow_id,
                activity_id: flow.activity_id,
            },
        );
        DispatchFlow { step: DispatchStep::Send { worker_id, channel }, ..flow }
    }

    /// Places the task of a flow: asks the registry for workers and tries the first. While there is
    /// none the flow waits; resuming it after the wait places the task again.
    pub fn place_activity(&mut self, flow: DispatchFlow) -> (next: DispatchFlow)
        ensures
            placed(old(self)@, flow@, final(self)@, next@),
    {
        let ghost before = self@;
        let ghost start = flow@;
        let workers = self.registry.workers_for(
            flow.namespace.as_str(),
            flow.activity_type.as_str(),
        );
        let ghost candidates = candidates_of(workers@);
        let ghost asked = self@;
        proof {
            assert(candidates.map_values(|candidate: (WorkerId, u64)| candidate.0)
                =~= crate::worker::registry::handle_numbers(workers@));
            assert forall|i: int| 0 <= i < candidates.len() implies (#[trigger] candidates[i]).1
                == before.registry.workers[candidates[i].0].channel by {
                assert(workers@[i]@ == before.registry.workers[workers@[i].number()]);
            }
            assert(offers(
                before.registry,
                asked.registry,
                (start.namespace, start.activity_type),
                candidates,
            ));
            assert(asked == (DispatcherView { registry: asked.registry, ..before }));
        }
        let found = workers.len();
        let flow = DispatchFlow { candidates: workers, step: DispatchStep::WaitForWorker, ..flow };
        let next = if found > 0 {
            self.try_candidate(flow, 0)
        } else {
            match self.drain_state.ensure_accepting(
                flow.namespace.as_str(),
                flow.activity_type.as_str(),
            ) {
                Ok(()) => flow,
                Err(reason) => {
                    self.abandon_pending(&flow.workflow_id, &flow.activity_id);
                    flow.finish(Err(reason))
                },
            }
        };
        proof {
            assert((self@, next@) == placed_on(asked, start, candidates));
        }
        next
    }

    /// Starts a dispatch. The waiting entry is registered before the task is placed, so that a fast
    /// result finds it. While draining nothing is registered.
    pub fn dispatch_blocking(&mut self, request: &ActivityDispatch) -> (flow: DispatchFlow)
        ensures
            old(self)@.draining ==> final(self)@ == old(self)@ && flow@ == finished(
                accepted_flow(*request, 0),
                Err(drain_refusal(request.namespace@, request.name@)),
            ),
            !old(self)@.draining ==> placed(
                awaiting(old(self)@, request.workflow_id, request.activity_id),
                accepted_flow(*request, old(self)@.pending.next_ticket),
                final(self)@,
                flow@,
            ),
    {
        let mut flow = DispatchFlow {
            namespace: request.namespace.clone(),
            activity_type: request.name.clone(),
            workflow_id: request.workflow_id,
            activity_id: request.activity_id,
            ticket: 0,
            candidates: Vec::new(),
            position: 0,
            step: DispatchStep::WaitForWorker,
        };
        proof {
            assert(candidates_of(flow.candidates@) =~= Seq::empty());
        }
        match self.drain_state.ensure_accepting(
            request.namespace.as_str(),
            request.name.as_str(),
        ) {
            Err(reason) => flow.finish(Err(reason)),
            Ok(()) => {
                let ghost before = self@;
                flow.ticket = self.pending.insert(request.workflow_id, request.activity_id);
                proof {
                    assert(self@ == awaiting(before, request.workflow_id, request.activity_id));
                    assert(flow@ == accepted_flow(*request, before.pending.next_ticket));
                }
                self.place_activity(flow)
            },
        }
    }

    /// Reports whether the channel took the task.
    pub fn on_sent(&mut self, flow: DispatchFlow, sent: bool) -> (next: DispatchFlow)
        ensures
            (final(self)@, next@) == after_send(old(self)@, flow@, sent),
    {
        proof {
            use_type_invariant(&flow);
        }
        let worker_id = match flow.step {
            DispatchStep::Send { worker_id, .. } => worker_id,
            _ => {
                return flow;
            },
        };
        if sent {
            let step = if self.registry.is_registered(worker_id) {
                DispatchStep::Await { worker_id }
            } else {
                DispatchStep::Poll { worker_id }
            };
            return DispatchFlow { step, ..flow };
        }
        self.heartbeat_tracker.complete_task(
            InFlightActivity {
                worker_id,
                workflow_id: flow.workflow_id,
                activity_id: flow.activity_id,
            },
        );
        self.registry.deregister(worker_id);
        let position = flow.position + 1;
        self.try_candidate(flow, position)
    }

    /// Reports the result that arrived under the ticket of the flow, or that none did.
    pub fn await_activity_result(
        &mut self,
        flow: DispatchFlow,
        reply: Option<Result<String, String>>,
    ) -> (next: DispatchFlow)
        ensures
            (final(self)@, next@) == after_reply(
                old(self)@,
                flow@,
                match reply {
                    Some(result) => Some(result_texts(result)),
                    None => None,
                },
            ),
    {
        let (worker_id, lost) = match flow.step {
            DispatchStep::Await { worker_id } => (worker_id, false),
            DispatchStep::Poll { worker_id } => (worker_id, true),
            _ => {
                return flow;
            },
        };
        match reply {
            Some(result) => {
                self.abandon_pending(&flow.workflow_id, &flow.activity_id);
                flow.finish(result)
            },
            None => {
                self.cleanup_activity(worker_id, flow.workflow_id, flow.activity_id);
                let reason = if lost {
                    joined("retryable:", lost_worker_error(worker_id).message.as_str())
                } else {
                    "activity response channel dropped".to_owned()
                };
                flow.finish(Err(reason))
            },
        }
    }
}

/// A dispatch that fails to be placed leaves nothing behind: its waiting entry is gone, no task is
/// tracked for it, and the registry is as before.
pub proof fn failed_placement_leaves_nothing_behind(
    dispatcher: DispatcherView,
    flow: DispatchFlowView,
    candidates: Seq<(WorkerId, u64)>,
)
    requires
        placed_on(dispatcher, flow, candidates).1.step is Finished,
    ensures
        placed_on(dispatcher, flow, candidates).1.step->Finished_result is Err,
        !placed_on(dispatcher, flow, candidates).0.pending.entries.contains_key(
            pending_key(flow.workflow_id, flow.activity_id),
        ),
        placed_on(dispatcher, flow, candidates).0.in_flight == dispatcher.in_flight,
        placed_on(dispatcher, flow, candidates).0.registry == dispatcher.registry,
{
}

/// A worker whose channel is closed is removed and no longer tracked, and the dispatch either tries
/// the next candidate or fails and gives up its waiting entry.
pub proof fn closed_worker_is_left_behind(dispatcher: DispatcherView, flow: DispatchFlowView)
    requires
        flow.step is Send,
    ensures
        ({
            let worker_id = flow.step->Send_worker_id;
            let (after, next) = after_send(dispatcher, flow, false);
            &&& !after.registry.workers.contains_key(worker_id)
            &&& match next.step {
                DispatchStepView::Send { worker_id: other, .. } => {
                    &&& other == flow.candidates[flow.position as int + 1].0
                    &&& after.in_flight == dispatcher.in_flight.remove(
                        flow_task(flow, worker_id),
                    ).insert(flow_task(flow, other))
                    &&& after.pending == dispatcher.pending
                },
                DispatchStepView::Finished { result } => {
                    &&& result is Err
                    &&& !after.in_flight.contains(flow_task(flow, worker_id))
                    &&& !after.pending.entries.contains_key(
                        pending_key(flow.workflow_id, flow.activity_id),
                    )
                },
                _ => false,
            }
        }),
{
}

/// A dispatch that ends while waiting for its result leaves no waiting entry; if it ends without a
/// result its task is no longer tracked.
pub proof fn ended_wait_leaves_no_entry(
    dispatcher: DispatcherView,
    flow: DispatchFlowView,
    reply: Option<Result<Seq<char>, Seq<char>>>,
)
    requires
        flow.step is Await || flow.step is Poll,
    ensures
        ({
            let (after, next) = after_reply(dispatcher, flow, reply);
            &&& next.step is Finished
            &&& !after.pending.entries.contains_key(
                pending_key(flow.workflow_id, flow.activity_id),
            )
            &&& reply matches Some(result) ==> next.step->Finished_result == result
                && after.in_flight == dispatcher.in_flight
            &&& reply is None ==> next.step->Finished_result is Err && !after.in_flight.contains(
                flow_task(
                    flow,
                    if flow.step is Await {
                        flow.step->Await_worker_id
                    } else {
                        flow.step->Poll_worker_id
                    },
                ),
            )
        }),
{
}

/// Kind of thread that a dispatch is called on.
#[derive(Debug, PartialEq, Eq)]
pub enum CallingThread {
    /// A thread outside any asynchronous runtime.
    Plain,
    /// A thread of a multi-thread runtime.
    MultiThreadRuntime,
    /// A thread of a runtime of another flavor.
    OtherRuntime {
        /// Name of the flavor.
        flavor: String,
    },
}

/// How a dispatch may block the calling thread.
#[derive(Clone, Copy, Debug, PartialEq, Eq, Structural)]
pub enum BlockingMode {
    /// Block right away.
    Direct,
    /// Hand the thread's other tasks over first.
    InPlace,
}

/// Why a runtime that is not multi-threaded cannot host the wait.
pub open spec fn flavor_refusal(flavor: Seq<char>) -> Seq<char> {
    "activity dispatch blocks the calling thread until the worker responds; a "@ + flavor
        + " tokio runtime cannot host that wait because the worker stream forwarder shares its only executor thread and the task could never be delivered — run the engine on a multi-thread tokio runtime"@
}

/// How a dispatch may block the calling thread, or why it may not.
pub open spec fn blocking(thread: CallingThread) -> Result<BlockingMode, Seq<char>> {
    match thread {
        CallingThread::Plain => Ok(BlockingMode::Direct),
        CallingThread::MultiThreadRuntime => Ok(BlockingMode::InPlace),
        CallingThread::OtherRuntime { flavor } => Err(flavor_refusal(flavor@)),
    }
}

/// Decides how a dispatch may block: a runtime whose only thread would be blocked is refused.
pub fn dispatch(thread: &CallingThread) -> (mode: Result<BlockingMode, String>)
    ensures
        match blocking(*thread) {
            Ok(allowed) => mode == Ok::<BlockingMode, String>(allowed),
            Err(refusal) => mode matches Err(reason) && reason@ == refusal,
        },
{
    match thread {
        CallingThread::Plain => Ok(BlockingMode::Direct),
        CallingThread::MultiThreadRuntime => Ok(BlockingMode::InPlace),
        CallingThread::OtherRuntime { flavor } => {
            let mut reason = joined(
                "activity dispatch blocks the calling thread until the worker responds; a ",
                flavor.as_str(),
            );
            reason.append(
                " tokio runtime cannot host that wait because the worker stream forwarder shares its only executor thread and the task could never be delivered — run the engine on a multi-thread tokio runtime",
            );
            Err(reason)
        },
    }
}

/// While work is accepted, a task is offered to the candidate at the position over the channel that
/// was looked up for it, and is tracked as that worker's; nothing else changes.
pub proof fn tasks_are_tracked_with_their_candidate(
    dispatcher: DispatcherView,
    flow: DispatchFlowView,
    position: nat,
)
    requires
        !dispatcher.draining,
        position < flow.candidates.len(),
    ensures
        ({
            let (after, next) = attempted(dispatcher, flow, position);
            let worker_id = flow.candidates[position as int].0;
            &&& next.step == DispatchStepView::Send {
                worker_id,
                channel: flow.candidates[position as int].1,
            }
            &&& next.position == position
            &&& after.in_flight == dispatcher.in_flight.insert(
                InFlightActivity {
                    worker_id,
                    workflow_id: flow.workflow_id,
                    activity_id: flow.activity_id,
                },
            )
            &&& after.pending == dispatcher.pending
            &&& after.registry == dispatcher.registry
            &&& after.draining == dispatcher.draining
            &&& next.ticket == flow.ticket
            &&& next.workflow_id == flow.workflow_id
            &&& next.activity_id == flow.activity_id
            &&& next.candidates == flow.candidates
        }),
{
}

/// A dispatch that no candidate is left for fails, and so does one that meets a draining server; only
/// its own waiting entry is given up.
pub proof fn dispatches_without_a_taker_fail(
    dispatcher: DispatcherView,
    flow: DispatchFlowView,
    position: nat,
)
    requires
        position >= flow.candidates.len() || dispatcher.draining,
    ensures
        ({
            let (after, next) = attempted(dispatcher, flow, position);
            &&& position >= flow.candidates.len() ==> next.step == (DispatchStepView::Finished {
                result: Err(
                    "all matching worker streams closed before task could be delivered"@,
                ),
            })
            &&& position < flow.candidates.len() ==> next.step == (DispatchStepView::Finished {
                result: Err(
                    "worker dispatch failed in namespace `"@ + dispatcher.namespace
                        + "` for activity type `"@ + flow.activity_type + "`: server is draining"@,
                ),
            })
            &&& forall|workflow_id: WorkflowId, activity_id: ActivityId|
                workflow_id != flow.workflow_id || activity_id != flow.activity_id ==> (
                after.pending.entries.contains_key(
                    #[trigger] pending_key(workflow_id, activity_id),
                ) <==> dispatcher.pending.entries.contains_key(
                    pending_key(workflow_id, activity_id),
                ))
            &&& !after.pending.entries.contains_key(
                pending_key(flow.workflow_id, flow.activity_id),
            )
            &&& after.in_flight == dispatcher.in_flight
            &&& after.registry == dispatcher.registry
        }),
{
}

/// A task is placed with the first worker that is offered. Where none is, the dispatch waits and
/// changes nothing, and while draining it fails.
pub proof fn placement_starts_with_the_first_offer(
    dispatcher: DispatcherView,
    flow: DispatchFlowView,
    candidates: Seq<(WorkerId, u64)>,
)
    ensures
        ({
            let (after, next) = placed_on(dispatcher, flow, candidates);
            &&& next.step is WaitForWorker <==> candidates.len() == 0 && !dispatcher.draining
            &&& next.step is WaitForWorker ==> after == dispatcher
            &&& next.step is Finished <==> dispatcher.draining
            &&& candidates.len() > 0 && !dispatcher.draining ==> next.step
                == DispatchStepView::Send { worker_id: candidates[0].0, channel: candidates[0].1 }
            &&& next.candidates == candidates
            &&& next.ticket == flow.ticket
        }),
{
}

/// A task that a channel took is waited for while its worker is registered; the reply of a worker
/// that is gone is only looked for. Nothing else changes.
pub proof fn taken_tasks_are_waited_for(dispatcher: DispatcherView, flow: DispatchFlowView)
    requires
        flow.step is Send,
    ensures
        ({
            let worker_id = flow.step->Send_worker_id;
            let (after, next) = after_send(dispatcher, flow, true);
            &&& after == dispatcher
            &&& next.step == DispatchStepView::Await { worker_id }
                <==> dispatcher.registry.workers.contains_key(worker_id)
            &&& next.step == DispatchStepView::Poll { worker_id }
                <==> !dispatcher.registry.workers.contains_key(worker_id)
            &&& next.ticket == flow.ticket
            &&& next.workflow_id == flow.workflow_id
            &&& next.activity_id == flow.activity_id
        }),
{
}

/// A dispatch whose reply never comes says why: the channel was dropped, or the worker was lost, which
/// the caller may retry.
pub proof fn missing_replies_are_explained(dispatcher: DispatcherView, flow: DispatchFlowView)
    ensures
        flow.step is Await ==> after_reply(dispatcher, flow, None).1.step
            == (DispatchStepView::Finished { result: Err("activity response channel dropped"@) }),
        flow.step matches DispatchStepView::Poll { worker_id } ==> after_reply(
            dispatcher,
            flow,
            None,
        ).1.step == (DispatchStepView::Finished {
            result: Err(
                "retryable:"@ + ("worker WorkerId("@ + decimal(worker_id.0 as nat)
                    + ") lost before reporting activity result"@),
            ),
        }),
{
}

/// A dispatch waits under the ticket that was next, which no later dispatch gets: the next ticket is
/// another one. The entries of other activities stay as they were.
pub proof fn dispatches_wait_under_a_new_ticket(
    dispatcher: DispatcherView,
    request: ActivityDispatch,
    other: (u128, u64),
)
    ensures
        ({
            let after = awaiting(dispatcher, request.workflow_id, request.activity_id);
            let ticket = dispatcher.pending.next_ticket;
            let key = pending_key(request.workflow_id, request.activity_id);
            let flow = accepted_flow(request, ticket);
            &&& after.pending.entries.contains_key(key)
            &&& after.pending.entries[key] == flow.ticket
            &&& flow.ticket == ticket
            &&& after.pending.next_ticket != ticket
            &&& ticket < u64::MAX ==> after.pending.next_ticket > ticket
            &&& other != key ==> (after.pending.entries.contains_key(other)
                <==> dispatcher.pending.entries.contains_key(other))
            &&& other != key && dispatcher.pending.entries.contains_key(other)
                ==> after.pending.entries[other] == dispatcher.pending.entries[other]
            &&& after.pending.deliveries == dispatcher.pending.deliveries
            &&& after.registry == dispatcher.registry
            &&& after.in_flight == dispatcher.in_flight
            &&& flow.namespace == request.namespace@
            &&& flow.activity_type == request.name@
            &&& flow.workflow_id == request.workflow_id
            &&& flow.activity_id == request.activity_id
        }),
{
}

/// Every candidate of a placement is a registered worker of the namespace that advertised the type,
/// together with the channel that it registered.
pub proof fn candidates_are_registered_workers(
    before: RegistryView,
    after: RegistryView,
    key: (Seq<char>, Seq<char>),
    candidates: Seq<(WorkerId, u64)>,
    i: int,
)
    requires
        offers(before, after, key, candidates),
        0 <= i < candidates.len(),
    ensures
        before.workers.contains_key(candidates[i].0),
        before.workers[candidates[i].0].namespace == key.0,
        before.workers[candidates[i].0].activity_types.contains(key.1),
        before.workers[candidates[i].0].channel == candidates[i].1,
{
    let offered = candidates.map_values(|candidate: (WorkerId, u64)| candidate.0);
    assert(offered[i] == candidates[i].0);
    only_matching_workers_are_offered(before, after, key, offered, candidates[i].0);
}

/// Only a runtime whose one thread would be blocked is refused, and the refusal names its flavor. A
/// thread of a multi-thread runtime hands its other tasks over, and a thread outside any blocks.
pub proof fn only_single_threads_are_refused(thread: CallingThread)
    ensures
        blocking(thread) is Err <==> thread is OtherRuntime,
        blocking(thread) == Ok::<BlockingMode, Seq<char>>(BlockingMode::Direct) <==> thread is Plain,
        blocking(thread) == Ok::<BlockingMode, Seq<char>>(BlockingMode::InPlace) <==> thread is
            MultiThreadRuntime,
        thread matches CallingThread::OtherRuntime { flavor } ==> ({
            let refusal = blocking(thread)->Err_0;
            exists|before: Seq<char>, after: Seq<char>|
                refusal == #[trigger] ((before + flavor@) + after)
        }),
{
    if let CallingThread::OtherRuntime { flavor } = thread {
        let before =
            "activity dispatch blocks the calling thread until the worker responds; a "@;
        let after =
            " tokio runtime cannot host that wait because the worker stream forwarder shares its only executor thread and the task could never be delivered — run the engine on a multi-thread tokio runtime"@;
        assert(blocking(thread)->Err_0 == (before + flavor@) + after);
    }
}

/// A task that is placed is offered to a registered worker of its namespace that advertised its type, over
/// that worker's channel, and is tracked as that worker's alone; its waiting entry stays. A dispatch
/// that waits for a worker, or fails, tracks nothing.
pub proof fn placed_tasks_reach_a_matching_worker(
    before: DispatcherView,
    flow: DispatchFlowView,
    after: DispatcherView,
    next: DispatchFlowView,
)
    requires
        placed(before, flow, after, next),
    ensures
        next.step matches DispatchStepView::Send { worker_id, channel } ==> {
            &&& !before.draining
            &&& before.registry.workers.contains_key(worker_id)
            &&& before.registry.workers[worker_id].namespace == flow.namespace
            &&& before.registry.workers[worker_id].activity_types.contains(flow.activity_type)
            &&& before.registry.workers[worker_id].channel == channel
            &&& after.in_flight == before.in_flight.insert(
                InFlightActivity {
                    worker_id,
                    workflow_id: flow.workflow_id,
                    activity_id: flow.activity_id,
                },
            )
            &&& after.pending == before.pending
        },
        !(next.step is Send) ==> after.in_flight == before.in_flight,
        next.step is Send || next.step is WaitForWorker || next.step is Finished,
        next.step is WaitForWorker ==> after.pending == before.pending,
        next.step is Finished ==> before.draining,
        after.registry.workers == before.registry.workers,
        next.ticket == flow.ticket,
        next.workflow_id == flow.workflow_id,
        next.activity_id == flow.activity_id,
{
    let (registry, candidates) = choose|
        registry: RegistryView,
        candidates: Seq<(WorkerId, u64)>,
    | #[trigger]
        offers(before.registry, registry, (flow.namespace, flow.activity_type), candidates) && (
        after,
        next,
    ) == placed_on(DispatcherView { registry, ..before }, flow, candidates);
    only_matching_workers_are_offered(
        before.registry,
        registry,
        (flow.namespace, flow.activity_type),
        candidates.map_values(|candidate: (WorkerId, u64)| candidate.0),
        WorkerId(0),
    );
    if candidates.len() > 0 {
        candidates_are_registered_workers(
            before.registry,
            registry,
            (flow.namespace, flow.activity_type),
            candidates,
            0,
        );
    }
}

/// Giving up a dispatch takes away its own waiting entry, and cleaning up after it its own task as well;
/// every other entry and task, the deliveries, the tickets and the workers stay as they were.
pub proof fn given_up_dispatches_take_only_their_own(
    dispatcher: DispatcherView,
    flow: DispatchFlowView,
    worker_id: WorkerId,
    key: (u128, u64),
    task: InFlightActivity,
)
    ensures
        ({
            let after = abandoned(dispatcher, flow);
            let cleaned = cleaned_up(dispatcher, flow, worker_id);
            let own = (flow.workflow_id.value, flow.activity_id.position);
            &&& after.pending.entries.contains_key(key) <==> dispatcher.pending.entries.contains_key(
                key,
            ) && key != own
            &&& after.pending.entries.contains_key(key) ==> after.pending.entries[key]
                == dispatcher.pending.entries[key]
            &&& after.pending.deliveries == dispatcher.pending.deliveries
            &&& after.pending.next_ticket == dispatcher.pending.next_ticket
            &&& after.in_flight == dispatcher.in_flight
            &&& after.registry == dispatcher.registry
            &&& after.draining == dispatcher.draining
            &&& after.namespace == dispatcher.namespace
            &&& cleaned.pending == after.pending
            &&& cleaned.registry == dispatcher.registry
            &&& cleaned.draining == dispatcher.draining
            &&& cleaned.in_flight.contains(task) <==> dispatcher.in_flight.contains(task) && !(
            task.worker_id == worker_id && task.workflow_id == flow.workflow_id
                && task.activity_id == flow.activity_id)
        }),
{
}

} // verus!
